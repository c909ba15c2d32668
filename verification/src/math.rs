//! Exact integer arithmetic used by the physics integrator: floor and
//! ceiling square roots and the per-tick division, all verified.

use vstd::prelude::*;
use vstd::arithmetic::div_mod::lemma_hoist_over_denominator;
use vstd::arithmetic::mul::lemma_mul_inequality;
use crate::constants::TICK_RATE;

verus! {

/// Largest `s` with `s * s <= n`.
pub open spec fn sqrt_floor(n: nat) -> nat
    decreases n,
{
    if n == 0 {
        0
    } else {
        let s = sqrt_floor((n - 1) as nat);
        if (s + 1) * (s + 1) <= n {
            (s + 1) as nat
        } else {
            s
        }
    }
}

/// Smallest `s` with `n <= s * s`.
pub open spec fn sqrt_ceil(n: nat) -> nat {
    if sqrt_floor(n) * sqrt_floor(n) == n {
        sqrt_floor(n)
    } else {
        sqrt_floor(n) + 1
    }
}

/// The floor square root sits between the two neighbouring squares.
pub proof fn lemma_sqrt_floor_bounds(n: nat)
    ensures
        sqrt_floor(n) * sqrt_floor(n) <= n,
        n < (sqrt_floor(n) + 1) * (sqrt_floor(n) + 1),
    decreases n,
{
    reveal_with_fuel(sqrt_floor, 2);
    if n == 0 {
        assert(sqrt_floor(n) == 0);
        assert(n < (sqrt_floor(n) + 1) * (sqrt_floor(n) + 1)) by (nonlinear_arith)
            requires sqrt_floor(n) == 0, n == 0nat,
        {}
    }
    if n > 0 {
        lemma_sqrt_floor_bounds((n - 1) as nat);
        let s = sqrt_floor((n - 1) as nat);
        assert(s * s <= n - 1);
        assert(n - 1 < (s + 1) * (s + 1));
        if (s + 1) * (s + 1) <= n {
            assert(sqrt_floor(n) == s + 1);
            assert((s + 1 + 1) * (s + 1 + 1) > n) by (nonlinear_arith)
                requires
                    (s + 1) * (s + 1) <= n,
                    n - 1 < (s + 1) * (s + 1),
            {}
        } else {
            assert(sqrt_floor(n) == s);
        }
    }
}

/// Any `r` between the neighbouring squares of `n` is the floor square root.
pub proof fn lemma_sqrt_floor_unique(n: nat, r: nat)
    requires
        r * r <= n,
        n < (r + 1) * (r + 1),
    ensures
        r == sqrt_floor(n),
{
    lemma_sqrt_floor_bounds(n);
    let s = sqrt_floor(n);
    if r < s {
        lemma_mul_inequality(r as int + 1, s as int, r as int + 1);
        lemma_mul_inequality(r as int + 1, s as int, s as int);
        assert(s * s <= n);
        assert((r + 1) * (r + 1) <= s * s) by (nonlinear_arith)
            requires r + 1 <= s,
        {}
    }
    if s < r {
        assert((s + 1) * (s + 1) <= r * r) by (nonlinear_arith)
            requires s + 1 <= r,
        {}
    }
}

/// The ceiling square root of a positive `n` covers `n` from above and its
/// predecessor falls short.
pub proof fn lemma_sqrt_ceil_bounds(n: nat)
    requires
        n > 0,
    ensures
        sqrt_ceil(n) > 0,
        n <= sqrt_ceil(n) * sqrt_ceil(n),
        (sqrt_ceil(n) - 1) * (sqrt_ceil(n) - 1) < n,
{
    lemma_sqrt_floor_bounds(n);
    let s = sqrt_floor(n);
    if s * s == n {
        assert(s > 0) by (nonlinear_arith)
            requires s * s == n, n > 0,
        {}
        assert((s - 1) * (s - 1) < s * s) by (nonlinear_arith)
            requires s > 0,
        {}
    }
}

/// Floor square root of `n`, by binary search. The bound on `n` keeps every
/// intermediate square inside `u128`.
pub fn isqrt(n: u128) -> (r: u128)
    requires
        n <= 4_000_000_000_000_000_000_000_000_000_000,
    ensures
        r == sqrt_floor(n as nat),
        r * r <= n,
        n < (r + 1) * (r + 1),
{
    let mut lo: u128 = 0;
    let mut hi: u128 = 2_000_000_000_000_000;
    assert((hi + 1) * (hi + 1) > n);
    while lo < hi
        invariant
            lo <= hi,
            hi <= 2_000_000_000_000_000,
            lo * lo <= n,
            n < (hi + 1) * (hi + 1),
        decreases hi - lo,
    {
        let mid: u128 = (lo + hi + 1) / 2;
        assert(lo < mid <= hi);
        assert(mid * mid <= 4_000_000_000_000_000_000_000_000_000_000 + 4_000_000_000_000_000)
            by (nonlinear_arith)
            requires mid <= 2_000_000_000_000_000int,
        {}
        if mid * mid <= n {
            lo = mid;
        } else {
            hi = mid - 1;
        }
    }
    proof {
        lemma_sqrt_floor_unique(n as nat, lo as nat);
    }
    lo
}

/// Ceiling square root of `n`, from the floor square root.
pub fn isqrt_ceil(n: u128) -> (r: u128)
    requires
        n <= 4_000_000_000_000_000_000_000_000_000_000,
    ensures
        r == sqrt_ceil(n as nat),
        n <= r * r,
        n > 0 ==> r > 0 && (r - 1) * (r - 1) < n,
{
    let s = isqrt(n);
    proof {
        if n > 0 {
            lemma_sqrt_ceil_bounds(n as nat);
        }
        assert(s <= 2_000_000_000_000_000) by (nonlinear_arith)
            requires
                s * s <= 4_000_000_000_000_000_000_000_000_000_000,
                s >= 0,
        {}
    }
    if s * s == n {
        s
    } else {
        s + 1
    }
}

/// Floor division of a bounded milliunit quantity by the tick rate: the
/// per-tick share of a per-second rate.
pub fn div_tick(v: i64) -> (r: i64)
    requires
        -1_020_000 <= v <= 1_020_000,
    ensures
        r == v as int / (TICK_RATE as int),
{
    let shifted: u64 = (v + 1_020_000) as u64;
    let q: u64 = shifted / (TICK_RATE as u64);
    proof {
        lemma_hoist_over_denominator(v as int, 17_000, TICK_RATE as nat);
    }
    (q as i64) - 17_000
}

} // verus!
