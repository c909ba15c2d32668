//! Per-tick kinematics: direction resolution, speed selection, stamina
//! bookkeeping, position integration and soft-wall clamping.
//!
//! Every quantity is a fixed-point milliunit integer, so one simulation
//! step is exact integer arithmetic; the spec functions here are the
//! mathematical model that the executable integrator is proved equal to.

use vstd::prelude::*;
use vstd::arithmetic::div_mod::{lemma_div_by_multiple, lemma_div_is_ordered};
use vstd::arithmetic::mul::lemma_mul_left_inequality;
use crate::constants::{
    BASE_SPEED, BOOST_COST, BOOST_MIN_STAMINA, BOOST_REGEN, BOOST_SPEED, INV_SQRT2_DEN,
    INV_SQRT2_NUM, PLAYER_RADIUS, POS_LIMIT, STAMINA_MAX, TICK_RATE,
};
use crate::math::{div_tick, isqrt_ceil, sqrt_ceil, lemma_sqrt_ceil_bounds};
use crate::messages::InputFrame;

verus! {

/// A point or displacement of track space, fixed-point milliunits per axis.
/// `x` is the primary travel axis; `y` and `z` are the off-axis components
/// bounded by the region radius.
#[derive(Debug, Clone, Copy, PartialEq, Eq, Structural)]
pub struct Vec3Milli {
    pub x: i64,
    pub y: i64,
    pub z: i64,
}

/// A participant's kinematic state: position, velocity (milliunits per
/// second) and stamina (milli-points).
#[derive(Debug, Clone, Copy, PartialEq, Eq, Structural)]
pub struct PlayerKinematics {
    pub position: Vec3Milli,
    pub velocity: Vec3Milli,
    pub stamina: i64,
}

/// A coordinate the integrator accepts: inside the overflow-safe band.
pub open spec fn in_pos_range(v: int) -> bool {
    -POS_LIMIT <= v <= POS_LIMIT
}

/// Every axis of a position inside the overflow-safe band.
pub open spec fn wf_pos(v: Vec3Milli) -> bool {
    in_pos_range(v.x as int) && in_pos_range(v.y as int) && in_pos_range(v.z as int)
}

/// A velocity no faster than the boost speed on any axis.
pub open spec fn vel_bounded(v: Vec3Milli) -> bool {
    &&& -BOOST_SPEED <= v.x <= BOOST_SPEED
    &&& -BOOST_SPEED <= v.y <= BOOST_SPEED
    &&& -BOOST_SPEED <= v.z <= BOOST_SPEED
}

impl PlayerKinematics {
    /// Well-formed kinematics: position in range, velocity bounded, stamina
    /// within its closed interval.
    pub open spec fn wf(self) -> bool {
        &&& wf_pos(self.position)
        &&& vel_bounded(self.velocity)
        &&& 0 <= self.stamina <= STAMINA_MAX
    }

    /// Fresh kinematics at a start position: at rest, stamina full.
    pub fn spawn(start: Vec3Milli) -> (r: Self)
        ensures
            r.position == start,
            r.velocity == (Vec3Milli { x: 0, y: 0, z: 0 }),
            r.stamina == STAMINA_MAX,
    {
        PlayerKinematics {
            position: start,
            velocity: Vec3Milli { x: 0, y: 0, z: 0 },
            stamina: STAMINA_MAX,
        }
    }
}

/// Signed contribution of the up/down flags along the primary axis.
pub open spec fn dir_a(input: InputFrame) -> int {
    (if input.up { 1int } else { 0int }) - (if input.down { 1int } else { 0int })
}

/// Signed contribution of the right/left flags along the lateral axis.
pub open spec fn dir_b(input: InputFrame) -> int {
    (if input.right { 1int } else { 0int }) - (if input.left { 1int } else { 0int })
}

/// Boosting takes effect only while stamina exceeds the small floor.
pub open spec fn boost_active(input: InputFrame, stamina: int) -> bool {
    input.boost && stamina > BOOST_MIN_STAMINA
}

/// The speed constant selected for this tick.
pub open spec fn selected_speed(input: InputFrame, stamina: int) -> int {
    if boost_active(input, stamina) {
        BOOST_SPEED as int
    } else {
        BASE_SPEED as int
    }
}

/// Stamina after one tick: drained while boosting (floored at zero),
/// regained otherwise (capped at the maximum).
pub open spec fn next_stamina(input: InputFrame, stamina: int) -> int {
    if boost_active(input, stamina) {
        let drained = stamina - BOOST_COST as int / TICK_RATE as int;
        if drained < 0 {
            0
        } else {
            drained
        }
    } else {
        let regained = stamina + BOOST_REGEN as int / TICK_RATE as int;
        if regained > STAMINA_MAX {
            STAMINA_MAX as int
        } else {
            regained
        }
    }
}

/// One diagonal component of a normalized direction at the given speed:
/// the speed scaled by the rational under-approximation of 1/sqrt(2).
pub open spec fn diag_comp(speed: int) -> int {
    speed * INV_SQRT2_NUM / INV_SQRT2_DEN as int
}

/// Magnitude of each active axis component of this tick's velocity.
pub open spec fn axis_comp(input: InputFrame, stamina: int) -> int {
    if dir_a(input) != 0 && dir_b(input) != 0 {
        diag_comp(selected_speed(input, stamina))
    } else {
        selected_speed(input, stamina)
    }
}

/// A signed multiple of a magnitude for a direction sign in {-1, 0, 1},
/// written by cases so that it computes by unfolding.
pub open spec fn signed(sign: int, magnitude: int) -> int {
    if sign == 1 {
        magnitude
    } else if sign == -1 {
        -magnitude
    } else {
        0int
    }
}

/// Velocity along the primary axis produced by this tick's input.
pub open spec fn vel_a(input: InputFrame, stamina: int) -> int {
    signed(dir_a(input), axis_comp(input, stamina))
}

/// Velocity along the lateral axis produced by this tick's input.
pub open spec fn vel_b(input: InputFrame, stamina: int) -> int {
    signed(dir_b(input), axis_comp(input, stamina))
}

/// A coordinate clamped into the overflow-safe band.
pub open spec fn clamp_pos(v: int) -> int {
    if v > POS_LIMIT {
        POS_LIMIT as int
    } else if v < -POS_LIMIT {
        -POS_LIMIT as int
    } else {
        v
    }
}

/// One axis of the position step: the floor per-tick share of the velocity,
/// then the overflow clamp.
pub open spec fn step_component(p: int, v: int) -> int {
    clamp_pos(p + v / TICK_RATE as int)
}

/// The whole integration step as a mathematical function: the value
/// `integrate_input` is proved to return.
pub open spec fn integrate_spec(kin: PlayerKinematics, input: InputFrame) -> PlayerKinematics {
    let st = kin.stamina as int;
    let va = vel_a(input, st);
    let vb = vel_b(input, st);
    PlayerKinematics {
        position: Vec3Milli {
            x: step_component(kin.position.x as int, va) as i64,
            y: step_component(kin.position.y as int, 0) as i64,
            z: step_component(kin.position.z as int, vb) as i64,
        },
        velocity: Vec3Milli { x: va as i64, y: 0, z: vb as i64 },
        stamina: next_stamina(input, st) as i64,
    }
}

/// One diagonal velocity component for a selected speed, never above it.
fn diag_speed(speed: i64) -> (r: i64)
    requires
        0 < speed <= 1_000_000,
    ensures
        r == diag_comp(speed as int),
        0 <= r <= speed,
{
    let prod: u64 = (speed as u64) * (INV_SQRT2_NUM as u64);
    let q: u64 = prod / (INV_SQRT2_DEN as u64);
    proof {
        lemma_mul_left_inequality(speed as int, INV_SQRT2_NUM as int, INV_SQRT2_DEN as int);
        lemma_div_is_ordered(
            speed * INV_SQRT2_NUM,
            speed * INV_SQRT2_DEN,
            INV_SQRT2_DEN as int,
        );
        lemma_div_by_multiple(speed as int, INV_SQRT2_DEN as int);
        lemma_div_is_ordered(0, speed * INV_SQRT2_NUM, INV_SQRT2_DEN as int);
    }
    q as i64
}

/// One axis of the position update.
fn step_axis(p: i64, v: i64) -> (r: i64)
    requires
        in_pos_range(p as int),
        -BOOST_SPEED <= v <= BOOST_SPEED,
    ensures
        r == step_component(p as int, v as int),
        in_pos_range(r as int),
{
    let d = div_tick(v);
    proof {
        lemma_div_is_ordered(-BOOST_SPEED as int, v as int, TICK_RATE as int);
        lemma_div_is_ordered(v as int, BOOST_SPEED as int, TICK_RATE as int);
    }
    let s = p + d;
    if s > POS_LIMIT {
        POS_LIMIT
    } else if s < -POS_LIMIT {
        -POS_LIMIT
    } else {
        s
    }
}

/// Advance a position by the per-tick share of a velocity, axis by axis.
pub fn integrate_3d_position(pos: Vec3Milli, vel: Vec3Milli) -> (r: Vec3Milli)
    requires
        wf_pos(pos),
        vel_bounded(vel),
    ensures
        r.x == step_component(pos.x as int, vel.x as int),
        r.y == step_component(pos.y as int, vel.y as int),
        r.z == step_component(pos.z as int, vel.z as int),
        wf_pos(r),
{
    Vec3Milli {
        x: step_axis(pos.x, vel.x),
        y: step_axis(pos.y, vel.y),
        z: step_axis(pos.z, vel.z),
    }
}

/// Squared off-axis displacement of a position: the distance from the
/// track's central axis, squared.
pub open spec fn off_axis_sq(pos: Vec3Milli) -> int {
    pos.y * pos.y + pos.z * pos.z
}

/// An off-axis component rescaled by `radius / l`, rounded toward zero.
pub open spec fn scale_trunc(c: int, radius: int, l: int) -> int {
    if c >= 0 {
        c * radius / l
    } else {
        -((-c) * radius / l)
    }
}

/// Soft-wall clamping as a mathematical function: positions whose off-axis
/// displacement fits inside the radius pass through unchanged; the rest
/// have their off-axis components rescaled onto the radius, the primary
/// axis untouched.
pub open spec fn clamp_spec(pos: Vec3Milli, radius: int) -> Vec3Milli {
    if off_axis_sq(pos) <= radius * radius {
        pos
    } else {
        let l = sqrt_ceil(off_axis_sq(pos) as nat) as int;
        Vec3Milli {
            x: pos.x,
            y: scale_trunc(pos.y as int, radius, l) as i64,
            z: scale_trunc(pos.z as int, radius, l) as i64,
        }
    }
}

/// One off-axis component times `radius / l`, toward zero. The product
/// bound relates the result back to the exact rational rescale.
fn scale_off_axis(c: i64, radius: i64, l: u128) -> (r: i64)
    requires
        -POS_LIMIT <= c <= POS_LIMIT,
        0 <= radius <= 1_000_000,
        (radius as int) < l as int,
        (c as int) * (c as int) <= (l as int) * (l as int),
    ensures
        r == scale_trunc(c as int, radius as int, l as int),
        c >= 0 ==> 0 <= r <= c,
        c < 0 ==> c <= r <= 0,
        -radius <= r <= radius,
        (if r >= 0 { r as int } else { -r as int }) * (l as int)
            <= (if c >= 0 { c as int } else { -c as int }) * (radius as int),
        (if c >= 0 { c as int } else { -c as int }) * (radius as int)
            < ((if r >= 0 { r as int } else { -r as int }) + 1) * (l as int),
{
    let cu: u64 = if c >= 0 {
        c as u64
    } else {
        (-c) as u64
    };
    proof {
        assert(cu as int <= l as int) by (nonlinear_arith)
            requires
                (c as int) * (c as int) <= (l as int) * (l as int),
                l as int > 0,
                cu as int == (if c >= 0 { c as int } else { -c as int }),
        {}
        assert((cu as int) * (radius as int) <= 1_000_000_000_000_000_000_000int)
            by (nonlinear_arith)
            requires
                0 <= cu as int <= 1_000_000_000_000_000,
                0 <= radius as int <= 1_000_000,
        {}
    }
    let prod: u128 = (cu as u128) * (radius as u128);
    let q: u128 = prod / l;
    proof {
        assert(q * (l as int) <= prod && prod < (q + 1) * (l as int) && q <= cu
            && q <= radius as int) by (nonlinear_arith)
            requires
                q == (prod as int) / (l as int),
                prod == (cu as int) * (radius as int),
                0 < l as int,
                0 <= cu as int,
                cu as int <= l as int,
                0 <= radius as int,
                (radius as int) < l as int,
        {}
    }
    let qi: i64 = q as i64;
    if c >= 0 {
        qi
    } else {
        -qi
    }
}

/// When a clamp rescales, the result falls short of the radius by less than
/// the fixed-point quantization allows to state: the squared off-axis
/// displacement lands within `6 * radius + 2` of the squared radius (a few
/// thousandths of a track unit at the region radii in use).
proof fn lemma_clamp_reaches_radius(ay: int, az: int, py: int, pz: int, rad: int, l: int)
    requires
        0 <= ay <= rad,
        0 <= az <= rad,
        0 <= rad,
        rad < l,
        (ay + 1) * l > py * rad,
        (az + 1) * l > pz * rad,
        py >= 0,
        pz >= 0,
        py * py + pz * pz > rad * rad,
        py * py + pz * pz <= l * l,
        (l - 1) * (l - 1) < py * py + pz * pz,
    ensures
        ay * ay + az * az >= rad * rad - 6 * rad - 2,
{
    assert(((ay + 1) * l) * ((ay + 1) * l) >= (py * rad) * (py * rad)) by (nonlinear_arith)
        requires
            (ay + 1) * l > py * rad,
            py >= 0,
            rad >= 0,
    {}
    assert(((az + 1) * l) * ((az + 1) * l) >= (pz * rad) * (pz * rad)) by (nonlinear_arith)
        requires
            (az + 1) * l > pz * rad,
            pz >= 0,
            rad >= 0,
    {}
    assert(l * l * ((ay + 1) * (ay + 1)) >= rad * rad * (py * py)) by (nonlinear_arith)
        requires
            ((ay + 1) * l) * ((ay + 1) * l) >= (py * rad) * (py * rad),
    {}
    assert(l * l * ((az + 1) * (az + 1)) >= rad * rad * (pz * pz)) by (nonlinear_arith)
        requires
            ((az + 1) * l) * ((az + 1) * l) >= (pz * rad) * (pz * rad),
    {}
    assert(l * l * ((ay + 1) * (ay + 1) + (az + 1) * (az + 1))
        == l * l * ((ay + 1) * (ay + 1)) + l * l * ((az + 1) * (az + 1))) by (nonlinear_arith)
    {}
    assert(rad * rad * (py * py) + rad * rad * (pz * pz)
        == rad * rad * (py * py + pz * pz)) by (nonlinear_arith)
    {}
    assert(rad * rad * (py * py + pz * pz) >= rad * rad * ((l - 1) * (l - 1) + 1))
        by (nonlinear_arith)
        requires
            (l - 1) * (l - 1) < py * py + pz * pz,
            rad >= 0,
    {}
    assert(l * l * ((ay + 1) * (ay + 1) + (az + 1) * (az + 1))
        >= rad * rad * ((l - 1) * (l - 1) + 1));
    assert(l * l * ((ay + 1) * (ay + 1) + (az + 1) * (az + 1))
        <= l * l * (ay * ay + az * az + 4 * rad + 2)) by (nonlinear_arith)
        requires
            0 <= ay <= rad,
            0 <= az <= rad,
    {}
    assert(2 * (rad * rad) * (l - 1) < l * (2 * rad * l + l)) by (nonlinear_arith)
        requires
            0 <= rad,
            rad + 1 <= l,
    {}
    assert(ay * ay + az * az >= rad * rad - 6 * rad - 2) by (nonlinear_arith)
        requires
            l * l * (ay * ay + az * az + 4 * rad + 2)
                >= rad * rad * ((l - 1) * (l - 1) + 1),
            2 * (rad * rad) * (l - 1) < l * (2 * rad * l + l),
            0 <= ay <= rad,
            0 <= az <= rad,
            0 <= rad,
            rad + 1 <= l,
    {}
}

/// Clamp a position's off-axis displacement to a region radius. The primary
/// axis component is never altered; the off-axis displacement never grows,
/// and afterwards always fits inside the radius.
pub fn clamp_to_radius(pos: Vec3Milli, radius: i64) -> (r: Vec3Milli)
    requires
        wf_pos(pos),
        0 <= radius <= 1_000_000,
    ensures
        r == clamp_spec(pos, radius as int),
        r.x == pos.x,
        off_axis_sq(pos) <= radius * radius ==> r == pos,
        off_axis_sq(r) <= radius * radius,
        off_axis_sq(r) <= off_axis_sq(pos),
        off_axis_sq(pos) > radius * radius
            ==> off_axis_sq(r) >= radius * radius - 6 * radius - 2,
        wf_pos(r),
{
    proof {
        assert((pos.y as int) * (pos.y as int) <= POS_LIMIT * POS_LIMIT
            && (pos.y as int) * (pos.y as int) >= 0) by (nonlinear_arith)
            requires -POS_LIMIT <= pos.y as int <= POS_LIMIT,
        {}
        assert((pos.z as int) * (pos.z as int) <= POS_LIMIT * POS_LIMIT
            && (pos.z as int) * (pos.z as int) >= 0) by (nonlinear_arith)
            requires -POS_LIMIT <= pos.z as int <= POS_LIMIT,
        {}
    }
    let yy: i128 = (pos.y as i128) * (pos.y as i128);
    let zz: i128 = (pos.z as i128) * (pos.z as i128);
    let off: i128 = yy + zz;
    proof {
        assert(0 <= (radius as int) * (radius as int) <= 1_000_000_000_000int)
            by (nonlinear_arith)
            requires 0 <= radius as int <= 1_000_000,
        {}
    }
    let rsq: i128 = (radius as i128) * (radius as i128);
    if off <= rsq {
        return pos;
    }
    let l: u128 = isqrt_ceil(off as u128);
    proof {
        lemma_sqrt_ceil_bounds(off as nat);
        assert((radius as int) < l as int) by (nonlinear_arith)
            requires
                (radius as int) * (radius as int) < off as int,
                off as int <= (l as int) * (l as int),
                radius >= 0,
                l as int >= 0,
        {}
    }
    let ny: i64 = scale_off_axis(pos.y, radius, l);
    let nz: i64 = scale_off_axis(pos.z, radius, l);
    let r = Vec3Milli { x: pos.x, y: ny, z: nz };
    proof {
        let li: int = l as int;
        assert((ny as int) * (ny as int) + (nz as int) * (nz as int)
                <= (radius as int) * (radius as int)
            && (ny as int) * (ny as int) <= (pos.y as int) * (pos.y as int)
            && (nz as int) * (nz as int) <= (pos.z as int) * (pos.z as int))
            by (nonlinear_arith)
            requires
                (if ny >= 0 { ny as int } else { -ny as int }) * li
                    <= (if pos.y >= 0 { pos.y as int } else { -pos.y as int })
                        * (radius as int),
                (if nz >= 0 { nz as int } else { -nz as int }) * li
                    <= (if pos.z >= 0 { pos.z as int } else { -pos.z as int })
                        * (radius as int),
                (pos.y as int) * (pos.y as int) + (pos.z as int) * (pos.z as int) <= li * li,
                pos.y >= 0 ==> 0 <= ny <= pos.y,
                pos.y < 0 ==> pos.y <= ny <= 0,
                pos.z >= 0 ==> 0 <= nz <= pos.z,
                pos.z < 0 ==> pos.z <= nz <= 0,
                0 <= radius as int,
                0 < li,
        {}
        let ay: int = if ny >= 0 { ny as int } else { -ny as int };
        let az: int = if nz >= 0 { nz as int } else { -nz as int };
        let py: int = if pos.y >= 0 { pos.y as int } else { -pos.y as int };
        let pz: int = if pos.z >= 0 { pos.z as int } else { -pos.z as int };
        assert(ay * ay == (ny as int) * (ny as int)
            && az * az == (nz as int) * (nz as int)
            && py * py == (pos.y as int) * (pos.y as int)
            && pz * pz == (pos.z as int) * (pos.z as int)) by (nonlinear_arith)
            requires
                ay == (if ny >= 0 { ny as int } else { -ny as int }),
                az == (if nz >= 0 { nz as int } else { -nz as int }),
                py == (if pos.y >= 0 { pos.y as int } else { -pos.y as int }),
                pz == (if pos.z >= 0 { pos.z as int } else { -pos.z as int }),
        {}
        lemma_clamp_reaches_radius(ay, az, py, pz, radius as int, li);
    }
    r
}

/// Squared distance between two positions.
pub open spec fn dist_sq(a: Vec3Milli, b: Vec3Milli) -> int {
    (a.x - b.x) * (a.x - b.x) + (a.y - b.y) * (a.y - b.y) + (a.z - b.z) * (a.z - b.z)
}

/// Squared distance between two positions, exact in `i128`.
pub fn distance_squared(a: Vec3Milli, b: Vec3Milli) -> (r: i128)
    requires
        wf_pos(a),
        wf_pos(b),
    ensures
        r == dist_sq(a, b),
{
    let dx: i128 = (a.x as i128) - (b.x as i128);
    let dy: i128 = (a.y as i128) - (b.y as i128);
    let dz: i128 = (a.z as i128) - (b.z as i128);
    proof {
        assert(0 <= dx * dx <= 4_000_000_000_000_000_000_000_000_000_000
            && 0 <= dy * dy <= 4_000_000_000_000_000_000_000_000_000_000
            && 0 <= dz * dz <= 4_000_000_000_000_000_000_000_000_000_000) by (nonlinear_arith)
            requires
                -2_000_000_000_000_000 <= dx <= 2_000_000_000_000_000,
                -2_000_000_000_000_000 <= dy <= 2_000_000_000_000_000,
                -2_000_000_000_000_000 <= dz <= 2_000_000_000_000_000,
        {}
    }
    dx * dx + dy * dy + dz * dz
}

/// Two participants overlap when their distance is under twice the
/// collision radius; compared on squares to stay exact.
pub fn overlaps(a: Vec3Milli, b: Vec3Milli) -> (r: bool)
    requires
        wf_pos(a),
        wf_pos(b),
    ensures
        r == (dist_sq(a, b) < 4 * PLAYER_RADIUS * PLAYER_RADIUS),
{
    let d = distance_squared(a, b);
    let diameter_sq: i128 = 784_000_000;
    assert(diameter_sq == 4 * PLAYER_RADIUS * PLAYER_RADIUS);
    d < diameter_sq
}

/// One tick of the physics integrator: resolve the direction from the four
/// movement flags (normalized on diagonals, so there is no diagonal speed
/// bonus), pick base or boost speed, update stamina, and advance the
/// position by the per-tick share of the new velocity.
pub fn integrate_input(kin: PlayerKinematics, input: &InputFrame) -> (r: PlayerKinematics)
    requires
        kin.wf(),
    ensures
        r == integrate_spec(kin, *input),
        r.wf(),
{
    let mut ax: i64 = 0;
    let mut az: i64 = 0;
    if input.up {
        ax = ax + 1;
    }
    if input.down {
        ax = ax - 1;
    }
    if input.left {
        az = az - 1;
    }
    if input.right {
        az = az + 1;
    }
    assert(ax == dir_a(*input));
    assert(az == dir_b(*input));

    let speed: i64;
    let mut stamina: i64;
    if input.boost && kin.stamina > BOOST_MIN_STAMINA {
        speed = BOOST_SPEED;
        stamina = kin.stamina - 583;
        assert(583 == BOOST_COST as int / TICK_RATE as int);
        if stamina < 0 {
            stamina = 0;
        }
    } else {
        speed = BASE_SPEED;
        stamina = kin.stamina + 250;
        assert(250 == BOOST_REGEN as int / TICK_RATE as int);
        if stamina > STAMINA_MAX {
            stamina = STAMINA_MAX;
        }
    }
    assert(stamina == next_stamina(*input, kin.stamina as int));

    assert(speed == selected_speed(*input, kin.stamina as int));
    let comp: i64 = if ax != 0 && az != 0 {
        diag_speed(speed)
    } else {
        speed
    };
    assert(comp == axis_comp(*input, kin.stamina as int));
    let vx: i64 = if ax == 1 {
        comp
    } else if ax == -1 {
        -comp
    } else {
        0
    };
    let vz: i64 = if az == 1 {
        comp
    } else if az == -1 {
        -comp
    } else {
        0
    };
    let velocity = Vec3Milli { x: vx, y: 0, z: vz };
    assert(velocity.x == vel_a(*input, kin.stamina as int));
    assert(velocity.z == vel_b(*input, kin.stamina as int));

    let position = integrate_3d_position(kin.position, velocity);
    PlayerKinematics { position, velocity, stamina }
}

/// Exactly one of the four directional flags is set.
pub open spec fn single_flag(input: InputFrame) -> bool {
    (if input.up { 1int } else { 0int })
        + (if input.down { 1int } else { 0int })
        + (if input.left { 1int } else { 0int })
        + (if input.right { 1int } else { 0int })
        == 1
}

/// With exactly one directional flag set, the integrated velocity is
/// axis-aligned and its magnitude is exactly the selected speed constant.
pub proof fn lemma_single_flag_axis_aligned(kin: PlayerKinematics, input: InputFrame)
    requires
        kin.wf(),
        single_flag(input),
    ensures
        ({
            let r = integrate_spec(kin, input);
            let s = selected_speed(input, kin.stamina as int);
            &&& (r.velocity.x == 0 || r.velocity.z == 0)
            &&& r.velocity.y == 0
            &&& r.velocity.x * r.velocity.x + r.velocity.z * r.velocity.z == s * s
        }),
{
    let st = kin.stamina as int;
    let s = selected_speed(input, st);
    assert(dir_a(input) == 0 || dir_b(input) == 0);
    assert(axis_comp(input, st) == s);
    assert((-s) * (-s) == s * s && 0 * 0 == 0) by (nonlinear_arith) {}
}

/// With both axes active (two adjacent directional flags), the integrated
/// velocity's squared magnitude never exceeds the square of the selected
/// speed, and stays within two milliunits of it: there is no diagonal
/// speed bonus, and no slowdown beyond the fixed-point quantization.
pub proof fn lemma_diagonal_no_speed_bonus(kin: PlayerKinematics, input: InputFrame)
    requires
        kin.wf(),
        dir_a(input) != 0,
        dir_b(input) != 0,
    ensures
        ({
            let r = integrate_spec(kin, input);
            let s = selected_speed(input, kin.stamina as int);
            let m2 = r.velocity.x * r.velocity.x + r.velocity.z * r.velocity.z;
            &&& m2 <= s * s
            &&& (s - 2) * (s - 2) <= m2
        }),
{
    let st = kin.stamina as int;
    let s = selected_speed(input, st);
    let c = diag_comp(s);
    assert(axis_comp(input, st) == c);
    if boost_active(input, st) {
        assert(c == 296_984);
        assert(296_984 * 296_984 + 296_984 * 296_984 <= 420_000 * 420_000);
        assert(419_998 * 419_998 <= 296_984 * 296_984 + 296_984 * 296_984);
    } else {
        assert(c == 176_776);
        assert(176_776 * 176_776 + 176_776 * 176_776 <= 250_000 * 250_000);
        assert(249_998 * 249_998 <= 176_776 * 176_776 + 176_776 * 176_776);
    }
    assert((-c) * (-c) == c * c) by (nonlinear_arith) {}
}

/// The kinematics after folding a whole sequence of input frames through
/// the integrator, one fixed tick each.
pub open spec fn run_inputs(kin: PlayerKinematics, inputs: Seq<InputFrame>) -> PlayerKinematics
    decreases inputs.len(),
{
    if inputs.len() == 0 {
        kin
    } else {
        run_inputs(integrate_spec(kin, inputs[0]), inputs.drop_first())
    }
}

/// One integration step preserves well-formedness; in particular the new
/// stamina stays inside its closed interval.
pub proof fn lemma_integrate_preserves_wf(kin: PlayerKinematics, input: InputFrame)
    requires
        kin.wf(),
    ensures
        integrate_spec(kin, input).wf(),
        0 <= integrate_spec(kin, input).stamina <= STAMINA_MAX,
{
    let st = kin.stamina as int;
    let s = selected_speed(input, st);
    let c = axis_comp(input, st);
    if dir_a(input) != 0 && dir_b(input) != 0 {
        if boost_active(input, st) {
            assert(c == 296_984);
        } else {
            assert(c == 176_776);
        }
    }
    assert(0 < c <= BOOST_SPEED);
    let va = vel_a(input, st);
    let vb = vel_b(input, st);
    lemma_div_is_ordered(-BOOST_SPEED as int, va, TICK_RATE as int);
    lemma_div_is_ordered(va, BOOST_SPEED as int, TICK_RATE as int);
    lemma_div_is_ordered(-BOOST_SPEED as int, vb, TICK_RATE as int);
    lemma_div_is_ordered(vb, BOOST_SPEED as int, TICK_RATE as int);
}

/// Stamina never leaves its closed interval under any sequence of boost or
/// no-boost ticks: well-formedness survives the whole run.
pub proof fn lemma_stamina_bounded_over_run(kin: PlayerKinematics, inputs: Seq<InputFrame>)
    requires
        kin.wf(),
    ensures
        run_inputs(kin, inputs).wf(),
        0 <= run_inputs(kin, inputs).stamina <= STAMINA_MAX,
    decreases inputs.len(),
{
    if inputs.len() > 0 {
        lemma_integrate_preserves_wf(kin, inputs[0]);
        lemma_stamina_bounded_over_run(integrate_spec(kin, inputs[0]), inputs.drop_first());
    }
}

} // verus!
