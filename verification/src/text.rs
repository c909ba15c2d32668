//! Verified text helpers: decimal rendering of identifiers, guest display
//! names, and the four-letter room codes.

use vstd::prelude::*;
use rand::Rng;

verus! {

/// The decimal digit character for a value below ten.
pub open spec fn digit_char(d: int) -> char {
    if d == 0 {
        '0'
    } else if d == 1 {
        '1'
    } else if d == 2 {
        '2'
    } else if d == 3 {
        '3'
    } else if d == 4 {
        '4'
    } else if d == 5 {
        '5'
    } else if d == 6 {
        '6'
    } else if d == 7 {
        '7'
    } else if d == 8 {
        '8'
    } else {
        '9'
    }
}

/// Decimal digit sequence of a non-negative number, most significant
/// digit first.
pub open spec fn dec_digits(n: nat) -> Seq<char>
    decreases n,
{
    if n < 10 {
        seq![digit_char(n as int)]
    } else {
        dec_digits(n / 10).push(digit_char((n % 10) as int))
    }
}

/// One-character string slice for a decimal digit.
fn digit_str(d: u64) -> (r: &'static str)
    requires
        d < 10,
    ensures
        r@ =~= seq![digit_char(d as int)],
{
    if d == 0 {
        proof { reveal_strlit("0"); }
        "0"
    } else if d == 1 {
        proof { reveal_strlit("1"); }
        "1"
    } else if d == 2 {
        proof { reveal_strlit("2"); }
        "2"
    } else if d == 3 {
        proof { reveal_strlit("3"); }
        "3"
    } else if d == 4 {
        proof { reveal_strlit("4"); }
        "4"
    } else if d == 5 {
        proof { reveal_strlit("5"); }
        "5"
    } else if d == 6 {
        proof { reveal_strlit("6"); }
        "6"
    } else if d == 7 {
        proof { reveal_strlit("7"); }
        "7"
    } else if d == 8 {
        proof { reveal_strlit("8"); }
        "8"
    } else {
        proof { reveal_strlit("9"); }
        "9"
    }
}

/// Decimal string of a number, most significant digit first.
pub fn u64_to_dec(n: u64) -> (s: String)
    ensures
        s@ == dec_digits(n as nat),
    decreases n,
{
    if n < 10 {
        let d = digit_str(n);
        d.to_owned()
    } else {
        let mut s = u64_to_dec(n / 10);
        let d = digit_str(n % 10);
        s.append(d);
        proof {
            assert(s@ =~= dec_digits(n as nat));
        }
        s
    }
}

/// The guest display name a fresh connection receives.
pub open spec fn guest_name(id: u64) -> Seq<char> {
    "Guest-"@ + dec_digits(id as nat)
}

/// Build the guest display name for an identifier.
pub fn make_guest_name(id: u64) -> (s: String)
    ensures
        s@ == guest_name(id),
{
    let mut s = "Guest-".to_owned();
    let d = u64_to_dec(id);
    s.append(d.as_str());
    s
}

/// The room-code alphabet: capital letters that cannot be misread for one
/// another.
pub open spec fn code_alphabet() -> Seq<char> {
    "ABCDEFGHJKMNPQRSTUVWXYZ"@
}

/// One-character string slice for a room-code alphabet index.
fn code_char_str(i: usize) -> (r: &'static str)
    requires
        i < 23,
    ensures
        r@.len() == 1,
        code_alphabet().contains(r@[0]),
{
    proof {
        reveal_strlit("ABCDEFGHJKMNPQRSTUVWXYZ");
    }
    if i == 0 {
        proof {
            reveal_strlit("A");
            assert(code_alphabet()[0] == 'A');
        }
        "A"
    } else if i == 1 {
        proof {
            reveal_strlit("B");
            assert(code_alphabet()[1] == 'B');
        }
        "B"
    } else if i == 2 {
        proof {
            reveal_strlit("C");
            assert(code_alphabet()[2] == 'C');
        }
        "C"
    } else if i == 3 {
        proof {
            reveal_strlit("D");
            assert(code_alphabet()[3] == 'D');
        }
        "D"
    } else if i == 4 {
        proof {
            reveal_strlit("E");
            assert(code_alphabet()[4] == 'E');
        }
        "E"
    } else if i == 5 {
        proof {
            reveal_strlit("F");
            assert(code_alphabet()[5] == 'F');
        }
        "F"
    } else if i == 6 {
        proof {
            reveal_strlit("G");
            assert(code_alphabet()[6] == 'G');
        }
        "G"
    } else if i == 7 {
        proof {
            reveal_strlit("H");
            assert(code_alphabet()[7] == 'H');
        }
        "H"
    } else if i == 8 {
        proof {
            reveal_strlit("J");
            assert(code_alphabet()[8] == 'J');
        }
        "J"
    } else if i == 9 {
        proof {
            reveal_strlit("K");
            assert(code_alphabet()[9] == 'K');
        }
        "K"
    } else if i == 10 {
        proof {
            reveal_strlit("M");
            assert(code_alphabet()[10] == 'M');
        }
        "M"
    } else if i == 11 {
        proof {
            reveal_strlit("N");
            assert(code_alphabet()[11] == 'N');
        }
        "N"
    } else if i == 12 {
        proof {
            reveal_strlit("P");
            assert(code_alphabet()[12] == 'P');
        }
        "P"
    } else if i == 13 {
        proof {
            reveal_strlit("Q");
            assert(code_alphabet()[13] == 'Q');
        }
        "Q"
    } else if i == 14 {
        proof {
            reveal_strlit("R");
            assert(code_alphabet()[14] == 'R');
        }
        "R"
    } else if i == 15 {
        proof {
            reveal_strlit("S");
            assert(code_alphabet()[15] == 'S');
        }
        "S"
    } else if i == 16 {
        proof {
            reveal_strlit("T");
            assert(code_alphabet()[16] == 'T');
        }
        "T"
    } else if i == 17 {
        proof {
            reveal_strlit("U");
            assert(code_alphabet()[17] == 'U');
        }
        "U"
    } else if i == 18 {
        proof {
            reveal_strlit("V");
            assert(code_alphabet()[18] == 'V');
        }
        "V"
    } else if i == 19 {
        proof {
            reveal_strlit("W");
            assert(code_alphabet()[19] == 'W');
        }
        "W"
    } else if i == 20 {
        proof {
            reveal_strlit("X");
            assert(code_alphabet()[20] == 'X');
        }
        "X"
    } else if i == 21 {
        proof {
            reveal_strlit("Y");
            assert(code_alphabet()[21] == 'Y');
        }
        "Y"
    } else {
        proof {
            reveal_strlit("Z");
            assert(code_alphabet()[22] == 'Z');
        }
        "Z"
    }
}

/// Relies on rand's `Rng::gen_range` through the thread-local generator: on
/// a non-empty `0..bound` range it returns a value inside the range.
#[verifier::external_body]
fn random_index(bound: usize) -> (r: usize)
    requires
        0 < bound,
    ensures
        r < bound,
{
    rand::thread_rng().gen_range(0..bound)
}

/// Draw a fresh four-letter room code from the unambiguous alphabet. The
/// letters are random: all that holds of every outcome is the length and
/// the alphabet the letters come from.
pub fn random_room_code() -> (s: String)
    ensures
        s@.len() == 4,
        forall|i: int| 0 <= i < 4 ==> code_alphabet().contains(#[trigger] s@[i]),
{
    let mut s = String::new();
    let mut k: usize = 0;
    while k < 4
        invariant
            k <= 4,
            s@.len() == k,
            forall|i: int| 0 <= i < k ==> code_alphabet().contains(#[trigger] s@[i]),
        decreases 4 - k,
    {
        let idx = random_index(23);
        let c = code_char_str(idx);
        s.append(c);
        k = k + 1;
    }
    s
}

} // verus!
