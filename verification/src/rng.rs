//! Randomness, drawn from the `rand` crate. Nothing is assumed of which
//! values come out, only of their shape: an identifier is eight alphanumeric
//! characters, a palette pick is a valid index.

use vstd::prelude::*;

use rand::distr::SampleString;

verus! {

/// An ASCII letter or digit.
pub open spec fn is_alnum_char(c: char) -> bool {
    (48 <= c as int <= 57) || (65 <= c as int <= 90) || (97 <= c as int <= 122)
}

/// Relies on rand's `Alphanumeric` distribution: `sample_string` returns
/// exactly `len` characters, each drawn from a-z, A-Z and 0-9.
#[verifier::external_body]
pub fn random_string(len: usize) -> (r: String)
    ensures
        r@.len() == len as int,
        forall|i: int| 0 <= i < r@.len() ==> is_alnum_char(#[trigger] r@[i]),
{
    rand::distr::Alphanumeric.sample_string(&mut rand::rng(), len)
}

/// Relies on rand's `random_range`: the result of sampling `0..len` lies
/// within that range. `random_range` panics on an empty range, which the
/// precondition rules out.
#[verifier::external_body]
fn random_index(len: usize) -> (r: usize)
    requires
        len > 0,
    ensures
        r < len,
{
    rand::random_range(0..len)
}

/// Whether a color belongs to the fixed palette that table roles draw from.
pub open spec fn is_palette_color(c: u32) -> bool {
    ||| c == 0x6FC6E2
    ||| c == 0x7289DA
    ||| c == 0x206694
    ||| c == 0xC27C0E
    ||| c == 0x607D8B
    ||| c == 0xAD1457
    ||| c == 0xA84300
    ||| c == 0x71368A
    ||| c == 0x11806A
    ||| c == 0x546E7A
    ||| c == 0xFAB81E
    ||| c == 0x8882C4
    ||| c == 0x11CA80
    ||| c == 0xF1C40F
    ||| c == 0xBADC58
    ||| c == 0x979C9F
    ||| c == 0x95A5A6
    ||| c == 0xE91E63
    ||| c == 0xE68397
    ||| c == 0xE67E22
    ||| c == 0x9B59B6
    ||| c == 0xE74C3C
    ||| c == 0x7596FF
    ||| c == 0xF6DBD8
    ||| c == 0x1ABC9C
}

/// A color for a new table role, drawn from the fixed palette.
pub fn random_color() -> (r: u32)
    ensures
        is_palette_color(r),
{
    let i = random_index(25);
    match i {
        0 => 0x6FC6E2,
        1 => 0x7289DA,
        2 => 0x206694,
        3 => 0xC27C0E,
        4 => 0x607D8B,
        5 => 0xAD1457,
        6 => 0xA84300,
        7 => 0x71368A,
        8 => 0x11806A,
        9 => 0x546E7A,
        10 => 0xFAB81E,
        11 => 0x8882C4,
        12 => 0x11CA80,
        13 => 0xF1C40F,
        14 => 0xBADC58,
        15 => 0x979C9F,
        16 => 0x95A5A6,
        17 => 0xE91E63,
        18 => 0xE68397,
        19 => 0xE67E22,
        20 => 0x9B59B6,
        21 => 0xE74C3C,
        22 => 0x7596FF,
        23 => 0xF6DBD8,
        _ => 0x1ABC9C,
    }
}

} // verus!
