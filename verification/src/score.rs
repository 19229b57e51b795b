//! The order of 64-bit floating-point numbers, given by their bits.

use vstd::prelude::*;

verus! {

/// The sign bit of a 64-bit floating-point number.
pub const SIGN_BIT: u64 = 0x8000_0000_0000_0000;

/// An integer that orders floating-point numbers, given by their bits, as they are ordered: the bits
/// behind the sign grow with the magnitude.
pub open spec fn score_rank(bits: u64) -> i64 {
    if bits < SIGN_BIT {
        bits as i64
    } else {
        -(bits - SIGN_BIT) as i64
    }
}

/// The integer that orders floating-point numbers by their bits.
pub fn rank_score(bits: u64) -> (r: i64)
    ensures
        r == score_rank(bits),
{
    if bits < SIGN_BIT {
        bits as i64
    } else {
        let magnitude: u64 = bits - SIGN_BIT;
        -(magnitude as i64)
    }
}

/// Numbers with the same sign are ordered by their magnitude, and a number below zero comes before
/// one above it.
pub proof fn score_rank_orders(a: u64, b: u64)
    ensures
        a < b < SIGN_BIT ==> score_rank(a) < score_rank(b),
        SIGN_BIT <= a < b ==> score_rank(b) < score_rank(a),
        b < SIGN_BIT < a ==> score_rank(a) < score_rank(b),
        score_rank(SIGN_BIT) == score_rank(0),
{
}

} // verus!
