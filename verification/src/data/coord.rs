//! Coordinates in degrees, held as the bit pattern of an IEEE 754 binary64
//! number, and the numeric order on those patterns.
//!
//! A pattern has a sign bit and a 63-bit magnitude. Magnitudes above that of
//! infinity are not numbers. Among numbers, the magnitude grows with the
//! absolute value, so the order of the values is the order of the signed
//! magnitudes; both zeros have the signed magnitude 0.

use vstd::prelude::*;

verus! {

/// The sign bit of a pattern.
pub const SIGN_BIT: u64 = 0x8000_0000_0000_0000;

/// The pattern of positive infinity.
pub const INFINITY: u64 = 0x7ff0_0000_0000_0000;

/// The pattern of the largest finite number.
pub const LARGEST: u64 = 0x7fef_ffff_ffff_ffff;

/// The pattern of the smallest finite number, the negative of the largest.
pub const SMALLEST: u64 = 0xffef_ffff_ffff_ffff;

/// The pattern without its sign bit.
pub open spec fn magnitude(bits: u64) -> u64 {
    if bits >= SIGN_BIT {
        (bits - SIGN_BIT) as u64
    } else {
        bits
    }
}

/// The pattern is not a number.
pub open spec fn is_nan(bits: u64) -> bool {
    magnitude(bits) > INFINITY
}

/// The signed magnitude of a pattern: where neither of two patterns is a NaN,
/// their values compare as their ranks do.
pub open spec fn rank(bits: u64) -> int {
    if bits >= SIGN_BIT {
        -(magnitude(bits) as int)
    } else {
        magnitude(bits) as int
    }
}

/// The value of `a` is less than or equal to that of `b`. A comparison with a
/// NaN on either side is false.
pub open spec fn le(a: u64, b: u64) -> bool {
    !is_nan(a) && !is_nan(b) && rank(a) <= rank(b)
}

/// The smaller of two values, ignoring a NaN: where one side is a NaN the
/// other is kept, and of two equal values the first.
pub open spec fn min_of(a: u64, b: u64) -> u64 {
    if is_nan(b) {
        a
    } else if is_nan(a) {
        b
    } else if rank(b) < rank(a) {
        b
    } else {
        a
    }
}

/// The larger of two values, ignoring a NaN: where one side is a NaN the
/// other is kept, and of two equal values the first.
pub open spec fn max_of(a: u64, b: u64) -> u64 {
    if is_nan(b) {
        a
    } else if is_nan(a) {
        b
    } else if rank(b) > rank(a) {
        b
    } else {
        a
    }
}

fn magnitude_of(bits: u64) -> (m: u64)
    ensures
        m == magnitude(bits),
{
    if bits >= SIGN_BIT {
        bits - SIGN_BIT
    } else {
        bits
    }
}

/// Whether the pattern is not a number.
pub fn coord_is_nan(bits: u64) -> (r: bool)
    ensures
        r == is_nan(bits),
{
    magnitude_of(bits) > INFINITY
}

/// Whether `a` is strictly below `b`, for two patterns that are numbers.
fn below(a: u64, b: u64) -> (r: bool)
    requires
        !is_nan(a),
        !is_nan(b),
    ensures
        r == (rank(a) < rank(b)),
{
    let ma: u64 = magnitude_of(a);
    let mb: u64 = magnitude_of(b);
    if a >= SIGN_BIT {
        if b >= SIGN_BIT {
            ma > mb
        } else {
            ma > 0 || mb > 0
        }
    } else {
        if b >= SIGN_BIT {
            false
        } else {
            ma < mb
        }
    }
}

/// Whether the value of `a` is less than or equal to that of `b`.
pub fn coord_le(a: u64, b: u64) -> (r: bool)
    ensures
        r == le(a, b),
{
    if coord_is_nan(a) || coord_is_nan(b) {
        false
    } else {
        !below(b, a)
    }
}

/// The smaller of two values, ignoring a NaN.
pub fn coord_min(a: u64, b: u64) -> (r: u64)
    ensures
        r == min_of(a, b),
{
    if coord_is_nan(b) {
        a
    } else if coord_is_nan(a) {
        b
    } else if below(b, a) {
        b
    } else {
        a
    }
}

/// The larger of two values, ignoring a NaN.
pub fn coord_max(a: u64, b: u64) -> (r: u64)
    ensures
        r == max_of(a, b),
{
    if coord_is_nan(b) {
        a
    } else if coord_is_nan(a) {
        b
    } else if below(a, b) {
        b
    } else {
        a
    }
}

/// The order is reflexive on numbers.
pub proof fn lemma_le_reflexive(a: u64)
    requires
        !is_nan(a),
    ensures
        le(a, a),
{
}

/// The order is transitive.
pub proof fn lemma_le_transitive(a: u64, b: u64, c: u64)
    requires
        le(a, b),
        le(b, c),
    ensures
        le(a, c),
{
}

/// Any two numbers are comparable.
pub proof fn lemma_le_total(a: u64, b: u64)
    requires
        !is_nan(a),
        !is_nan(b),
    ensures
        le(a, b) || le(b, a),
{
}

} // verus!
