//! Ordering of IEEE-754 binary64 values given by their bit patterns.
//!
//! Floating-point numbers are carried through the library as the `u64` bit
//! pattern that `f64::to_bits` yields; this module decides the comparisons
//! that the decision logic needs, exactly as `<` and `>` on `f64` do.

use vstd::prelude::*;

verus! {

/// Bit pattern of the sign bit.
pub const SIGN_BIT: u64 = 0x8000_0000_0000_0000;

/// Bit pattern of positive infinity (largest non-NaN magnitude).
pub const POSITIVE_INFINITY_BITS: u64 = 0x7FF0_0000_0000_0000;

/// The magnitude part (all bits but the sign) of a bit pattern.
pub open spec fn magnitude(bits: u64) -> int {
    if bits >= SIGN_BIT { bits - SIGN_BIT } else { bits as int }
}

/// A bit pattern is NaN when its exponent is all ones and its mantissa non-zero.
pub open spec fn is_nan(bits: u64) -> bool {
    magnitude(bits) > POSITIVE_INFINITY_BITS
}

/// Sign-magnitude reading of a pattern: its position on the real line
/// (both zeros map to 0, larger magnitudes are farther from 0).
pub open spec fn signed_magnitude(bits: u64) -> int {
    if bits >= SIGN_BIT { -magnitude(bits) } else { magnitude(bits) }
}

/// `a < b` on the two `f64` values: false when either is NaN.
pub open spec fn f64_lt(a: u64, b: u64) -> bool {
    !is_nan(a) && !is_nan(b) && signed_magnitude(a) < signed_magnitude(b)
}

/// `a <= b` on the two `f64` values: false when either is NaN.
pub open spec fn f64_le(a: u64, b: u64) -> bool {
    !is_nan(a) && !is_nan(b) && signed_magnitude(a) <= signed_magnitude(b)
}

/// `a > b` on the two `f64` values.
pub open spec fn f64_gt(a: u64, b: u64) -> bool {
    f64_lt(b, a)
}

fn nan_bits(bits: u64) -> (r: bool)
    ensures
        r == is_nan(bits),
{
    if bits >= SIGN_BIT {
        bits - SIGN_BIT > POSITIVE_INFINITY_BITS
    } else {
        bits > POSITIVE_INFINITY_BITS
    }
}

/// Decides `a < b` for the `f64` values whose bit patterns are `a` and `b`.
pub fn f64_less_than(a: u64, b: u64) -> (r: bool)
    ensures
        r == f64_lt(a, b),
{
    if nan_bits(a) || nan_bits(b) {
        return false;
    }
    let a_neg = a >= SIGN_BIT;
    let b_neg = b >= SIGN_BIT;
    if a_neg && b_neg {
        // both at or below zero: the larger magnitude is the smaller value
        a - SIGN_BIT > b - SIGN_BIT
    } else if a_neg {
        // a <= 0 <= b: less unless both are zeros
        !(a - SIGN_BIT == 0 && b == 0)
    } else if b_neg {
        false
    } else {
        a < b
    }
}

/// Decides `a <= b` for the `f64` values whose bit patterns are `a` and `b`.
pub fn f64_at_most(a: u64, b: u64) -> (r: bool)
    ensures
        r == f64_le(a, b),
{
    if nan_bits(a) || nan_bits(b) {
        return false;
    }
    !f64_less_than(b, a)
}

/// Decides `a > b` for the `f64` values whose bit patterns are `a` and `b`.
pub fn f64_greater_than(a: u64, b: u64) -> (r: bool)
    ensures
        r == f64_gt(a, b),
{
    f64_less_than(b, a)
}

} // verus!
