//! Bit-level model of IEEE-754 double-precision values.
//!
//! The interpreter carries every number as its 64-bit IEEE-754 encoding.
//! Classification (NaN, zero), absolute value and the ordering predicates
//! are pure functions of the encoding, written out here and verified;
//! only rounding arithmetic needs an outside library (see `num`).

use vstd::prelude::*;

verus! {

/// Mask that clears the sign bit of an encoding.
pub const SIGN_CLEAR: u64 = 0x7fff_ffff_ffff_ffff;

/// Encoding of positive infinity: exponent field all ones, mantissa zero.
pub const INF_BITS: u64 = 0x7ff0_0000_0000_0000;

/// Encoding of the mathematical constant pi (3.141592653589793).
pub const PI_BITS: u64 = 0x4009_21fb_5444_2d18;

/// Encoding of Euler's number e (2.718281828459045).
pub const E_BITS: u64 = 0x4005_bf0a_8b14_5769;

/// Encoding of 1e-12, the magnitude below which a divisor counts as zero.
pub const DIV_EPS_BITS: u64 = 0x3d71_9799_812d_ea11;

/// The encoding of the absolute value: the sign bit cleared.
pub open spec fn abs_bits(b: u64) -> u64 {
    b & SIGN_CLEAR
}

/// An encoding denotes NaN exactly when its sign-stripped form lies above
/// the encoding of infinity (exponent all ones, mantissa not zero).
pub open spec fn is_nan_bits(b: u64) -> bool {
    abs_bits(b) > INF_BITS
}

/// An encoding denotes zero (of either sign) when all bits but the sign
/// are clear.
pub open spec fn is_zero_bits(b: u64) -> bool {
    abs_bits(b) == 0
}

/// IEEE-754 equality on encodings: NaN equals nothing, the two zeros are
/// equal, and every other value is equal only to its own encoding.
pub open spec fn eq_bits(a: u64, b: u64) -> bool {
    &&& !is_nan_bits(a)
    &&& !is_nan_bits(b)
    &&& (a == b || (is_zero_bits(a) && is_zero_bits(b)))
}

/// IEEE-754 strict order on encodings. Doubles are sign-magnitude: with
/// equal signs the order of non-negative encodings is the integer order of
/// the bits, and the order of negative encodings is its reverse; with
/// different signs the negative one is smaller, except that the two zeros
/// are equal. NaN is ordered with nothing.
pub open spec fn lt_bits(a: u64, b: u64) -> bool {
    &&& !is_nan_bits(a)
    &&& !is_nan_bits(b)
    &&& !(is_zero_bits(a) && is_zero_bits(b))
    &&& {
        let sa = a >> 63;
        let sb = b >> 63;
        if sa != sb {
            sa == 1
        } else if sa == 0 {
            a < b
        } else {
            a > b
        }
    }
}

/// Non-strict order: equal or strictly below.
pub open spec fn le_bits(a: u64, b: u64) -> bool {
    eq_bits(a, b) || lt_bits(a, b)
}

/// A divisor is rejected when its absolute value lies strictly below 1e-12.
/// Sign-stripped encodings of non-NaN values order as the values do, and a
/// NaN divisor is not rejected, exactly as a float comparison would have it.
pub open spec fn divisor_too_small(b: u64) -> bool {
    abs_bits(b) < DIV_EPS_BITS
}

/// Clears the sign bit: the encoding of the absolute value.
pub fn f64_abs(b: u64) -> (r: u64)
    ensures
        r == abs_bits(b),
{
    b & SIGN_CLEAR
}

/// IEEE-754 equality test on encodings.
pub fn f64_eq(a: u64, b: u64) -> (r: bool)
    ensures
        r == eq_bits(a, b),
{
    let aa = a & SIGN_CLEAR;
    let ab = b & SIGN_CLEAR;
    if aa > INF_BITS || ab > INF_BITS {
        false
    } else {
        a == b || (aa == 0 && ab == 0)
    }
}

/// IEEE-754 strict order test on encodings.
pub fn f64_lt(a: u64, b: u64) -> (r: bool)
    ensures
        r == lt_bits(a, b),
{
    let aa = a & SIGN_CLEAR;
    let ab = b & SIGN_CLEAR;
    if aa > INF_BITS || ab > INF_BITS {
        false
    } else if aa == 0 && ab == 0 {
        false
    } else {
        let sa = a >> 63;
        let sb = b >> 63;
        if sa != sb {
            sa == 1
        } else if sa == 0 {
            a < b
        } else {
            a > b
        }
    }
}

/// IEEE-754 non-strict order test on encodings.
pub fn f64_le(a: u64, b: u64) -> (r: bool)
    ensures
        r == le_bits(a, b),
{
    if f64_eq(a, b) {
        true
    } else {
        f64_lt(a, b)
    }
}

/// Tests whether a divisor's absolute value lies strictly below 1e-12.
pub fn f64_divisor_too_small(b: u64) -> (r: bool)
    ensures
        r == divisor_too_small(b),
{
    (b & SIGN_CLEAR) < DIV_EPS_BITS
}

} // verus!
