//! Double-precision arithmetic, carried out by outside libraries on 64-bit
//! encodings.
//!
//! Each rounding operation is named by a spec function of the operand
//! encodings alone; a wrapper computes it through `rustc_apfloat` (IEEE-754
//! arithmetic on raw encodings) or `libm` (the transcendental functions).

use vstd::prelude::*;
use rustc_apfloat::Float;
use rustc_apfloat::ieee::Double;
use crate::lexer::is_number_token;

verus! {

/// The double denoted by a decimal literal, rounded to nearest, ties to even.
pub uninterp spec fn dec_bits_of(s: Seq<char>) -> u64;

/// Relies on rustc_apfloat's Double::from_str: correctly rounded conversion
/// of decimal text to a double, failing only on text that is not a decimal
/// number (a numeric token always converts).
#[verifier::external_body]
pub(crate) fn dec_to_bits(s: &str) -> (r: Option<u64>)
    ensures
        r matches Some(b) ==> b == dec_bits_of(s@),
        is_number_token(s@) ==> r is Some,
{
    match <Double as core::str::FromStr>::from_str(s) {
        Ok(d) => Some(d.to_bits() as u64),
        Err(_) => None,
    }
}

/// The decimal text that the standard display of a double prints.
pub uninterp spec fn dec_text_of(b: u64) -> Seq<char>;

/// Relies on the standard display of a double, a pure function of the
/// encoding: the shortest decimal text that converts back to the same
/// double (re-parsing a rendered number is checked by tests). The copysign
/// call, a bitwise identity here, only reconstructs the double from its
/// encoding.
#[verifier::external_body]
pub(crate) fn num_text(b: u64) -> (r: String)
    ensures
        r@ == dec_text_of(b),
{
    let v = libm::copysign(bytemuck::cast(b), bytemuck::cast(b));
    format!("{}", v)
}

/// The IEEE-754 sum of two encodings, ties to even.
pub uninterp spec fn add_bits(a: u64, b: u64) -> u64;

/// Relies on rustc_apfloat's Double addition: IEEE-754, ties to even.
#[verifier::external_body]
pub(crate) fn f64_add(a: u64, b: u64) -> (r: u64)
    ensures
        r == add_bits(a, b),
{
    (Double::from_bits(a as u128) + Double::from_bits(b as u128)).value.to_bits() as u64
}

/// The IEEE-754 difference of two encodings, ties to even.
pub uninterp spec fn sub_bits(a: u64, b: u64) -> u64;

/// Relies on rustc_apfloat's Double subtraction: IEEE-754, ties to even.
#[verifier::external_body]
pub(crate) fn f64_sub(a: u64, b: u64) -> (r: u64)
    ensures
        r == sub_bits(a, b),
{
    (Double::from_bits(a as u128) - Double::from_bits(b as u128)).value.to_bits() as u64
}

/// The IEEE-754 product of two encodings, ties to even.
pub uninterp spec fn mul_bits(a: u64, b: u64) -> u64;

/// Relies on rustc_apfloat's Double multiplication: IEEE-754, ties to even.
#[verifier::external_body]
pub(crate) fn f64_mul(a: u64, b: u64) -> (r: u64)
    ensures
        r == mul_bits(a, b),
{
    (Double::from_bits(a as u128) * Double::from_bits(b as u128)).value.to_bits() as u64
}

/// The IEEE-754 quotient of two encodings, ties to even.
pub uninterp spec fn div_bits(a: u64, b: u64) -> u64;

/// Relies on rustc_apfloat's Double division: IEEE-754, ties to even.
#[verifier::external_body]
pub(crate) fn f64_div(a: u64, b: u64) -> (r: u64)
    ensures
        r == div_bits(a, b),
{
    (Double::from_bits(a as u128) / Double::from_bits(b as u128)).value.to_bits() as u64
}

/// The first encoding raised to the power of the second.
pub uninterp spec fn pow_bits(a: u64, b: u64) -> u64;

/// Relies on libm::pow, a pure function of the two encodings.
#[verifier::external_body]
pub(crate) fn f64_pow(a: u64, b: u64) -> (r: u64)
    ensures
        r == pow_bits(a, b),
{
    let out: u64 = bytemuck::cast(libm::pow(bytemuck::cast(a), bytemuck::cast(b)));
    out
}

/// The sine of the encoded double.
pub uninterp spec fn sin_bits(a: u64) -> u64;

/// Relies on libm::sin, a pure function of the encoding.
#[verifier::external_body]
pub(crate) fn f64_sin(a: u64) -> (r: u64)
    ensures
        r == sin_bits(a),
{
    let out: u64 = bytemuck::cast(libm::sin(bytemuck::cast(a)));
    out
}

/// The cosine of the encoded double.
pub uninterp spec fn cos_bits(a: u64) -> u64;

/// Relies on libm::cos, a pure function of the encoding.
#[verifier::external_body]
pub(crate) fn f64_cos(a: u64) -> (r: u64)
    ensures
        r == cos_bits(a),
{
    let out: u64 = bytemuck::cast(libm::cos(bytemuck::cast(a)));
    out
}

/// The tangent of the encoded double.
pub uninterp spec fn tan_bits(a: u64) -> u64;

/// Relies on libm::tan, a pure function of the encoding.
#[verifier::external_body]
pub(crate) fn f64_tan(a: u64) -> (r: u64)
    ensures
        r == tan_bits(a),
{
    let out: u64 = bytemuck::cast(libm::tan(bytemuck::cast(a)));
    out
}

/// The hyperbolic sine of the encoded double.
pub uninterp spec fn sinh_bits(a: u64) -> u64;

/// Relies on libm::sinh, a pure function of the encoding.
#[verifier::external_body]
pub(crate) fn f64_sinh(a: u64) -> (r: u64)
    ensures
        r == sinh_bits(a),
{
    let out: u64 = bytemuck::cast(libm::sinh(bytemuck::cast(a)));
    out
}

/// The hyperbolic cosine of the encoded double.
pub uninterp spec fn cosh_bits(a: u64) -> u64;

/// Relies on libm::cosh, a pure function of the encoding.
#[verifier::external_body]
pub(crate) fn f64_cosh(a: u64) -> (r: u64)
    ensures
        r == cosh_bits(a),
{
    let out: u64 = bytemuck::cast(libm::cosh(bytemuck::cast(a)));
    out
}

/// The hyperbolic tangent of the encoded double.
pub uninterp spec fn tanh_bits(a: u64) -> u64;

/// Relies on libm::tanh, a pure function of the encoding.
#[verifier::external_body]
pub(crate) fn f64_tanh(a: u64) -> (r: u64)
    ensures
        r == tanh_bits(a),
{
    let out: u64 = bytemuck::cast(libm::tanh(bytemuck::cast(a)));
    out
}

/// The exponential of the encoded double.
pub uninterp spec fn exp_bits(a: u64) -> u64;

/// Relies on libm::exp, a pure function of the encoding.
#[verifier::external_body]
pub(crate) fn f64_exp(a: u64) -> (r: u64)
    ensures
        r == exp_bits(a),
{
    let out: u64 = bytemuck::cast(libm::exp(bytemuck::cast(a)));
    out
}

/// The natural logarithm of the encoded double.
pub uninterp spec fn ln_bits(a: u64) -> u64;

/// Relies on libm::log, the natural logarithm, a pure function of the
/// encoding.
#[verifier::external_body]
pub(crate) fn f64_ln(a: u64) -> (r: u64)
    ensures
        r == ln_bits(a),
{
    let out: u64 = bytemuck::cast(libm::log(bytemuck::cast(a)));
    out
}

} // verus!
