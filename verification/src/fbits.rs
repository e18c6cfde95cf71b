//! Double-precision values handled as their IEEE-754 bit patterns.
//!
//! The calculator's `Value::Float` holds the 64 bits of an IEEE-754 double.
//! Comparison, negation and the classification predicates are defined here
//! directly over the bit pattern and verified. The arithmetic itself is done
//! by outside code: `rustc_apfloat` for the rounded IEEE operations and for
//! conversions, `libm` for the transcendental functions. Each such call
//! stands behind a trusted wrapper whose result is named by an
//! uninterpreted spec function: all these operations are deterministic
//! functions of their argument bits alone.

use core::str::FromStr;
use rustc_apfloat::Float;
use vstd::prelude::*;

verus! {

/// Sign bit of a double.
pub const F_SIGN_MASK: u64 = 0x8000_0000_0000_0000;

/// Exponent field of a double.
pub const F_EXP_MASK: u64 = 0x7FF0_0000_0000_0000;

/// Fraction (mantissa) field of a double.
pub const F_FRAC_MASK: u64 = 0x000F_FFFF_FFFF_FFFF;

/// Bits of the double 0.0.
pub const F_ZERO: u64 = 0;

/// Bits of the double 1.0.
pub const F_ONE: u64 = 0x3FF0_0000_0000_0000;

/// Bits of the double nearest to pi.
pub const F_PI: u64 = 0x4009_21FB_5444_2D18;

/// Bits of the double nearest to Euler's number.
pub const F_EULER: u64 = 0x4005_BF0A_8B14_5769;

/// Bits of the double nearest to 180 / pi (degrees per radian).
pub const F_DEG_PER_RAD: u64 = 0x404C_A5DC_1A63_C1F8;

/// Bits of the double nearest to pi / 180 (radians per degree).
pub const F_RAD_PER_DEG: u64 = 0x3F91_DF46_A252_9D39;

/// The bit pattern encodes a NaN: exponent all ones, fraction non-zero.
pub open spec fn f_is_nan(a: u64) -> bool {
    a & F_EXP_MASK == F_EXP_MASK && a & F_FRAC_MASK != 0
}

/// The bit pattern encodes a zero (positive or negative).
pub open spec fn f_is_zero(a: u64) -> bool {
    a & (F_EXP_MASK | F_FRAC_MASK) == 0
}

/// The IEEE-754 `<` relation on doubles, stated over their bit patterns:
/// false whenever either side is NaN, the two zeroes are equal, and
/// otherwise doubles of one sign order as their bit patterns do (reversed
/// for negatives).
pub open spec fn f_lt(a: u64, b: u64) -> bool {
    if f_is_nan(a) || f_is_nan(b) {
        false
    } else if f_is_zero(a) && f_is_zero(b) {
        false
    } else if a & F_SIGN_MASK != b & F_SIGN_MASK {
        a & F_SIGN_MASK != 0
    } else if a & F_SIGN_MASK == 0 {
        a < b
    } else {
        b < a
    }
}

/// The IEEE-754 `==` relation on doubles, stated over their bit patterns:
/// never true for NaN, and the two zeroes are equal.
pub open spec fn f_eq(a: u64, b: u64) -> bool {
    !f_is_nan(a) && !f_is_nan(b) && (a == b || (f_is_zero(a) && f_is_zero(b)))
}

/// IEEE-754 negation: flip the sign bit.
pub open spec fn f_neg(a: u64) -> u64 {
    a ^ F_SIGN_MASK
}

/// The IEEE-754 `<` relation, computed on the bit patterns.
pub fn float_lt(a: u64, b: u64) -> (r: bool)
    ensures
        r == f_lt(a, b),
{
    if a & F_EXP_MASK == F_EXP_MASK && a & F_FRAC_MASK != 0 {
        false
    } else if b & F_EXP_MASK == F_EXP_MASK && b & F_FRAC_MASK != 0 {
        false
    } else if a & (F_EXP_MASK | F_FRAC_MASK) == 0 && b & (F_EXP_MASK | F_FRAC_MASK) == 0 {
        false
    } else if a & F_SIGN_MASK != b & F_SIGN_MASK {
        a & F_SIGN_MASK != 0
    } else if a & F_SIGN_MASK == 0 {
        a < b
    } else {
        b < a
    }
}

/// The IEEE-754 `==` relation, computed on the bit patterns.
pub fn float_eq(a: u64, b: u64) -> (r: bool)
    ensures
        r == f_eq(a, b),
{
    if a & F_EXP_MASK == F_EXP_MASK && a & F_FRAC_MASK != 0 {
        false
    } else if b & F_EXP_MASK == F_EXP_MASK && b & F_FRAC_MASK != 0 {
        false
    } else {
        a == b || (a & (F_EXP_MASK | F_FRAC_MASK) == 0 && b & (F_EXP_MASK | F_FRAC_MASK) == 0)
    }
}

/// IEEE-754 negation, computed on the bit pattern.
pub fn float_neg(a: u64) -> (r: u64)
    ensures
        r == f_neg(a),
{
    a ^ F_SIGN_MASK
}

/// Bits of the IEEE-754 double sum of the doubles encoded by `a` and `b`.
pub uninterp spec fn add_bits(a: u64, b: u64) -> u64;

/// Relies on rustc_apfloat's `Double` addition: the correctly rounded
/// IEEE-754 double sum, a function of the two bit patterns alone.
#[verifier::external_body]
pub(crate) fn float_add(a: u64, b: u64) -> (r: u64)
    ensures
        r == add_bits(a, b),
{
    let x = rustc_apfloat::ieee::Double::from_bits(a as u128);
    let y = rustc_apfloat::ieee::Double::from_bits(b as u128);
    (x + y).value.to_bits() as u64
}

/// Bits of the IEEE-754 double difference of the doubles encoded by `a` and `b`.
pub uninterp spec fn sub_bits(a: u64, b: u64) -> u64;

/// Relies on rustc_apfloat's `Double` subtraction: the correctly rounded
/// IEEE-754 double difference, a function of the two bit patterns alone.
#[verifier::external_body]
pub(crate) fn float_sub(a: u64, b: u64) -> (r: u64)
    ensures
        r == sub_bits(a, b),
{
    let x = rustc_apfloat::ieee::Double::from_bits(a as u128);
    let y = rustc_apfloat::ieee::Double::from_bits(b as u128);
    (x - y).value.to_bits() as u64
}

/// Bits of the IEEE-754 double product of the doubles encoded by `a` and `b`.
pub uninterp spec fn mul_bits(a: u64, b: u64) -> u64;

/// Relies on rustc_apfloat's `Double` multiplication: the correctly rounded
/// IEEE-754 double product, a function of the two bit patterns alone.
#[verifier::external_body]
pub(crate) fn float_mul(a: u64, b: u64) -> (r: u64)
    ensures
        r == mul_bits(a, b),
{
    let x = rustc_apfloat::ieee::Double::from_bits(a as u128);
    let y = rustc_apfloat::ieee::Double::from_bits(b as u128);
    (x * y).value.to_bits() as u64
}

/// Bits of the IEEE-754 double quotient of the doubles encoded by `a` and `b`.
pub uninterp spec fn div_bits(a: u64, b: u64) -> u64;

/// Relies on rustc_apfloat's `Double` division: the correctly rounded
/// IEEE-754 double quotient, a function of the two bit patterns alone.
#[verifier::external_body]
pub(crate) fn float_div(a: u64, b: u64) -> (r: u64)
    ensures
        r == div_bits(a, b),
{
    let x = rustc_apfloat::ieee::Double::from_bits(a as u128);
    let y = rustc_apfloat::ieee::Double::from_bits(b as u128);
    (x / y).value.to_bits() as u64
}

/// Bits of the remainder (C `fmod`) of the doubles encoded by `a` and `b`.
pub uninterp spec fn rem_bits(a: u64, b: u64) -> u64;

/// Relies on rustc_apfloat's `Double` remainder, which is C's `fmod`:
/// a function of the two bit patterns alone.
#[verifier::external_body]
pub(crate) fn float_rem(a: u64, b: u64) -> (r: u64)
    ensures
        r == rem_bits(a, b),
{
    let x = rustc_apfloat::ieee::Double::from_bits(a as u128);
    let y = rustc_apfloat::ieee::Double::from_bits(b as u128);
    (x % y).value.to_bits() as u64
}

/// Bits of the double `a` raised to the double power `b`.
pub uninterp spec fn pow_bits(a: u64, b: u64) -> u64;

/// Relies on libm::pow, a pure function of the two doubles, and on
/// bytemuck::cast to move between a bit pattern and the double it encodes.
#[verifier::external_body]
pub(crate) fn float_pow(a: u64, b: u64) -> (r: u64)
    ensures
        r == pow_bits(a, b),
{
    bytemuck::cast(libm::pow(bytemuck::cast(a), bytemuck::cast(b)))
}

/// Bits of the sine of the double encoded by `a` (radians).
pub uninterp spec fn sin_bits(a: u64) -> u64;

/// Relies on libm::sin, a pure function of the double, and on
/// bytemuck::cast to move between a bit pattern and the double it encodes.
#[verifier::external_body]
pub(crate) fn float_sin(a: u64) -> (r: u64)
    ensures
        r == sin_bits(a),
{
    bytemuck::cast(libm::sin(bytemuck::cast(a)))
}

/// Bits of the cosine of the double encoded by `a` (radians).
pub uninterp spec fn cos_bits(a: u64) -> u64;

/// Relies on libm::cos, a pure function of the double, and on
/// bytemuck::cast to move between a bit pattern and the double it encodes.
#[verifier::external_body]
pub(crate) fn float_cos(a: u64) -> (r: u64)
    ensures
        r == cos_bits(a),
{
    bytemuck::cast(libm::cos(bytemuck::cast(a)))
}

/// Bits of the tangent of the double encoded by `a` (radians).
pub uninterp spec fn tan_bits(a: u64) -> u64;

/// Relies on libm::tan, a pure function of the double, and on
/// bytemuck::cast to move between a bit pattern and the double it encodes.
#[verifier::external_body]
pub(crate) fn float_tan(a: u64) -> (r: u64)
    ensures
        r == tan_bits(a),
{
    bytemuck::cast(libm::tan(bytemuck::cast(a)))
}

/// Bits of the natural logarithm of the double encoded by `a`.
pub uninterp spec fn ln_bits(a: u64) -> u64;

/// Relies on libm::log (the natural logarithm), a pure function of the
/// double, and on bytemuck::cast to move between a bit pattern and the
/// double it encodes.
#[verifier::external_body]
pub(crate) fn float_ln(a: u64) -> (r: u64)
    ensures
        r == ln_bits(a),
{
    bytemuck::cast(libm::log(bytemuck::cast(a)))
}

/// Bits of the ceiling of the double encoded by `a`.
pub uninterp spec fn ceil_bits(a: u64) -> u64;

/// Relies on rustc_apfloat's `round_to_integral` toward positive infinity:
/// the IEEE-754 ceiling, a function of the bit pattern alone.
#[verifier::external_body]
pub(crate) fn float_ceil(a: u64) -> (r: u64)
    ensures
        r == ceil_bits(a),
{
    let x = rustc_apfloat::ieee::Double::from_bits(a as u128);
    x.round_to_integral(rustc_apfloat::Round::TowardPositive).value.to_bits() as u64
}

/// Bits of the floor of the double encoded by `a`.
pub uninterp spec fn floor_bits(a: u64) -> u64;

/// Relies on rustc_apfloat's `round_to_integral` toward negative infinity:
/// the IEEE-754 floor, a function of the bit pattern alone.
#[verifier::external_body]
pub(crate) fn float_floor(a: u64) -> (r: u64)
    ensures
        r == floor_bits(a),
{
    let x = rustc_apfloat::ieee::Double::from_bits(a as u128);
    x.round_to_integral(rustc_apfloat::Round::TowardNegative).value.to_bits() as u64
}

/// Bits of the double nearest to the signed integer `i`.
pub uninterp spec fn int_to_bits(i: i64) -> u64;

/// Relies on rustc_apfloat's `from_i128`: the correctly rounded conversion
/// of a signed integer to a double, a function of the integer alone.
#[verifier::external_body]
pub(crate) fn float_of_int(i: i64) -> (r: u64)
    ensures
        r == int_to_bits(i),
{
    rustc_apfloat::ieee::Double::from_i128(i as i128).value.to_bits() as u64
}

/// The signed integer the double encoded by `a` truncates to, saturating at
/// the 64-bit bounds, with NaN taken to 0.
pub uninterp spec fn trunc_bits(a: u64) -> i64;

/// Relies on rustc_apfloat's `to_i128` with a 64-bit width, which rounds
/// toward zero and, out of range, returns the nearest representable bound
/// (0 for NaN) -- the saturating cast of a double to a signed integer,
/// a function of the bit pattern alone.
#[verifier::external_body]
pub(crate) fn float_to_int(a: u64) -> (r: i64)
    ensures
        r == trunc_bits(a),
{
    let x = rustc_apfloat::ieee::Double::from_bits(a as u128);
    x.to_i128(64).value as i64
}

/// Whether the double encoded by `a` is finite with zero fractional part.
pub uninterp spec fn is_whole_bits(a: u64) -> bool;

/// Relies on rustc_apfloat's `is_integer`: whether the double is a finite
/// exact integer, a function of the bit pattern alone.
#[verifier::external_body]
pub(crate) fn float_is_whole(a: u64) -> (r: bool)
    ensures
        r == is_whole_bits(a),
{
    rustc_apfloat::ieee::Double::from_bits(a as u128).is_integer()
}

/// Bits of the double a piece of literal text denotes, or `None` where the
/// text is not a valid decimal floating-point literal.
pub uninterp spec fn float_of_text(s: Seq<char>) -> Option<u64>;

/// Relies on rustc_apfloat's `from_str` for `Double`: the correctly rounded
/// decimal-to-double conversion, a function of the text alone.
#[verifier::external_body]
pub(crate) fn parse_float_text(s: &str) -> (r: Option<u64>)
    ensures
        r == float_of_text(s@),
{
    match rustc_apfloat::ieee::Double::from_str(s) {
        Ok(d) => Some(d.to_bits() as u64),
        Err(_) => None,
    }
}

/// The decimal text std's Debug formatting gives the double encoded by `a`.
pub uninterp spec fn text_of_bits(a: u64) -> Seq<char>;

/// Relies on std's Debug formatting of a double, a pure function of the
/// value, on bytemuck::cast to move between the bit pattern and the double
/// it encodes, and on libm::copysign, which applied to a value and itself
/// returns the value unchanged (it only settles the cast's type).
#[verifier::external_body]
pub(crate) fn render_float(a: u64) -> (r: String)
    ensures
        r@ == text_of_bits(a),
{
    let x = libm::copysign(bytemuck::cast(a), bytemuck::cast(a));
    format!("{:?}", x)
}

} // verus!
