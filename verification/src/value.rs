//! The calculator's tagged numeric value: a signed 64-bit integer or a
//! double-precision value held as its IEEE-754 bit pattern.

use crate::fbits::{
    add_bits, div_bits, f_neg, float_add, float_div, float_is_whole, float_mul, float_neg,
    float_of_int, float_pow, float_rem, float_sub, float_to_int, int_to_bits, is_whole_bits,
    mul_bits, pow_bits, rem_bits, sub_bits, trunc_bits,
};
use vstd::prelude::*;

verus! {

/// A numeric value: an integer, or a double given by its bit pattern.
/// Integer arithmetic wraps around at the 64-bit bounds.
#[derive(Debug, Clone, Copy, PartialEq, Eq, Structural)]
pub enum Value {
    Int(i64),
    Float(u64),
}

/// The double (as bits) a value coerces to: integers convert by rounding to
/// the nearest double.
pub open spec fn spec_as_float(v: Value) -> u64 {
    match v {
        Value::Int(i) => int_to_bits(i),
        Value::Float(b) => b,
    }
}

/// The integer a value coerces to: doubles truncate toward zero,
/// saturating at the 64-bit bounds (NaN gives 0).
pub open spec fn spec_as_int(v: Value) -> i64 {
    match v {
        Value::Int(i) => i,
        Value::Float(b) => trunc_bits(b),
    }
}

/// Sum: integer (wrapping) when both operands are integers, else the
/// double sum of the coercions.
pub open spec fn spec_add(a: Value, b: Value) -> Value {
    match (a, b) {
        (Value::Int(x), Value::Int(y)) => Value::Int(vstd::wrapping::i64_specs::wrapping_add(x, y)),
        _ => Value::Float(add_bits(spec_as_float(a), spec_as_float(b))),
    }
}

/// Difference: integer (wrapping) when both operands are integers, else
/// the double difference of the coercions.
pub open spec fn spec_sub(a: Value, b: Value) -> Value {
    match (a, b) {
        (Value::Int(x), Value::Int(y)) => Value::Int(vstd::wrapping::i64_specs::wrapping_sub(x, y)),
        _ => Value::Float(sub_bits(spec_as_float(a), spec_as_float(b))),
    }
}

/// Product: integer (wrapping) when both operands are integers, else the
/// double product of the coercions.
pub open spec fn spec_mul(a: Value, b: Value) -> Value {
    match (a, b) {
        (Value::Int(x), Value::Int(y)) => Value::Int(vstd::wrapping::i64_specs::wrapping_mul(x, y)),
        _ => Value::Float(mul_bits(spec_as_float(a), spec_as_float(b))),
    }
}

/// Quotient: always the double quotient of the coercions, whatever the tags.
pub open spec fn spec_div(a: Value, b: Value) -> Value {
    Value::Float(div_bits(spec_as_float(a), spec_as_float(b)))
}

/// Remainder: integer Euclidean-style truncating remainder when both
/// operands are integers (0 when the divisor is 0, matching the wrapping
/// convention of the other integer operations at the one undefined point),
/// else the double remainder (C fmod) of the coercions.
pub open spec fn spec_rem(a: Value, b: Value) -> Value {
    match (a, b) {
        (Value::Int(x), Value::Int(y)) => Value::Int(wrap_rem_i64(x, y)),
        _ => Value::Float(rem_bits(spec_as_float(a), spec_as_float(b))),
    }
}

/// The remainder that truncating division leaves: it has the sign of the
/// dividend, as `%` on the machine's signed integers does.
pub open spec fn trunc_rem(x: int, d: int) -> int {
    if x == 0 {
        0
    } else if x > 0 && d > 0 {
        x % d
    } else if x < 0 && d < 0 {
        ((x * -1) % (d * -1)) * -1
    } else if x < 0 {
        ((x * -1) % d) * -1
    } else {
        x % (d * -1)
    }
}

/// The quotient that truncating division gives, as the machine's `/` on
/// signed integers does, stated for a positive divisor and any dividend
/// (the only way the calculator divides integers).
pub open spec fn spec_t_div(x: i64, d: i64) -> i64 {
    if d == 0 {
        0
    } else {
        let xi = x as int;
        let di = d as int;
        let output = if xi == 0 {
            0int
        } else if xi > 0 && di > 0 {
            xi / di
        } else if xi < 0 && di < 0 {
            ((xi * -1) / (di * -1))
        } else if xi < 0 {
            ((xi * -1) / di) * -1
        } else {
            (xi / (di * -1)) * -1
        };
        if output < i64::MIN || output > i64::MAX {
            0
        } else {
            output as i64
        }
    }
}

/// The machine's `%` on signed 64-bit integers, extended to the two inputs
/// on which it has no value: 0 when the divisor is 0, and 0 at the one
/// overflowing pair (the minimum value and -1).
pub open spec fn wrap_rem_i64(x: i64, y: i64) -> i64 {
    if y == 0 || (x == i64::MIN && y == -1) {
        0
    } else {
        trunc_rem(x as int, y as int) as i64
    }
}

/// Power: always the double power of the coercions, whatever the tags.
pub open spec fn spec_pow(a: Value, b: Value) -> Value {
    Value::Float(pow_bits(spec_as_float(a), spec_as_float(b)))
}

/// Negation preserves the tag: integers negate (wrapping), doubles flip
/// their sign bit.
pub open spec fn spec_neg(a: Value) -> Value {
    match a {
        Value::Int(x) => Value::Int(vstd::wrapping::i64_specs::wrapping_sub(0, x)),
        Value::Float(b) => Value::Float(f_neg(b)),
    }
}

/// Auto-normalization of a double result: a finite double with zero
/// fractional part comes back as the integer it truncates to (saturating),
/// any other double keeps its tag.
pub open spec fn spec_auto(bits: u64) -> Value {
    if is_whole_bits(bits) {
        Value::Int(trunc_bits(bits))
    } else {
        Value::Float(bits)
    }
}

impl Value {
    /// The integer this value coerces to (doubles truncate toward zero,
    /// saturating; NaN gives 0).
    pub fn as_int(&self) -> (r: i64)
        ensures
            r == spec_as_int(*self),
    {
        match *self {
            Value::Int(i) => i,
            Value::Float(b) => float_to_int(b),
        }
    }

    /// The double (as bits) this value coerces to.
    pub fn as_float(&self) -> (r: u64)
        ensures
            r == spec_as_float(*self),
    {
        match *self {
            Value::Int(i) => float_of_int(i),
            Value::Float(b) => b,
        }
    }

    /// Sum, with integer operands staying integer.
    pub fn add(self, rhs: Value) -> (r: Value)
        ensures
            r == spec_add(self, rhs),
    {
        match (self, rhs) {
            (Value::Int(a), Value::Int(b)) => Value::Int(a.wrapping_add(b)),
            (a, b) => Value::Float(float_add(a.as_float(), b.as_float())),
        }
    }

    /// Difference, with integer operands staying integer.
    pub fn sub(self, rhs: Value) -> (r: Value)
        ensures
            r == spec_sub(self, rhs),
    {
        match (self, rhs) {
            (Value::Int(a), Value::Int(b)) => Value::Int(a.wrapping_sub(b)),
            (a, b) => Value::Float(float_sub(a.as_float(), b.as_float())),
        }
    }

    /// Product, with integer operands staying integer.
    pub fn mul(self, rhs: Value) -> (r: Value)
        ensures
            r == spec_mul(self, rhs),
    {
        match (self, rhs) {
            (Value::Int(a), Value::Int(b)) => Value::Int(a.wrapping_mul(b)),
            (a, b) => Value::Float(float_mul(a.as_float(), b.as_float())),
        }
    }

    /// Quotient: always computed on doubles, even for two integers.
    pub fn div(self, rhs: Value) -> (r: Value)
        ensures
            r == spec_div(self, rhs),
    {
        Value::Float(float_div(self.as_float(), rhs.as_float()))
    }

    /// Remainder, with integer operands staying integer.
    pub fn rem(self, rhs: Value) -> (r: Value)
        ensures
            r == spec_rem(self, rhs),
    {
        match (self, rhs) {
            (Value::Int(a), Value::Int(b)) => {
                match a.checked_rem(b) {
                    Some(r) => Value::Int(r),
                    None => Value::Int(0),
                }
            },
            (a, b) => Value::Float(float_rem(a.as_float(), b.as_float())),
        }
    }

    /// Power: always computed on doubles.
    pub fn pow(self, rhs: Value) -> (r: Value)
        ensures
            r == spec_pow(self, rhs),
    {
        Value::Float(float_pow(self.as_float(), rhs.as_float()))
    }

    /// Negation, preserving the tag.
    pub fn neg(self) -> (r: Value)
        ensures
            r == spec_neg(self),
    {
        match self {
            Value::Int(i) => Value::Int(0i64.wrapping_sub(i)),
            Value::Float(b) => Value::Float(float_neg(b)),
        }
    }

    /// Auto-normalization: a whole double becomes the integer it
    /// truncates to, any other double stays a double.
    pub fn auto(bits: u64) -> (r: Value)
        ensures
            r == spec_auto(bits),
    {
        if float_is_whole(bits) {
            Value::Int(float_to_int(bits))
        } else {
            Value::Float(bits)
        }
    }

    /// The integer zero.
    pub fn zero() -> (r: Value)
        ensures
            r == Value::Int(0i64),
    {
        Value::Int(0)
    }
}

} // verus!
