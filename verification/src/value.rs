//! The runtime value type.
//!
//! The only runtime datum today is a double-precision IEEE-754 number. A
//! number is carried by its raw 64-bit pattern, so that the bytecode
//! container and the virtual machine can be reasoned about over plain
//! integers; arithmetic on the patterns lives behind a small set of
//! trusted wrappers around `rustc_apfloat`, a software implementation of
//! IEEE-754 binary64 with round-to-nearest-even.

use vstd::prelude::*;

use rustc_apfloat::ieee::Double;
use rustc_apfloat::Float;

use crate::vm::RuntimeError;

verus! {

/// A runtime value: a tagged union, open to future variants.
///
/// `Number` holds the raw bit pattern of an IEEE-754 double-precision
/// number, as `f64::to_bits` would give it.
#[derive(Clone, Copy, Debug, PartialEq, Eq, Structural)]
pub enum Value {
    Number(u64),
}

/// The bit pattern of the IEEE-754 double sum of the doubles with bit
/// patterns `a` and `b`, rounded to nearest, ties to even.
pub uninterp spec fn sum_bits(a: u64, b: u64) -> u64;

/// The bit pattern of the IEEE-754 double difference `a - b`, over bit
/// patterns, rounded to nearest, ties to even.
pub uninterp spec fn diff_bits(a: u64, b: u64) -> u64;

/// The bit pattern of the IEEE-754 double product, over bit patterns,
/// rounded to nearest, ties to even.
pub uninterp spec fn prod_bits(a: u64, b: u64) -> u64;

/// The bit pattern of the IEEE-754 double quotient `a / b`, over bit
/// patterns, rounded to nearest, ties to even.
pub uninterp spec fn quot_bits(a: u64, b: u64) -> u64;

/// The bit pattern of the IEEE-754 double negation of the double with bit
/// pattern `a`.
pub uninterp spec fn neg_bits(a: u64) -> u64;

/// The decimal rendering of the double with bit pattern `bits`.
pub uninterp spec fn number_text(bits: u64) -> Seq<char>;

/// Relies on `rustc_apfloat::ieee::Double`: `ops::Add` performs IEEE-754
/// binary64 addition with round-to-nearest-even, a function of the two
/// operand bit patterns alone.
#[verifier::external_body]
pub(crate) fn add_bits(a: u64, b: u64) -> (r: u64)
    ensures
        r == sum_bits(a, b),
{
    (Double::from_bits(a as u128) + Double::from_bits(b as u128)).value.to_bits() as u64
}

/// Relies on `rustc_apfloat::ieee::Double`: `ops::Sub` performs IEEE-754
/// binary64 subtraction with round-to-nearest-even, a function of the two
/// operand bit patterns alone.
#[verifier::external_body]
pub(crate) fn sub_bits(a: u64, b: u64) -> (r: u64)
    ensures
        r == diff_bits(a, b),
{
    (Double::from_bits(a as u128) - Double::from_bits(b as u128)).value.to_bits() as u64
}

/// Relies on `rustc_apfloat::ieee::Double`: `ops::Mul` performs IEEE-754
/// binary64 multiplication with round-to-nearest-even, a function of the
/// two operand bit patterns alone.
#[verifier::external_body]
pub(crate) fn mul_bits(a: u64, b: u64) -> (r: u64)
    ensures
        r == prod_bits(a, b),
{
    (Double::from_bits(a as u128) * Double::from_bits(b as u128)).value.to_bits() as u64
}

/// Relies on `rustc_apfloat::ieee::Double`: `ops::Div` performs IEEE-754
/// binary64 division with round-to-nearest-even, a function of the two
/// operand bit patterns alone; division by zero gives an infinity or NaN
/// per IEEE-754, never a failure.
#[verifier::external_body]
pub(crate) fn div_bits(a: u64, b: u64) -> (r: u64)
    ensures
        r == quot_bits(a, b),
{
    (Double::from_bits(a as u128) / Double::from_bits(b as u128)).value.to_bits() as u64
}

/// Relies on `rustc_apfloat::ieee::Double`: `ops::Neg` flips the sign of
/// an IEEE-754 binary64 value, a function of the operand bit pattern
/// alone.
#[verifier::external_body]
pub(crate) fn negate_bits(a: u64) -> (r: u64)
    ensures
        r == neg_bits(a),
{
    (-Double::from_bits(a as u128)).to_bits() as u64
}

/// Relies on `rustc_apfloat::ieee::Double`: its `Display` renders the
/// value as a decimal string, a function of the bit pattern alone.
#[verifier::external_body]
pub(crate) fn render_bits(bits: u64) -> (r: String)
    ensures
        r@ == number_text(bits),
{
    format!("{}", Double::from_bits(bits as u128))
}

impl Value {
    /// The bit pattern of the number this value holds.
    pub open spec fn spec_bits(self) -> u64 {
        match self {
            Value::Number(bits) => bits,
        }
    }

    /// Wrap the bit pattern of an IEEE-754 double as a runtime value.
    pub fn from_bits(bits: u64) -> (v: Value)
        ensures
            v == Value::Number(bits),
    {
        Value::Number(bits)
    }

    /// The bit pattern of the number this value holds.
    pub fn bits(self) -> (bits: u64)
        ensures
            bits == self.spec_bits(),
    {
        match self {
            Value::Number(bits) => bits,
        }
    }

    /// Extract the number this value holds, as its bit pattern.
    ///
    /// The conversion is fallible by design: a future non-numeric variant
    /// turns into a `TypeError` rather than a panic. With `Number` the
    /// only variant today, it always succeeds.
    pub fn as_number(self) -> (r: Result<u64, RuntimeError>)
        ensures
            r == Ok::<u64, RuntimeError>(self.spec_bits()),
    {
        match self {
            Value::Number(bits) => Ok(bits),
        }
    }

    /// The display form of this value.
    pub fn text(&self) -> (r: String)
        ensures
            r@ == number_text(self.spec_bits()),
    {
        match self {
            Value::Number(bits) => render_bits(*bits),
        }
    }
}

} // verus!
