//! Trusted IEEE 754 single-precision operations over bit patterns.
//!
//! The evaluator stores a float as its 32-bit pattern; the arithmetic itself
//! is done by `rustc_apfloat`'s software implementation of IEEE 754 binary32,
//! which works on bit patterns and rounds to nearest, ties to even — the same
//! results the hardware `f32` operations give.

use vstd::prelude::*;

use rustc_apfloat::Float;

verus! {

/// What adding two IEEE 754 binary32 values gives, as bit patterns.
pub uninterp spec fn float_add(a: u32, b: u32) -> u32;

/// What subtracting two IEEE 754 binary32 values gives, as bit patterns.
pub uninterp spec fn float_sub(a: u32, b: u32) -> u32;

/// What multiplying two IEEE 754 binary32 values gives, as bit patterns.
pub uninterp spec fn float_mul(a: u32, b: u32) -> u32;

/// Whether the first IEEE 754 binary32 value is strictly greater than the
/// second; false when either is a NaN.
pub uninterp spec fn float_gt(a: u32, b: u32) -> bool;

/// The IEEE 754 binary32 value nearest to an `i32`, as a bit pattern.
pub uninterp spec fn float_of_int(i: i32) -> u32;

/// The IEEE 754 binary32 value that parsing the text gives, correctly
/// rounded; `None` when the parser rejects the text. A function of the text
/// alone.
pub uninterp spec fn float_of_text(s: Seq<char>) -> Option<u32>;

/// The decimal rendering of an IEEE 754 binary32 value.
pub uninterp spec fn float_text(a: u32) -> Seq<char>;

/// The bit pattern of floating-point zero.
pub const FLOAT_ZERO: u32 = 0;

/// The bit pattern of floating-point one.
pub const FLOAT_ONE: u32 = 0x3f80_0000;

/// Relies on `rustc_apfloat`'s `Single` addition: IEEE 754 binary32 addition,
/// rounding to nearest, ties to even; a function of the bit patterns alone.
#[verifier::external_body]
pub fn add_floats(a: u32, b: u32) -> (r: u32)
    ensures
        r == float_add(a, b),
{
    let x = rustc_apfloat::ieee::Single::from_bits(a as u128);
    let y = rustc_apfloat::ieee::Single::from_bits(b as u128);
    (x + y).value.to_bits() as u32
}

/// Relies on `rustc_apfloat`'s `Single` subtraction: IEEE 754 binary32
/// subtraction, rounding to nearest, ties to even.
#[verifier::external_body]
pub fn sub_floats(a: u32, b: u32) -> (r: u32)
    ensures
        r == float_sub(a, b),
{
    let x = rustc_apfloat::ieee::Single::from_bits(a as u128);
    let y = rustc_apfloat::ieee::Single::from_bits(b as u128);
    (x - y).value.to_bits() as u32
}

/// Relies on `rustc_apfloat`'s `Single` multiplication: IEEE 754 binary32
/// multiplication, rounding to nearest, ties to even.
#[verifier::external_body]
pub fn mul_floats(a: u32, b: u32) -> (r: u32)
    ensures
        r == float_mul(a, b),
{
    let x = rustc_apfloat::ieee::Single::from_bits(a as u128);
    let y = rustc_apfloat::ieee::Single::from_bits(b as u128);
    (x * y).value.to_bits() as u32
}

/// Relies on `rustc_apfloat`'s `Single` ordering: the IEEE comparison, in
/// which a NaN compares greater than nothing.
#[verifier::external_body]
pub fn gt_floats(a: u32, b: u32) -> (r: bool)
    ensures
        r == float_gt(a, b),
{
    let x = rustc_apfloat::ieee::Single::from_bits(a as u128);
    let y = rustc_apfloat::ieee::Single::from_bits(b as u128);
    match x.partial_cmp(&y) {
        Some(core::cmp::Ordering::Greater) => true,
        _ => false,
    }
}

/// Relies on `rustc_apfloat`'s `Single::from_i128`: conversion of an integer
/// to the nearest IEEE 754 binary32 value.
#[verifier::external_body]
pub fn int_to_float(i: i32) -> (r: u32)
    ensures
        r == float_of_int(i),
{
    rustc_apfloat::ieee::Single::from_i128(i as i128).value.to_bits() as u32
}

/// Relies on `rustc_apfloat`'s `Single` parsing: the correctly rounded IEEE
/// 754 binary32 value of a numeric literal, a function of the text alone.
#[verifier::external_body]
pub fn text_to_float(s: &String) -> (r: Option<u32>)
    ensures
        r == float_of_text(s@),
{
    match rustc_apfloat::ieee::Single::from_str_r(
        s.as_str(),
        rustc_apfloat::Round::NearestTiesToEven,
    ) {
        Ok(f) => Some(f.value.to_bits() as u32),
        Err(_) => None,
    }
}

/// Relies on `rustc_apfloat`'s `Single` display: a decimal rendering of the
/// value, a function of the bit pattern alone.
#[verifier::external_body]
pub fn float_to_text(a: u32) -> (r: String)
    ensures
        r@ == float_text(a),
{
    format!("{}", rustc_apfloat::ieee::Single::from_bits(a as u128))
}

} // verus!
