//! IEEE-754 double-precision arithmetic on raw bit patterns.
//!
//! Float values travel through the engine as their 64-bit encodings; the
//! arithmetic itself is done by `rustc_apfloat`, a bit-exact software
//! implementation of the IEEE-754 operations, behind the trusted wrappers
//! below. Each operation is deterministic in its operand bits, so its
//! result is given a name that contracts elsewhere can speak of.
use vstd::prelude::*;
use rustc_apfloat::Float;

verus! {

/// The bit pattern of the IEEE-754 sum of the doubles encoded by `a` and `b`,
/// rounded to nearest, ties to even.
pub uninterp spec fn fadd_bits(a: u64, b: u64) -> u64;

/// The bit pattern of the IEEE-754 difference of the doubles encoded by `a` and `b`.
pub uninterp spec fn fsub_bits(a: u64, b: u64) -> u64;

/// The bit pattern of the IEEE-754 product of the doubles encoded by `a` and `b`.
pub uninterp spec fn fmul_bits(a: u64, b: u64) -> u64;

/// The bit pattern of the IEEE-754 quotient of the doubles encoded by `a` and `b`.
pub uninterp spec fn fdiv_bits(a: u64, b: u64) -> u64;

/// The bit pattern of the C `fmod` remainder of the doubles encoded by `a` and `b`.
pub uninterp spec fn frem_bits(a: u64, b: u64) -> u64;

/// Whether the doubles encoded by `a` and `b` compare equal under IEEE-754
/// equality (both zeroes equal; NaN equal to nothing).
pub uninterp spec fn feq_bits(a: u64, b: u64) -> bool;

/// The bit pattern of the double nearest to the signed integer `i`, ties to even.
pub uninterp spec fn int_to_float_bits(i: i64) -> u64;

/// The double encoded by `bits`, truncated toward zero and clamped to the
/// signed 64-bit range, with NaN taken to zero.
pub uninterp spec fn float_trunc_to_int(bits: u64) -> i64;

/// The decimal rendering of the double encoded by `bits`.
pub uninterp spec fn float_display(bits: u64) -> Seq<char>;

/// Whether `bits` encodes an IEEE-754 zero (of either sign).
pub open spec fn float_is_zero(bits: u64) -> bool {
    bits == 0u64 || bits == 0x8000_0000_0000_0000u64
}

/// Whether `bits` encodes a zero (of either sign).
pub fn float_bits_is_zero(bits: u64) -> (r: bool)
    ensures
        r == float_is_zero(bits),
{
    bits == 0u64 || bits == 0x8000_0000_0000_0000u64
}

/// Relies on `rustc_apfloat::ieee::Double`: `add_r` with round-to-nearest
/// (the `+` operator) is the IEEE-754 sum of the operand bit patterns.
#[verifier::external_body]
pub fn float_add(a: u64, b: u64) -> (r: u64)
    ensures
        r == fadd_bits(a, b),
{
    let x = rustc_apfloat::ieee::Double::from_bits(a as u128);
    let y = rustc_apfloat::ieee::Double::from_bits(b as u128);
    (x + y).value.to_bits() as u64
}

/// Relies on `rustc_apfloat::ieee::Double`: the `-` operator is the
/// IEEE-754 difference of the operand bit patterns.
#[verifier::external_body]
pub fn float_sub(a: u64, b: u64) -> (r: u64)
    ensures
        r == fsub_bits(a, b),
{
    let x = rustc_apfloat::ieee::Double::from_bits(a as u128);
    let y = rustc_apfloat::ieee::Double::from_bits(b as u128);
    (x - y).value.to_bits() as u64
}

/// Relies on `rustc_apfloat::ieee::Double`: the `*` operator is the
/// IEEE-754 product of the operand bit patterns.
#[verifier::external_body]
pub fn float_mul(a: u64, b: u64) -> (r: u64)
    ensures
        r == fmul_bits(a, b),
{
    let x = rustc_apfloat::ieee::Double::from_bits(a as u128);
    let y = rustc_apfloat::ieee::Double::from_bits(b as u128);
    (x * y).value.to_bits() as u64
}

/// Relies on `rustc_apfloat::ieee::Double`: the `/` operator is the
/// IEEE-754 quotient of the operand bit patterns.
#[verifier::external_body]
pub fn float_div(a: u64, b: u64) -> (r: u64)
    ensures
        r == fdiv_bits(a, b),
{
    let x = rustc_apfloat::ieee::Double::from_bits(a as u128);
    let y = rustc_apfloat::ieee::Double::from_bits(b as u128);
    (x / y).value.to_bits() as u64
}

/// Relies on `rustc_apfloat::ieee::Double::c_fmod`: the C `fmod` remainder
/// of the operand bit patterns, as the `%` operator computes it on doubles.
#[verifier::external_body]
pub fn float_rem(a: u64, b: u64) -> (r: u64)
    ensures
        r == frem_bits(a, b),
{
    let x = rustc_apfloat::ieee::Double::from_bits(a as u128);
    let y = rustc_apfloat::ieee::Double::from_bits(b as u128);
    x.c_fmod(y).value.to_bits() as u64
}

/// Relies on `rustc_apfloat::ieee::Double`: `PartialEq` implements IEEE-754
/// equality (zeroes of both signs equal, NaN unequal to everything).
#[verifier::external_body]
pub fn float_eq(a: u64, b: u64) -> (r: bool)
    ensures
        r == feq_bits(a, b),
{
    let x = rustc_apfloat::ieee::Double::from_bits(a as u128);
    let y = rustc_apfloat::ieee::Double::from_bits(b as u128);
    x == y
}

/// Relies on `rustc_apfloat::Float::from_i128`: conversion of a signed
/// integer to the nearest double, ties to even.
#[verifier::external_body]
pub fn int_to_float(i: i64) -> (r: u64)
    ensures
        r == int_to_float_bits(i),
{
    rustc_apfloat::ieee::Double::from_i128(i as i128).value.to_bits() as u64
}

/// Relies on `rustc_apfloat::Float::to_i128`: conversion toward zero with
/// saturation at the 64-bit range and NaN taken to zero.
#[verifier::external_body]
pub fn float_to_int(bits: u64) -> (r: i64)
    ensures
        r == float_trunc_to_int(bits),
{
    let x = rustc_apfloat::ieee::Double::from_bits(bits as u128);
    x.to_i128(64).value as i64
}

/// The bit pattern a decimal literal parses to, correctly rounded.
pub uninterp spec fn float_of_decimal(s: Seq<char>) -> Option<u64>;

/// Relies on `rustc_apfloat::ieee::Double::from_str`: parsing a decimal
/// literal is deterministic in its characters and correctly rounded.
#[verifier::external_body]
pub fn float_from_decimal(s: &str) -> (r: Option<u64>)
    ensures
        r == float_of_decimal(s@),
{
    match s.parse::<rustc_apfloat::ieee::Double>() {
        Ok(d) => Some(d.to_bits() as u64),
        Err(_) => None,
    }
}

/// Relies on `rustc_apfloat::ieee::Double`: `Display` renders the encoded
/// double in decimal, a pure function of the bit pattern.
#[verifier::external_body]
pub fn float_to_string(bits: u64) -> (r: String)
    ensures
        r@ == float_display(bits),
{
    format!("{}", rustc_apfloat::ieee::Double::from_bits(bits as u128))
}

} // verus!
