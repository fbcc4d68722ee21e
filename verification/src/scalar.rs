//! Trusted primitives for IEEE-754 double-precision arithmetic.
//!
//! The whole crate carries scalars as raw 64-bit patterns (`u64`), so that
//! every structural decision made over them can be verified.  What a single
//! arithmetic step returns is beyond a short specification, so each primitive
//! gets an uninterpreted name, and every contract in the crate is stated as a
//! composition of those names.

use vstd::prelude::*;
use rustc_apfloat::Float;

verus! {

/// Bit pattern of positive zero.
pub const ZERO_BITS: u64 = 0;
/// Bit pattern of 1.0.
pub const ONE_BITS: u64 = 0x3FF0_0000_0000_0000;
/// Bit pattern of -1.0.
pub const NEG_ONE_BITS: u64 = 0xBFF0_0000_0000_0000;
/// Bit pattern of negative infinity.
pub const NEG_INF_BITS: u64 = 0xFFF0_0000_0000_0000;

pub uninterp spec fn add_bits(a: u64, b: u64) -> u64;

/// Relies on rustc_apfloat's IEEE double addition, round to nearest even,
/// computed on the raw bit patterns.
#[verifier::external_body]
pub(crate) fn f_add(a: u64, b: u64) -> (r: u64)
    ensures
        r == add_bits(a, b),
{
    let x = rustc_apfloat::ieee::Double::from_bits(a as u128);
    let y = rustc_apfloat::ieee::Double::from_bits(b as u128);
    (x + y).value.to_bits() as u64
}

pub uninterp spec fn sub_bits(a: u64, b: u64) -> u64;

/// Relies on rustc_apfloat's IEEE double subtraction, round to nearest even.
#[verifier::external_body]
pub(crate) fn f_sub(a: u64, b: u64) -> (r: u64)
    ensures
        r == sub_bits(a, b),
{
    let x = rustc_apfloat::ieee::Double::from_bits(a as u128);
    let y = rustc_apfloat::ieee::Double::from_bits(b as u128);
    (x - y).value.to_bits() as u64
}

pub uninterp spec fn mul_bits(a: u64, b: u64) -> u64;

/// Relies on rustc_apfloat's IEEE double multiplication, round to nearest even.
#[verifier::external_body]
pub(crate) fn f_mul(a: u64, b: u64) -> (r: u64)
    ensures
        r == mul_bits(a, b),
{
    let x = rustc_apfloat::ieee::Double::from_bits(a as u128);
    let y = rustc_apfloat::ieee::Double::from_bits(b as u128);
    (x * y).value.to_bits() as u64
}

pub uninterp spec fn div_bits(a: u64, b: u64) -> u64;

/// Relies on rustc_apfloat's IEEE double division, round to nearest even.
#[verifier::external_body]
pub(crate) fn f_div(a: u64, b: u64) -> (r: u64)
    ensures
        r == div_bits(a, b),
{
    let x = rustc_apfloat::ieee::Double::from_bits(a as u128);
    let y = rustc_apfloat::ieee::Double::from_bits(b as u128);
    (x / y).value.to_bits() as u64
}

pub uninterp spec fn sqrt_bits(a: u64) -> u64;

/// Relies on libm::sqrt; bytemuck::cast converts the bit pattern.
#[verifier::external_body]
pub(crate) fn f_sqrt(a: u64) -> (r: u64)
    ensures
        r == sqrt_bits(a),
{
    bytemuck::cast(libm::sqrt(bytemuck::cast(a)))
}

pub uninterp spec fn exp_bits(a: u64) -> u64;

/// Relies on libm::exp; bytemuck::cast converts the bit pattern.
#[verifier::external_body]
pub(crate) fn f_exp(a: u64) -> (r: u64)
    ensures
        r == exp_bits(a),
{
    bytemuck::cast(libm::exp(bytemuck::cast(a)))
}

pub uninterp spec fn max_bits(a: u64, b: u64) -> u64;

/// Relies on libm::fmax, IEEE maxNum semantics; bytemuck::cast converts.
#[verifier::external_body]
pub(crate) fn f_max(a: u64, b: u64) -> (r: u64)
    ensures
        r == max_bits(a, b),
{
    bytemuck::cast(libm::fmax(bytemuck::cast(a), bytemuck::cast(b)))
}

pub uninterp spec fn gt_bits(a: u64, b: u64) -> bool;

/// Relies on rustc_apfloat's IEEE ordering: strictly greater, false when
/// either operand is a NaN.
#[verifier::external_body]
pub(crate) fn f_gt(a: u64, b: u64) -> (r: bool)
    ensures
        r == gt_bits(a, b),
{
    let x = rustc_apfloat::ieee::Double::from_bits(a as u128);
    let y = rustc_apfloat::ieee::Double::from_bits(b as u128);
    x > y
}

pub uninterp spec fn ge_bits(a: u64, b: u64) -> bool;

/// Relies on rustc_apfloat's IEEE ordering: greater or equal, false when
/// either operand is a NaN.
#[verifier::external_body]
pub(crate) fn f_ge(a: u64, b: u64) -> (r: bool)
    ensures
        r == ge_bits(a, b),
{
    let x = rustc_apfloat::ieee::Double::from_bits(a as u128);
    let y = rustc_apfloat::ieee::Double::from_bits(b as u128);
    x >= y
}

pub uninterp spec fn le_bits(a: u64, b: u64) -> bool;

/// Relies on rustc_apfloat's IEEE ordering: less or equal, false when
/// either operand is a NaN.
#[verifier::external_body]
pub(crate) fn f_le(a: u64, b: u64) -> (r: bool)
    ensures
        r == le_bits(a, b),
{
    let x = rustc_apfloat::ieee::Double::from_bits(a as u128);
    let y = rustc_apfloat::ieee::Double::from_bits(b as u128);
    x <= y
}

pub uninterp spec fn is_nan_bits(a: u64) -> bool;

/// Relies on rustc_apfloat: whether the pattern encodes a NaN.
#[verifier::external_body]
pub(crate) fn f_is_nan(a: u64) -> (r: bool)
    ensures
        r == is_nan_bits(a),
{
    rustc_apfloat::ieee::Double::from_bits(a as u128).is_nan()
}

pub uninterp spec fn is_zero_bits(a: u64) -> bool;

/// Relies on rustc_apfloat: whether the pattern encodes plus or minus zero.
#[verifier::external_body]
pub(crate) fn f_is_zero(a: u64) -> (r: bool)
    ensures
        r == is_zero_bits(a),
{
    rustc_apfloat::ieee::Double::from_bits(a as u128).is_zero()
}

pub uninterp spec fn from_u64_bits(a: u64) -> u64;

/// Relies on rustc_apfloat's unsigned-to-double conversion, round to
/// nearest even.
#[verifier::external_body]
pub(crate) fn f_from_u64(a: u64) -> (r: u64)
    ensures
        r == from_u64_bits(a),
{
    rustc_apfloat::ieee::Double::from_u128(a as u128).value.to_bits() as u64
}

} // verus!
