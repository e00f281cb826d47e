//! Trusted layer over IEEE binary64 arithmetic.
//!
//! A real scalar is carried as the bit pattern of an IEEE double in a `u64`.
//! Each arithmetic operation and comparison is performed by the software
//! IEEE-754 implementation of the `rustc_apfloat` crate, rounding to nearest
//! with ties to even, and its result is named by an uninterpreted spec
//! function of the operands' bit patterns: every such result is a function
//! of the operands alone, in every process and on every machine.

use vstd::prelude::*;
use rustc_apfloat::Float;
use crate::{F64_HALF, F64_THREE_HALVES, F64_TWO_POW_NEG53, F64_ZERO, RSQRT_SEED_MAGIC};

verus! {

/// The bit pattern of the IEEE double sum of the doubles with bit patterns
/// `a` and `b`.
pub uninterp spec fn fadd(a: u64, b: u64) -> u64;

/// The bit pattern of the IEEE double difference of `a` and `b`.
pub uninterp spec fn fsub(a: u64, b: u64) -> u64;

/// The bit pattern of the IEEE double product of `a` and `b`.
pub uninterp spec fn fmul(a: u64, b: u64) -> u64;

/// The bit pattern of the IEEE double quotient of `a` and `b`.
pub uninterp spec fn fdiv(a: u64, b: u64) -> u64;

/// Whether the double with bit pattern `a` compares strictly below `b`.
pub uninterp spec fn flt(a: u64, b: u64) -> bool;

/// Whether the double with bit pattern `a` compares at or below `b`.
pub uninterp spec fn fle(a: u64, b: u64) -> bool;

/// Whether the double with bit pattern `a` compares strictly above `b`.
pub uninterp spec fn fgt(a: u64, b: u64) -> bool;

/// Whether the double with bit pattern `a` compares at or above `b`.
pub uninterp spec fn fge(a: u64, b: u64) -> bool;

/// The bit pattern of the IEEE double nearest to the integer `x`.
pub uninterp spec fn f_of_int(x: u64) -> u64;

/// Relies on `rustc_apfloat::ieee::Double::add_r` (IEEE addition, round to
/// nearest, ties to even): the result depends on the operands alone.
#[verifier::external_body]
pub fn fp_add(a: u64, b: u64) -> (r: u64)
    ensures
        r == fadd(a, b),
{
    let x = rustc_apfloat::ieee::Double::from_bits(a as u128);
    let y = rustc_apfloat::ieee::Double::from_bits(b as u128);
    x.add_r(y, rustc_apfloat::Round::NearestTiesToEven).value.to_bits() as u64
}

/// Relies on `rustc_apfloat::ieee::Double::sub_r` (IEEE subtraction, round
/// to nearest, ties to even): the result depends on the operands alone.
#[verifier::external_body]
pub fn fp_sub(a: u64, b: u64) -> (r: u64)
    ensures
        r == fsub(a, b),
{
    let x = rustc_apfloat::ieee::Double::from_bits(a as u128);
    let y = rustc_apfloat::ieee::Double::from_bits(b as u128);
    x.sub_r(y, rustc_apfloat::Round::NearestTiesToEven).value.to_bits() as u64
}

/// Relies on `rustc_apfloat::ieee::Double::mul_r` (IEEE multiplication,
/// round to nearest, ties to even): the result depends on the operands alone.
#[verifier::external_body]
pub fn fp_mul(a: u64, b: u64) -> (r: u64)
    ensures
        r == fmul(a, b),
{
    let x = rustc_apfloat::ieee::Double::from_bits(a as u128);
    let y = rustc_apfloat::ieee::Double::from_bits(b as u128);
    x.mul_r(y, rustc_apfloat::Round::NearestTiesToEven).value.to_bits() as u64
}

/// Relies on `rustc_apfloat::ieee::Double::div_r` (IEEE division, round to
/// nearest, ties to even): the result depends on the operands alone.
#[verifier::external_body]
pub fn fp_div(a: u64, b: u64) -> (r: u64)
    ensures
        r == fdiv(a, b),
{
    let x = rustc_apfloat::ieee::Double::from_bits(a as u128);
    let y = rustc_apfloat::ieee::Double::from_bits(b as u128);
    x.div_r(y, rustc_apfloat::Round::NearestTiesToEven).value.to_bits() as u64
}

/// Relies on `PartialOrd::lt` for `rustc_apfloat::ieee::Double` (IEEE
/// ordered comparison): the result depends on the operands alone.
#[verifier::external_body]
pub fn fp_lt(a: u64, b: u64) -> (r: bool)
    ensures
        r == flt(a, b),
{
    rustc_apfloat::ieee::Double::from_bits(a as u128)
        < rustc_apfloat::ieee::Double::from_bits(b as u128)
}

/// Relies on `PartialOrd::le` for `rustc_apfloat::ieee::Double` (IEEE
/// ordered comparison): the result depends on the operands alone.
#[verifier::external_body]
pub fn fp_le(a: u64, b: u64) -> (r: bool)
    ensures
        r == fle(a, b),
{
    rustc_apfloat::ieee::Double::from_bits(a as u128)
        <= rustc_apfloat::ieee::Double::from_bits(b as u128)
}

/// Relies on `PartialOrd::gt` for `rustc_apfloat::ieee::Double` (IEEE
/// ordered comparison): the result depends on the operands alone.
#[verifier::external_body]
pub fn fp_gt(a: u64, b: u64) -> (r: bool)
    ensures
        r == fgt(a, b),
{
    rustc_apfloat::ieee::Double::from_bits(a as u128)
        > rustc_apfloat::ieee::Double::from_bits(b as u128)
}

/// Relies on `PartialOrd::ge` for `rustc_apfloat::ieee::Double` (IEEE
/// ordered comparison): the result depends on the operands alone.
#[verifier::external_body]
pub fn fp_ge(a: u64, b: u64) -> (r: bool)
    ensures
        r == fge(a, b),
{
    rustc_apfloat::ieee::Double::from_bits(a as u128)
        >= rustc_apfloat::ieee::Double::from_bits(b as u128)
}

/// Relies on `rustc_apfloat::ieee::Double::from_u128_r` (integer to IEEE
/// double, round to nearest, ties to even): the result depends on the
/// argument alone.
#[verifier::external_body]
pub fn fp_of_int(x: u64) -> (r: u64)
    ensures
        r == f_of_int(x),
{
    rustc_apfloat::ieee::Double::from_u128_r(
        x as u128,
        rustc_apfloat::Round::NearestTiesToEven,
    ).value.to_bits() as u64
}

/// Relies on `rand::random`: a machine word drawn from the thread-local
/// generator. Nothing is promised of the value.
#[verifier::external_body]
pub fn random_u64() -> u64 {
    rand::random::<u64>()
}

/// The bit pattern of the absolute value of the double with bit pattern
/// `x`: the sign bit cleared.
pub open spec fn fabs_bits(x: u64) -> u64 {
    x & 0x7FFF_FFFF_FFFF_FFFF
}

/// Clears the sign bit, which takes an IEEE double to its absolute value.
pub fn fp_abs(x: u64) -> (r: u64)
    ensures
        r == fabs_bits(x),
{
    x & 0x7FFF_FFFF_FFFF_FFFF
}

/// The larger of the double with bit pattern `x` and zero; zero when the
/// comparison fails (a quiet-not-a-number pattern).
pub open spec fn fmax_zero(x: u64) -> u64 {
    if fgt(x, F64_ZERO) {
        x
    } else {
        F64_ZERO
    }
}

/// Clamps a double (by bit pattern) from below by zero.
pub fn fp_max_zero(x: u64) -> (r: u64)
    ensures
        r == fmax_zero(x),
{
    if fp_gt(x, F64_ZERO) {
        x
    } else {
        F64_ZERO
    }
}

/// The bit-level first guess for the inverse square root of the double
/// with bit pattern `s`.
pub open spec fn rsqrt_seed(s: u64) -> u64 {
    if (s >> 1) <= RSQRT_SEED_MAGIC {
        (RSQRT_SEED_MAGIC - (s >> 1)) as u64
    } else {
        F64_ZERO
    }
}

/// One Newton refinement of a guess `x` for the inverse square root of `s`:
/// x times (three halves minus one half times s times x squared).
pub open spec fn rsqrt_step(x: u64, s: u64) -> u64 {
    fmul(x, fsub(F64_THREE_HALVES, fmul(F64_HALF, fmul(s, fmul(x, x)))))
}

/// The guess for the inverse square root of `s` after `n` Newton
/// refinements of the bit-level seed.
pub open spec fn rsqrt_iters(s: u64, n: nat) -> u64
    decreases n,
{
    if n == 0 {
        rsqrt_seed(s)
    } else {
        rsqrt_step(rsqrt_iters(s, (n - 1) as nat), s)
    }
}

/// The inverse square root of the double with bit pattern `s`, computed by
/// five Newton refinements of the bit-level seed; accurate to well within
/// the tolerance for every positive normal `s`.
pub open spec fn frsqrt(s: u64) -> u64 {
    rsqrt_iters(s, 5)
}

/// Computes the inverse square root of a double (by bit pattern) with five
/// Newton refinements of the bit-level seed.
pub fn fp_rsqrt(s: u64) -> (r: u64)
    ensures
        r == frsqrt(s),
{
    let h: u64 = s >> 1;
    let mut x: u64 = if h <= RSQRT_SEED_MAGIC {
        RSQRT_SEED_MAGIC - h
    } else {
        F64_ZERO
    };
    assert(x == rsqrt_iters(s, 0));
    x = fp_mul(x, fp_sub(F64_THREE_HALVES, fp_mul(F64_HALF, fp_mul(s, fp_mul(x, x)))));
    assert(x == rsqrt_iters(s, 1));
    x = fp_mul(x, fp_sub(F64_THREE_HALVES, fp_mul(F64_HALF, fp_mul(s, fp_mul(x, x)))));
    assert(x == rsqrt_iters(s, 2));
    x = fp_mul(x, fp_sub(F64_THREE_HALVES, fp_mul(F64_HALF, fp_mul(s, fp_mul(x, x)))));
    assert(x == rsqrt_iters(s, 3));
    x = fp_mul(x, fp_sub(F64_THREE_HALVES, fp_mul(F64_HALF, fp_mul(s, fp_mul(x, x)))));
    assert(x == rsqrt_iters(s, 4));
    x = fp_mul(x, fp_sub(F64_THREE_HALVES, fp_mul(F64_HALF, fp_mul(s, fp_mul(x, x)))));
    assert(x == rsqrt_iters(s, 5));
    x
}

/// The uniform sample in the unit interval derived from a random machine
/// word: the top fifty-three bits, as a double, scaled into the unit
/// interval.
pub open spec fn unit_of(x: u64) -> u64 {
    fmul(f_of_int(x >> 11), F64_TWO_POW_NEG53)
}

/// Derives a uniform sample in the unit interval from a random machine word.
pub fn fp_unit_of(x: u64) -> (r: u64)
    ensures
        r == unit_of(x),
{
    fp_mul(fp_of_int(x >> 11), F64_TWO_POW_NEG53)
}

} // verus!
