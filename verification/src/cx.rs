//! Complex amplitudes over bit-pattern scalars, and sums over vectors of
//! them.

use vstd::prelude::*;
use crate::F64_ZERO;
use crate::fp::{fadd, fmul, fsub, fp_add, fp_mul, fp_sub};

verus! {

/// A complex amplitude: the bit patterns of the real and imaginary parts,
/// each an IEEE double.
#[derive(Clone, Copy, PartialEq, Eq, Structural, Debug)]
pub struct Cx {
    pub re: u64,
    pub im: u64,
}

/// The complex zero.
pub open spec fn c_zero() -> Cx {
    Cx { re: F64_ZERO, im: F64_ZERO }
}

/// Componentwise complex addition.
pub open spec fn c_add(a: Cx, b: Cx) -> Cx {
    Cx { re: fadd(a.re, b.re), im: fadd(a.im, b.im) }
}

/// Complex multiplication: real part the difference of the cross products,
/// imaginary part their sum.
pub open spec fn c_mul(a: Cx, b: Cx) -> Cx {
    Cx {
        re: fsub(fmul(a.re, b.re), fmul(a.im, b.im)),
        im: fadd(fmul(a.re, b.im), fmul(a.im, b.re)),
    }
}

/// Scaling a complex amplitude by a real scalar, componentwise.
pub open spec fn c_scale(a: Cx, f: u64) -> Cx {
    Cx { re: fmul(a.re, f), im: fmul(a.im, f) }
}

/// The squared magnitude of one amplitude: real part squared plus
/// imaginary part squared.
pub open spec fn c_nsq(a: Cx) -> u64 {
    fadd(fmul(a.re, a.re), fmul(a.im, a.im))
}

/// The real part of `a` times the conjugate of `b`.
pub open spec fn c_dot_re(a: Cx, b: Cx) -> u64 {
    fadd(fmul(a.re, b.re), fmul(a.im, b.im))
}

pub fn cx_add(a: Cx, b: Cx) -> (r: Cx)
    ensures
        r == c_add(a, b),
{
    Cx { re: fp_add(a.re, b.re), im: fp_add(a.im, b.im) }
}

pub fn cx_mul(a: Cx, b: Cx) -> (r: Cx)
    ensures
        r == c_mul(a, b),
{
    Cx {
        re: fp_sub(fp_mul(a.re, b.re), fp_mul(a.im, b.im)),
        im: fp_add(fp_mul(a.re, b.im), fp_mul(a.im, b.re)),
    }
}

pub fn cx_scale(a: Cx, f: u64) -> (r: Cx)
    ensures
        r == c_scale(a, f),
{
    Cx { re: fp_mul(a.re, f), im: fp_mul(a.im, f) }
}

pub fn cx_nsq(a: Cx) -> (r: u64)
    ensures
        r == c_nsq(a),
{
    fp_add(fp_mul(a.re, a.re), fp_mul(a.im, a.im))
}

pub fn cx_dot_re(a: Cx, b: Cx) -> (r: u64)
    ensures
        r == c_dot_re(a, b),
{
    fp_add(fp_mul(a.re, b.re), fp_mul(a.im, b.im))
}

/// The squared norm of an amplitude vector: the squared magnitudes summed
/// left to right from zero.
pub open spec fn norm_sq_sum(s: Seq<Cx>) -> u64
    decreases s.len(),
{
    if s.len() == 0 {
        F64_ZERO
    } else {
        fadd(norm_sq_sum(s.drop_last()), c_nsq(s.last()))
    }
}

/// The real part of the inner product of `x` with the conjugate of `y`,
/// summed left to right from zero.
pub open spec fn dot_re_sum(x: Seq<Cx>, y: Seq<Cx>) -> u64
    decreases x.len(),
{
    if x.len() == 0 || y.len() == 0 {
        F64_ZERO
    } else {
        fadd(dot_re_sum(x.drop_last(), y.drop_last()), c_dot_re(x.last(), y.last()))
    }
}

/// The vector scaled by a real scalar, componentwise.
pub open spec fn scale_seq(s: Seq<Cx>, f: u64) -> Seq<Cx> {
    Seq::new(s.len(), |i: int| c_scale(s[i], f))
}

/// Computes the squared norm of an amplitude vector.
pub fn vec_norm_sq(v: &Vec<Cx>) -> (r: u64)
    ensures
        r == norm_sq_sum(v@),
{
    let mut acc: u64 = F64_ZERO;
    let mut i: usize = 0;
    while i < v.len()
        invariant
            i <= v.len(),
            acc == norm_sq_sum(v@.take(i as int)),
        decreases v.len() - i,
    {
        proof {
            assert(v@.take(i + 1).drop_last() =~= v@.take(i as int));
            assert(v@.take(i + 1).last() == v@[i as int]);
        }
        acc = fp_add(acc, cx_nsq(v[i]));
        i = i + 1;
    }
    proof {
        assert(v@.take(v.len() as int) =~= v@);
    }
    acc
}

/// Computes the real part of the inner product of `x` with the conjugate
/// of `y`.
pub fn vec_dot_re(x: &Vec<Cx>, y: &Vec<Cx>) -> (r: u64)
    requires
        x@.len() == y@.len(),
    ensures
        r == dot_re_sum(x@, y@),
{
    let mut acc: u64 = F64_ZERO;
    let mut i: usize = 0;
    while i < x.len()
        invariant
            i <= x.len(),
            x@.len() == y@.len(),
            acc == dot_re_sum(x@.take(i as int), y@.take(i as int)),
        decreases x.len() - i,
    {
        proof {
            assert(x@.take(i + 1).drop_last() =~= x@.take(i as int));
            assert(y@.take(i + 1).drop_last() =~= y@.take(i as int));
        }
        acc = fp_add(acc, cx_dot_re(x[i], y[i]));
        i = i + 1;
    }
    proof {
        assert(x@.take(x.len() as int) =~= x@);
        assert(y@.take(y.len() as int) =~= y@);
    }
    acc
}

/// Builds the vector scaled by a real scalar.
pub fn vec_scale(v: &Vec<Cx>, f: u64) -> (r: Vec<Cx>)
    ensures
        r@ == scale_seq(v@, f),
{
    let mut out: Vec<Cx> = Vec::new();
    let mut i: usize = 0;
    while i < v.len()
        invariant
            i <= v.len(),
            out@.len() == i,
            forall|t: int| 0 <= t < i ==> out@[t] == c_scale(v@[t], f),
        decreases v.len() - i,
    {
        out.push(cx_scale(v[i], f));
        i = i + 1;
    }
    proof {
        assert(out@ =~= scale_seq(v@, f));
    }
    out
}

/// Copies an amplitude vector.
pub fn vec_copy(v: &Vec<Cx>) -> (r: Vec<Cx>)
    ensures
        r@ == v@,
{
    let mut out: Vec<Cx> = Vec::new();
    let mut i: usize = 0;
    while i < v.len()
        invariant
            i <= v.len(),
            out@ == v@.take(i as int),
        decreases v.len() - i,
    {
        out.push(v[i]);
        proof {
            assert(out@ =~= v@.take(i + 1));
        }
        i = i + 1;
    }
    proof {
        assert(v@.take(v.len() as int) =~= v@);
    }
    out
}

/// Componentwise sum of two equal-length vectors.
pub open spec fn seq_cadd(x: Seq<Cx>, y: Seq<Cx>) -> Seq<Cx> {
    Seq::new(x.len(), |i: int| c_add(x[i], y[i]))
}

/// Builds the componentwise sum of two equal-length vectors.
pub fn vec_cadd(x: &Vec<Cx>, y: &Vec<Cx>) -> (r: Vec<Cx>)
    requires
        x@.len() == y@.len(),
    ensures
        r@ == seq_cadd(x@, y@),
{
    let mut out: Vec<Cx> = Vec::new();
    let mut i: usize = 0;
    while i < x.len()
        invariant
            i <= x.len(),
            x@.len() == y@.len(),
            out@.len() == i,
            forall|t: int| 0 <= t < i ==> out@[t] == c_add(x@[t], y@[t]),
        decreases x.len() - i,
    {
        out.push(cx_add(x[i], y[i]));
        i = i + 1;
    }
    proof {
        assert(out@ =~= seq_cadd(x@, y@));
    }
    out
}

} // verus!
