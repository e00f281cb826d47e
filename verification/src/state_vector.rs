//! The state vector: the amplitude vector of an n-qubit register together
//! with its accumulated trace change, and the effect-probability,
//! renormalization and Kraus-sampling primitives.

use vstd::prelude::*;
use vstd::arithmetic::power2::{lemma_pow2_pos, pow2};
use crate::cx::{
    c_zero, dot_re_sum, norm_sq_sum, scale_seq, vec_copy, vec_dot_re, vec_norm_sq, vec_scale, Cx,
};
use crate::fp::{
    fabs_bits, fadd, fdiv, fge, fgt, fle, flt, fp_abs, fp_add, fp_div, fp_ge, fp_gt, fp_le,
    fp_lt, fp_rsqrt, frsqrt,
};
use crate::kernel::{apply_kernel, kernel_err, kernel_ok, kernel_spec};
use crate::mat::{mat_wf, mats_view, MatView, SquareMatrix};
use crate::{pow2_exec, Error, F64_ONE, F64_ZERO, TOLERANCE_BITS};

verus! {

/// Mathematical view of a state vector: its dimension, its number of
/// qubits, the bit pattern of its accumulated trace change, and its
/// amplitudes.
pub ghost struct SvView {
    pub dim: nat,
    pub qubits: nat,
    pub trace: u64,
    pub amps: Seq<Cx>,
}

/// The dimension is two to the number of qubits and counts the amplitudes.
pub open spec fn sv_wf(v: SvView) -> bool {
    v.dim == pow2(v.qubits) && v.amps.len() == v.dim
}

/// The squared norm of the amplitudes is within tolerance of one.
pub open spec fn normalized(amps: Seq<Cx>) -> bool {
    fle(fabs_bits(fsub_one(norm_sq_sum(amps))), TOLERANCE_BITS)
}

/// The difference of a scalar and one.
pub open spec fn fsub_one(x: u64) -> u64 {
    crate::fp::fsub(x, F64_ONE)
}

/// The probability of an effect matrix on given amplitudes: the real part
/// of the inner product of the tensored amplitudes with the conjugate of
/// the originals.
pub open spec fn effect_prob(amps: Seq<Cx>, m: MatView, qubits: Seq<usize>) -> u64 {
    dot_re_sum(kernel_spec(amps, m, qubits), amps)
}

/// The initial state of an n-qubit register: amplitude one on the
/// all-zeros basis state, zero elsewhere, with unit trace change.
pub open spec fn init_sv(number_of_qubits: nat) -> SvView {
    SvView {
        dim: pow2(number_of_qubits),
        qubits: number_of_qubits,
        trace: F64_ONE,
        amps: Seq::new(
            pow2(number_of_qubits),
            |i: int|
                if i == 0 {
                    Cx { re: F64_ONE, im: F64_ZERO }
                } else {
                    c_zero()
                },
        ),
    }
}

/// A vector representing the pure state of a quantum system.
#[derive(Clone, Debug)]
pub struct StateVector {
    dim: usize,
    number_of_qubits: usize,
    trace_change: u64,
    data: Vec<Cx>,
}

impl View for StateVector {
    type V = SvView;

    closed spec fn view(&self) -> SvView {
        SvView {
            dim: self.dim as nat,
            qubits: self.number_of_qubits as nat,
            trace: self.trace_change,
            amps: self.data@,
        }
    }
}

/// One step of the Kraus-operator scan.
pub ghost enum KrausScan {
    /// The kernel rejects operator `at` (given the earlier operators let
    /// the scan reach it).
    BadKernel { at: int },
    /// Operator `idx` was committed; `ns` is the squared norm of the moved
    /// amplitudes.
    Selected { idx: int, ns: u64 },
    /// No operator crossed the sample; the accumulators are returned.
    Exhausted { summed: u64, last_p: u64, last_i: int },
}

/// The scan of the Kraus operators from position `j` with the given
/// accumulators: each trial tensors one operator over the amplitudes; its
/// probability is the moved squared norm over `rfac`; probabilities at or
/// above tolerance record the last-non-zero accumulators and commit as soon
/// as the cumulative probability exceeds the sample `u`.
pub open spec fn kraus_scan(
    amps: Seq<Cx>,
    ks: Seq<MatView>,
    qubits: Seq<usize>,
    rfac: u64,
    u: u64,
    j: int,
    summed: u64,
    last_p: u64,
    last_i: int,
) -> KrausScan
    decreases ks.len() - j,
{
    if j < 0 || j >= ks.len() {
        KrausScan::Exhausted { summed, last_p, last_i }
    } else if !kernel_ok(ks[j], qubits, amps.len()) {
        KrausScan::BadKernel { at: j }
    } else {
        let ns = norm_sq_sum(kernel_spec(amps, ks[j], qubits));
        let p = fdiv(ns, rfac);
        let summed2 = fadd(summed, p);
        if fge(p, TOLERANCE_BITS) {
            if fgt(summed2, u) {
                KrausScan::Selected { idx: j, ns }
            } else {
                kraus_scan(amps, ks, qubits, rfac, u, j + 1, summed2, p, j)
            }
        } else {
            kraus_scan(amps, ks, qubits, rfac, u, j + 1, summed2, last_p, last_i)
        }
    }
}

/// What sampling the Kraus operators does: how the state after the call and
/// the result relate to the state before it, for effect probability `rfac`
/// and uniform sample `u`. Kernel failures leave the state unchanged; a
/// commit moves the amplitudes and renormalizes them (failing with a
/// zero-probability error when the moved norm is below tolerance, the moved
/// amplitudes then left unrenormalized); an exhausted scan with non-trivial
/// remaining mass fails; otherwise the last branch of non-trivial
/// probability (or the first branch) is applied as a fallback.
pub open spec fn sample_result(
    pre: SvView,
    ks: Seq<MatView>,
    qubits: Seq<usize>,
    rfac: u64,
    u: u64,
) -> (Result<(), Error>, SvView) {
    match kraus_scan(pre.amps, ks, qubits, rfac, u, 0, F64_ZERO, F64_ZERO, 0) {
        KrausScan::BadKernel { at } => (
            Err(kernel_err(ks[at], qubits, pre.amps.len())),
            pre,
        ),
        KrausScan::Selected { idx, ns } => {
            let moved = kernel_spec(pre.amps, ks[idx], qubits);
            if flt(ns, TOLERANCE_BITS) {
                (Err(Error::ProbabilityZeroEvent), SvView { amps: moved, ..pre })
            } else {
                (Ok(()), SvView { amps: scale_seq(moved, frsqrt(ns)), ..pre })
            }
        },
        KrausScan::Exhausted { summed, last_p, last_i } => {
            if fgt(fadd(summed, TOLERANCE_BITS), u) && fge(last_p, TOLERANCE_BITS) {
                (Err(Error::FailedToSampleKrausOperators), pre)
            } else {
                let moved = kernel_spec(pre.amps, ks[last_i], qubits);
                let ns2 = norm_sq_sum(moved);
                if flt(ns2, TOLERANCE_BITS) {
                    (Err(Error::ProbabilityZeroEvent), SvView { amps: moved, ..pre })
                } else {
                    (Ok(()), SvView { amps: scale_seq(moved, frsqrt(ns2)), ..pre })
                }
            }
        },
    }
}

/// What sampling did: the result and the state after the call are exactly
/// what `sample_result` computes from the state before it.
pub open spec fn sample_post(
    pre: SvView,
    post: SvView,
    r: Result<(), Error>,
    ks: Seq<MatView>,
    qubits: Seq<usize>,
    rfac: u64,
    u: u64,
) -> bool {
    (r, post) == sample_result(pre, ks, qubits, rfac, u)
}

impl StateVector {
    /// The initial state of an n-qubit register: amplitude one on the
    /// all-zeros basis state, zero elsewhere, with unit trace change.
    pub fn new(number_of_qubits: usize) -> (r: StateVector)
        requires
            pow2(number_of_qubits as nat) <= usize::MAX,
        ensures
            sv_wf(r@),
            r@ == init_sv(number_of_qubits as nat),
    {
        let dim = pow2_exec(number_of_qubits);
        proof {
            lemma_pow2_pos(number_of_qubits as nat);
        }
        let mut data: Vec<Cx> = Vec::new();
        data.push(Cx { re: F64_ONE, im: F64_ZERO });
        let mut i: usize = 1;
        while i < dim
            invariant
                1 <= i <= dim,
                data@.len() == i,
                data@[0] == (Cx { re: F64_ONE, im: F64_ZERO }),
                forall|t: int| 1 <= t < i ==> data@[t] == c_zero(),
            decreases dim - i,
        {
            data.push(Cx { re: F64_ZERO, im: F64_ZERO });
            i = i + 1;
        }
        let r = StateVector { dim, number_of_qubits, trace_change: F64_ONE, data };
        proof {
            assert(r@.amps =~= init_sv(number_of_qubits as nat).amps);
        }
        r
    }

    /// Builds a state vector from its raw fields, for interoperation: the
    /// dimension must be two to the number of qubits, and the amplitude
    /// buffer must hold the dimension squared entries (the density-matrix
    /// shape); only the first `dim` entries are state amplitudes, and only
    /// they are kept. Nothing is built otherwise. No normalization check is
    /// made here.
    pub fn try_from(
        dim: usize,
        number_of_qubits: usize,
        trace_change: u64,
        data: Vec<Cx>,
    ) -> (r: Option<StateVector>)
        requires
            number_of_qubits < 64,
        ensures
            r is Some <==> (dim as nat == pow2(number_of_qubits as nat) && data@.len() == (
            dim as int) * (dim as int)),
            r matches Some(sv) ==> sv@ == (SvView {
                dim: dim as nat,
                qubits: number_of_qubits as nat,
                trace: trace_change,
                amps: data@.take(dim as int),
            }) && sv_wf(sv@),
    {
        proof {
            vstd::arithmetic::power2::lemma2_to64();
            vstd::arithmetic::power2::lemma2_to64_rest();
            if (number_of_qubits as nat) < 63 {
                vstd::arithmetic::power2::lemma_pow2_strictly_increases(
                    number_of_qubits as nat,
                    63,
                );
            }
        }
        let dimn = crate::kernel::pow2_u64(number_of_qubits);
        if (dim as u64) != dimn {
            return None;
        }
        proof {
            assert((dim as int) * (dim as int) < 0x1_0000_0000_0000_0000_0000_0000_0000_0000int)
                by (nonlinear_arith)
                requires dim <= u64::MAX;
        }
        if (data.len() as u128) != (dim as u128) * (dim as u128) {
            return None;
        }
        proof {
            lemma_pow2_pos(number_of_qubits as nat);
            assert((dim as int) <= (dim as int) * (dim as int)) by (nonlinear_arith)
                requires dim >= 1;
        }
        let mut amps: Vec<Cx> = Vec::new();
        let mut i: usize = 0;
        while i < dim
            invariant
                i <= dim,
                dim <= data@.len(),
                amps@ == data@.take(i as int),
            decreases dim - i,
        {
            amps.push(data[i]);
            proof {
                assert(amps@ =~= data@.take(i + 1));
            }
            i = i + 1;
        }
        Some(StateVector { dim, number_of_qubits, trace_change, data: amps })
    }

    /// The amplitudes.
    pub fn data(&self) -> (r: &Vec<Cx>)
        ensures
            r@ == self@.amps,
    {
        &self.data
    }

    /// The dimension of the state vector.
    pub fn dim(&self) -> (r: usize)
        ensures
            r as nat == self@.dim,
    {
        self.dim
    }

    /// The number of qubits in the system.
    pub fn number_of_qubits(&self) -> (r: usize)
        ensures
            r as nat == self@.qubits,
    {
        self.number_of_qubits
    }

    /// The theoretical change in trace due to the operations applied so
    /// far; the state itself is renormalized after every operation.
    pub fn trace_change(&self) -> (r: u64)
        ensures
            r == self@.trace,
    {
        self.trace_change
    }

    /// Computes the squared norm of the amplitudes.
    pub fn norm_squared(&self) -> (r: u64)
        ensures
            r == norm_sq_sum(self@.amps),
    {
        vec_norm_sq(&self.data)
    }

    /// Whether the squared norm is within tolerance of one.
    pub fn is_normalized(&self) -> (r: bool)
        ensures
            r == normalized(self@.amps),
    {
        fp_le(fp_abs(fp_sub_one(self.norm_squared())), TOLERANCE_BITS)
    }

    /// Sets the trace change; the simulator validates the value.
    pub(crate) fn set_trace_raw(&mut self, t: u64)
        ensures
            final(self)@ == (SvView { trace: t, ..old(self)@ }),
    {
        self.trace_change = t;
    }

    /// Multiplies the trace change by a factor.
    pub(crate) fn scale_trace(&mut self, f: u64)
        ensures
            final(self)@ == (SvView { trace: crate::fp::fmul(old(self)@.trace, f), ..old(self)@ }),
    {
        self.trace_change = crate::fp::fp_mul(self.trace_change, f);
    }

    /// Renormalizes the amplitudes, given their squared norm: fails with a
    /// zero-probability error below tolerance, else scales every amplitude
    /// by the inverse square root of the squared norm.
    fn renormalize_with_norm_squared(&mut self, norm_squared: u64) -> (r: Result<(), Error>)
        ensures
            flt(norm_squared, TOLERANCE_BITS) ==> r == Err::<(), Error>(
                Error::ProbabilityZeroEvent,
            ) && final(self)@ == old(self)@,
            !flt(norm_squared, TOLERANCE_BITS) ==> r == Ok::<(), Error>(()) && final(self)@ == (
            SvView { amps: scale_seq(old(self)@.amps, frsqrt(norm_squared)), ..old(self)@ }),
    {
        if fp_lt(norm_squared, TOLERANCE_BITS) {
            return Err(Error::ProbabilityZeroEvent);
        }
        let factor = fp_rsqrt(norm_squared);
        self.data = vec_scale(&self.data, factor);
        Ok(())
    }

    /// Renormalizes the amplitudes, computing their squared norm.
    fn renormalize(&mut self) -> (r: Result<(), Error>)
        ensures
            ({
                let ns = norm_sq_sum(old(self)@.amps);
                &&& flt(ns, TOLERANCE_BITS) ==> r == Err::<(), Error>(Error::ProbabilityZeroEvent)
                    && final(self)@ == old(self)@
                &&& !flt(ns, TOLERANCE_BITS) ==> r == Ok::<(), Error>(()) && final(self)@ == (
                SvView { amps: scale_seq(old(self)@.amps, frsqrt(ns)), ..old(self)@ })
            }),
    {
        let ns = self.norm_squared();
        self.renormalize_with_norm_squared(ns)
    }

    /// Computes the probability of the given effect matrix on the current
    /// state: the moved amplitudes are computed on a scratch copy, and
    /// their inner product with the conjugate of the state is taken. Fails
    /// exactly when the kernel rejects the matrix and qubit list; the state
    /// is never changed.
    pub(crate) fn effect_probability(
        &self,
        effect_matrix: &SquareMatrix,
        qubits: &Vec<usize>,
    ) -> (r: Result<u64, Error>)
        requires
            sv_wf(self@),
            mat_wf(effect_matrix@),
        ensures
            r is Ok <==> kernel_ok(effect_matrix@, qubits@, self@.amps.len()),
            r matches Ok(p) ==> p == effect_prob(self@.amps, effect_matrix@, qubits@),
            r matches Err(e) ==> e == kernel_err(effect_matrix@, qubits@, self@.amps.len()),
    {
        let mut state_copy = vec_copy(&self.data);
        proof {
            assert(state_copy@.len() == pow2(self@.qubits));
        }
        match apply_kernel(&mut state_copy, effect_matrix, qubits) {
            Ok(()) => Ok(vec_dot_re(&state_copy, &self.data)),
            Err(e) => Err(e),
        }
    }

    /// Chooses one Kraus operator, applies it to the state and renormalizes,
    /// as `sample_post` describes: branch probabilities are the moved
    /// squared norms over `renormalization_factor`; the first branch of
    /// probability at or above tolerance whose cumulative sum exceeds
    /// `random_sample` is committed; when none is, the scan's consistency
    /// is checked and the last branch of non-trivial probability is applied
    /// as a numerical fallback.
    pub(crate) fn sample_kraus_operators(
        &mut self,
        kraus_operators: &Vec<SquareMatrix>,
        qubits: &Vec<usize>,
        renormalization_factor: u64,
        random_sample: u64,
    ) -> (r: Result<(), Error>)
        requires
            sv_wf(old(self)@),
            kraus_operators@.len() >= 1,
            forall|t: int|
                0 <= t < kraus_operators@.len() ==> mat_wf(
                    #[trigger] mats_view(kraus_operators@)[t],
                ),
        ensures
            sample_post(
                old(self)@,
                final(self)@,
                r,
                mats_view(kraus_operators@),
                qubits@,
                renormalization_factor,
                random_sample,
            ),
            sv_wf(final(self)@),
            final(self)@.dim == old(self)@.dim,
            final(self)@.qubits == old(self)@.qubits,
            final(self)@.trace == old(self)@.trace,
    {
        let ghost ksv = mats_view(kraus_operators@);
        let ghost pre = self@;
        let mut summed_probability: u64 = F64_ZERO;
        let mut last_non_zero_probability: u64 = F64_ZERO;
        let mut last_non_zero_probability_index: usize = 0;
        let mut i: usize = 0;
        while i < kraus_operators.len()
            invariant
                sv_wf(self@),
                self@ == pre,
                pre == old(self)@,
                i <= kraus_operators@.len(),
                kraus_operators@.len() >= 1,
                ksv == mats_view(kraus_operators@),
                forall|t: int| 0 <= t < kraus_operators@.len() ==> mat_wf(#[trigger] ksv[t]),
                last_non_zero_probability_index < kraus_operators@.len(),
                forall|t: int| 0 <= t < i ==> kernel_ok(#[trigger] ksv[t], qubits@, pre.amps.len()),
                kraus_scan(pre.amps, ksv, qubits@, renormalization_factor, random_sample, 0,
                F64_ZERO, F64_ZERO, 0) == kraus_scan(pre.amps, ksv, qubits@,
                renormalization_factor, random_sample, i as int, summed_probability,
                last_non_zero_probability, last_non_zero_probability_index as int),
            decreases kraus_operators@.len() - i,
        {
            let ghost old_summed = summed_probability;
            let ghost old_lp = last_non_zero_probability;
            let ghost old_li = last_non_zero_probability_index as int;
            let mut state_copy = vec_copy(&self.data);
            proof {
                assert(state_copy@.len() == pow2(pre.qubits));
                assert(ksv[i as int] == kraus_operators@[i as int]@);
            }
            let kr = apply_kernel(&mut state_copy, &kraus_operators[i], qubits);
            match kr {
                Err(e) => {
                    proof {
                        assert(kraus_scan(pre.amps, ksv, qubits@, renormalization_factor,
                        random_sample, i as int, old_summed, old_lp, old_li)
                            == KrausScan::BadKernel { at: i as int });
                    }
                    return Err(e);
                },
                Ok(()) => {},
            }
            let norm_squared = vec_norm_sq(&state_copy);
            let p = fp_div(norm_squared, renormalization_factor);
            summed_probability = fp_add(summed_probability, p);
            if fp_ge(p, TOLERANCE_BITS) {
                last_non_zero_probability = p;
                last_non_zero_probability_index = i;
                if fp_gt(summed_probability, random_sample) {
                    proof {
                        assert(kraus_scan(pre.amps, ksv, qubits@, renormalization_factor,
                        random_sample, i as int, old_summed, old_lp, old_li)
                            == KrausScan::Selected { idx: i as int, ns: norm_squared });
                    }
                    self.data = state_copy;
                    let rr = self.renormalize_with_norm_squared(norm_squared);
                    match rr {
                        Err(e) => {
                            return Err(e);
                        },
                        Ok(()) => {
                            return Ok(());
                        },
                    }
                }
            }
            proof {
                assert(kraus_scan(pre.amps, ksv, qubits@, renormalization_factor, random_sample,
                i as int, old_summed, old_lp, old_li) == kraus_scan(pre.amps, ksv, qubits@,
                renormalization_factor, random_sample, i as int + 1, summed_probability,
                last_non_zero_probability, last_non_zero_probability_index as int));
            }
            i = i + 1;
        }
        proof {
            assert(kraus_scan(pre.amps, ksv, qubits@, renormalization_factor, random_sample,
            i as int, summed_probability, last_non_zero_probability,
            last_non_zero_probability_index as int) == KrausScan::Exhausted {
                summed: summed_probability,
                last_p: last_non_zero_probability,
                last_i: last_non_zero_probability_index as int,
            });
        }
        if fp_gt(fp_add(summed_probability, TOLERANCE_BITS), random_sample) && fp_ge(
            last_non_zero_probability,
            TOLERANCE_BITS,
        ) {
            return Err(Error::FailedToSampleKrausOperators);
        }
        proof {
            assert(self@.amps.len() == pow2(pre.qubits));
        }
        let kr = apply_kernel(
            &mut self.data,
            &kraus_operators[last_non_zero_probability_index],
            qubits,
        );
        match kr {
            Err(e) => {
                proof {
                    assert(false);
                }
                return Err(e);
            },
            Ok(()) => {},
        }
        self.renormalize()
    }
}

/// Executable form of the one-subtraction used by the normalization check.
pub fn fp_sub_one(x: u64) -> (r: u64)
    ensures
        r == fsub_one(x),
{
    crate::fp::fp_sub(x, F64_ONE)
}

} // verus!
