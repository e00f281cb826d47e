//! The simulator: a state vector in a poisoned-on-error slot, with the
//! three evolution entry points, trace accounting and state replacement.
//!
//! Mutation failures inside sampling poison the simulator: the error is
//! stored and every later state-dependent call returns it until `set_state`
//! succeeds. Validation failures (a rejected replacement state or trace)
//! and effect-probability failures do not poison.

use vstd::prelude::*;
use vstd::arithmetic::power2::pow2;
use crate::cx::{norm_sq_sum, Cx};
use crate::fp::{
    fadd, fdiv, fge, fgt, fle, flt, fmax_zero, fmul, fp_add, fp_div, fp_ge, fp_gt, fp_le, fp_lt,
    fp_max_zero, fp_mul, fp_sub, fp_unit_of, fsub, random_u64, unit_of,
};
use crate::kernel::{kernel_err, kernel_ok};
use crate::mat::{
    inst_wf, lemma_flat_kraus_nonempty, lemma_flat_kraus_wf, mat_wf, mats_view, op_wf, InstView,
    Instrument, MatView, Operation, OpView, SquareMatrix,
};
use crate::state_vector::{
    effect_prob, normalized, sample_result, sv_wf, KrausScan, StateVector, SvView,
};
use crate::{Error, InvalidStateKind, F64_ONE, F64_ZERO, TOLERANCE_BITS};

verus! {

/// Mathematical view of the simulator: the stored error (when poisoned),
/// the state vector, and the cached dimension used to validate replacement
/// states.
pub ghost struct SimView {
    pub poison: Option<Error>,
    pub v: SvView,
    pub dim: nat,
}

/// The state vector is well formed and has the cached dimension.
pub open spec fn sim_wf(s: SimView) -> bool {
    sv_wf(s.v) && s.v.dim == s.dim
}

/// A quantum circuit simulator over a pure state vector.
pub struct StateVectorSimulator {
    poison: Option<Error>,
    vector: StateVector,
    dim: usize,
}

impl View for StateVectorSimulator {
    type V = SimView;

    closed spec fn view(&self) -> SimView {
        SimView { poison: self.poison, v: self.vector@, dim: self.dim as nat }
    }
}

/// What applying an operation (or the non-selective form of an instrument)
/// does: a poisoned simulator returns its stored error unchanged; a kernel
/// rejection of the effect matrix propagates without poisoning or change;
/// otherwise the effect probability is consumed into the trace change and
/// the Kraus operators are sampled, any sampling error poisoning the
/// simulator.
pub open spec fn apply_result(
    pre: SimView,
    effect: MatView,
    ks: Seq<MatView>,
    qubits: Seq<usize>,
    u: u64,
) -> (Result<(), Error>, SimView) {
    if pre.poison is Some {
        (Err(pre.poison->Some_0), pre)
    } else if !kernel_ok(effect, qubits, pre.v.amps.len()) {
        (Err(kernel_err(effect, qubits, pre.v.amps.len())), pre)
    } else {
        let rfac = effect_prob(pre.v.amps, effect, qubits);
        let v1 = SvView { trace: fmul(pre.v.trace, rfac), ..pre.v };
        let rv = sample_result(v1, ks, qubits, rfac, u);
        match rv.0 {
            Ok(()) => (Ok(()), SimView { poison: None, v: rv.1, dim: pre.dim }),
            Err(e) => (Err(e), SimView { poison: Some(e), v: rv.1, dim: pre.dim }),
        }
    }
}

/// One step of the outcome scan of `sample_instrument_with_distribution`:
/// each outcome's effect probability over the total is accumulated;
/// outcomes of probability at or above tolerance record the last-non-zero
/// outcome and its squared norm; the scan stops as soon as the cumulative
/// probability exceeds the sample.
pub ghost enum OutcomeScan {
    /// The kernel rejects outcome `at`'s effect matrix.
    BadKernel { at: int },
    /// The scan stopped (by crossing the sample or exhausting the
    /// outcomes) with these accumulators.
    Done { summed: u64, last_ns: u64, last_o: int },
}

pub open spec fn outcome_scan(
    amps: Seq<Cx>,
    ops: Seq<OpView>,
    qubits: Seq<usize>,
    rfac: u64,
    u: u64,
    o: int,
    summed: u64,
    last_ns: u64,
    last_o: int,
) -> OutcomeScan
    decreases ops.len() - o,
{
    if o < 0 || o >= ops.len() {
        OutcomeScan::Done { summed, last_ns, last_o }
    } else if !kernel_ok(ops[o].effect, qubits, amps.len()) {
        OutcomeScan::BadKernel { at: o }
    } else {
        let ns = effect_prob(amps, ops[o].effect, qubits);
        let p = fdiv(ns, rfac);
        let last_ns2 = if fge(p, TOLERANCE_BITS) {
            ns
        } else {
            last_ns
        };
        let last_o2 = if fge(p, TOLERANCE_BITS) {
            o
        } else {
            last_o
        };
        let summed2 = fadd(summed, p);
        if fgt(summed2, u) {
            OutcomeScan::Done { summed: summed2, last_ns: last_ns2, last_o: last_o2 }
        } else {
            outcome_scan(amps, ops, qubits, rfac, u, o + 1, summed2, last_ns2, last_o2)
        }
    }
}

/// What selective instrument application (a measurement) does: outcome
/// sampling over the effect probabilities, then trace accounting with the
/// selected outcome's squared norm, then Kraus sampling within that outcome
/// under a rescaled sample. An inconsistent outcome scan poisons; kernel
/// rejections propagate without poisoning; sampling errors poison.
pub open spec fn sample_instrument_result(
    pre: SimView,
    inst: InstView,
    qubits: Seq<usize>,
    u: u64,
) -> (Result<usize, Error>, SimView) {
    if pre.poison is Some {
        (Err(pre.poison->Some_0), pre)
    } else if !kernel_ok(inst.total, qubits, pre.v.amps.len()) {
        (Err(kernel_err(inst.total, qubits, pre.v.amps.len())), pre)
    } else {
        let rfac = effect_prob(pre.v.amps, inst.total, qubits);
        match outcome_scan(pre.v.amps, inst.ops, qubits, rfac, u, 0, F64_ZERO, F64_ZERO, 0) {
            OutcomeScan::BadKernel { at } => (
                Err(kernel_err(inst.ops[at].effect, qubits, pre.v.amps.len())),
                pre,
            ),
            OutcomeScan::Done { summed, last_ns, last_o } => {
                if fle(fadd(summed, TOLERANCE_BITS), u) || flt(last_ns, TOLERANCE_BITS) {
                    (
                        Err(Error::FailedToSampleInstrumentOutcome),
                        SimView { poison: Some(Error::FailedToSampleInstrumentOutcome), ..pre },
                    )
                } else {
                    let v1 = SvView { trace: fmul(pre.v.trace, last_ns), ..pre.v };
                    let u2 = fmax_zero(fmul(fdiv(fsub(summed, u), last_ns), rfac));
                    let rv = sample_result(v1, inst.ops[last_o].kraus, qubits, last_ns, u2);
                    match rv.0 {
                        Ok(()) => (
                            Ok(last_o as usize),
                            SimView { poison: None, v: rv.1, dim: pre.dim },
                        ),
                        Err(e) => (
                            Err(e),
                            SimView { poison: Some(e), v: rv.1, dim: pre.dim },
                        ),
                    }
                }
            },
        }
    }
}

/// What replacing the state does: the replacement is rejected (and nothing
/// changes) unless its dimension matches the simulator's and it is
/// normalized; on success it is installed and the simulator is healthy.
pub open spec fn set_state_result(pre: SimView, nv: SvView) -> (Result<(), Error>, SimView) {
    if pre.dim != nv.dim {
        (
            Err(
                Error::InvalidState(
                    InvalidStateKind::WrongDimension {
                        expected: pre.dim as usize,
                        got: nv.dim as usize,
                    },
                ),
            ),
            pre,
        )
    } else if !normalized(nv.amps) {
        (
            Err(
                Error::InvalidState(
                    InvalidStateKind::StateNotNormalized { norm_squared: norm_sq_sum(nv.amps) },
                ),
            ),
            pre,
        )
    } else {
        (Ok(()), SimView { poison: None, v: nv, dim: pre.dim })
    }
}

/// What setting the trace does: values below tolerance or above one by
/// more than tolerance are rejected before the state is read; then a
/// poisoned simulator returns its stored error; otherwise only the trace
/// change is replaced.
pub open spec fn set_trace_result(pre: SimView, t: u64) -> (Result<(), Error>, SimView) {
    if flt(t, TOLERANCE_BITS) || fgt(fsub(t, F64_ONE), TOLERANCE_BITS) {
        (Err(Error::NotNormalized(t)), pre)
    } else if pre.poison is Some {
        (Err(pre.poison->Some_0), pre)
    } else {
        (Ok(()), SimView { v: SvView { trace: t, ..pre.v }, ..pre })
    }
}

impl StateVectorSimulator {
    /// A healthy simulator over the initial state of an n-qubit register.
    pub fn new(number_of_qubits: usize) -> (r: StateVectorSimulator)
        requires
            pow2(number_of_qubits as nat) <= usize::MAX,
        ensures
            sim_wf(r@),
            r@.poison is None,
            r@.dim == pow2(number_of_qubits as nat),
            r@.v == crate::state_vector::init_sv(number_of_qubits as nat),
    {
        let state_vector = StateVector::new(number_of_qubits);
        let dim = state_vector.dim();
        StateVectorSimulator { poison: None, vector: state_vector, dim }
    }

    /// Applies an operation to the given qubit ids, consuming the given
    /// uniform sample in the unit interval (by bit pattern).
    pub fn apply_operation_with_distribution(
        &mut self,
        operation: &Operation,
        qubits: &Vec<usize>,
        random_sample: u64,
    ) -> (r: Result<(), Error>)
        requires
            sim_wf(old(self)@),
            op_wf(operation@),
        ensures
            sim_wf(final(self)@),
            final(self)@.dim == old(self)@.dim,
            (r, final(self)@) == apply_result(
                old(self)@,
                operation@.effect,
                operation@.kraus,
                qubits@,
                random_sample,
            ),
    {
        self.apply_generic(operation.effect_matrix(), operation.kraus_operators(), qubits,
        random_sample)
    }

    /// Applies an operation to the given qubit ids, drawing the sample from
    /// the thread-local generator.
    pub fn apply_operation(&mut self, operation: &Operation, qubits: &Vec<usize>) -> (r: Result<
        (),
        Error,
    >)
        requires
            sim_wf(old(self)@),
            op_wf(operation@),
        ensures
            sim_wf(final(self)@),
            final(self)@.dim == old(self)@.dim,
            exists|x: u64|
                (r, final(self)@) == apply_result(
                    old(self)@,
                    operation@.effect,
                    operation@.kraus,
                    qubits@,
                    unit_of(x),
                ),
    {
        let x = random_u64();
        let u = fp_unit_of(x);
        let r = self.apply_operation_with_distribution(operation, qubits, u);
        proof {
            assert((r, self@) == apply_result(
                old(self)@,
                operation@.effect,
                operation@.kraus,
                qubits@,
                unit_of(x),
            ));
        }
        r
    }

    /// Applies an instrument non-selectively (its total effect and its
    /// flattened Kraus list), consuming the given uniform sample.
    pub fn apply_instrument_with_distribution(
        &mut self,
        instrument: &Instrument,
        qubits: &Vec<usize>,
        random_sample: u64,
    ) -> (r: Result<(), Error>)
        requires
            sim_wf(old(self)@),
            inst_wf(instrument@),
        ensures
            sim_wf(final(self)@),
            final(self)@.dim == old(self)@.dim,
            (r, final(self)@) == apply_result(
                old(self)@,
                instrument@.total,
                instrument@.non_selective,
                qubits@,
                random_sample,
            ),
    {
        proof {
            lemma_flat_kraus_nonempty(instrument@.ops, instrument@.ops.len() as int);
            lemma_flat_kraus_wf(instrument@.ops, instrument@.ops.len() as int);
        }
        self.apply_generic(instrument.total_effect(), instrument.non_selective_kraus_operators(),
        qubits, random_sample)
    }

    /// Applies an instrument non-selectively, drawing the sample from the
    /// thread-local generator.
    pub fn apply_instrument(&mut self, instrument: &Instrument, qubits: &Vec<usize>) -> (r: Result<
        (),
        Error,
    >)
        requires
            sim_wf(old(self)@),
            inst_wf(instrument@),
        ensures
            sim_wf(final(self)@),
            final(self)@.dim == old(self)@.dim,
            exists|x: u64|
                (r, final(self)@) == apply_result(
                    old(self)@,
                    instrument@.total,
                    instrument@.non_selective,
                    qubits@,
                    unit_of(x),
                ),
    {
        let x = random_u64();
        let u = fp_unit_of(x);
        let r = self.apply_instrument_with_distribution(instrument, qubits, u);
        proof {
            assert((r, self@) == apply_result(
                old(self)@,
                instrument@.total,
                instrument@.non_selective,
                qubits@,
                unit_of(x),
            ));
        }
        r
    }

    /// The shared body of operation and non-selective instrument
    /// application.
    fn apply_generic(
        &mut self,
        effect: &SquareMatrix,
        ks: &Vec<SquareMatrix>,
        qubits: &Vec<usize>,
        random_sample: u64,
    ) -> (r: Result<(), Error>)
        requires
            sim_wf(old(self)@),
            mat_wf(effect@),
            mats_view(ks@).len() >= 1,
            forall|t: int| 0 <= t < mats_view(ks@).len() ==> mat_wf(#[trigger] mats_view(ks@)[t]),
        ensures
            sim_wf(final(self)@),
            final(self)@.dim == old(self)@.dim,
            (r, final(self)@) == apply_result(
                old(self)@,
                effect@,
                mats_view(ks@),
                qubits@,
                random_sample,
            ),
    {
        match &self.poison {
            Some(e) => {
                return Err(*e);
            },
            None => {},
        }
        let rfac = match self.vector.effect_probability(effect, qubits) {
            Ok(p) => p,
            Err(e) => {
                return Err(e);
            },
        };
        self.vector.scale_trace(rfac);
        let rr = self.vector.sample_kraus_operators(ks, qubits, rfac, random_sample);
        match rr {
            Ok(()) => Ok(()),
            Err(e) => {
                self.poison = Some(e);
                Err(e)
            },
        }
    }

    /// Performs selective evolution under the instrument, consuming the
    /// given uniform sample; returns the index of the observed outcome.
    pub fn sample_instrument_with_distribution(
        &mut self,
        instrument: &Instrument,
        qubits: &Vec<usize>,
        random_sample: u64,
    ) -> (r: Result<usize, Error>)
        requires
            sim_wf(old(self)@),
            inst_wf(instrument@),
        ensures
            sim_wf(final(self)@),
            final(self)@.dim == old(self)@.dim,
            (r, final(self)@) == sample_instrument_result(
                old(self)@,
                instrument@,
                qubits@,
                random_sample,
            ),
    {
        let ghost pre = self@;
        let ghost instv = instrument@;
        match &self.poison {
            Some(e) => {
                return Err(*e);
            },
            None => {},
        }
        let renormalization_factor = match self.vector.effect_probability(
            instrument.total_effect(),
            qubits,
        ) {
            Ok(p) => p,
            Err(e) => {
                return Err(e);
            },
        };
        let mut last_non_zero_norm_squared: u64 = F64_ZERO;
        let mut summed_probability: u64 = F64_ZERO;
        let mut last_non_zero_outcome: usize = 0;
        let num = instrument.num_operations();
        let mut outcome: usize = 0;
        let mut stopped: bool = false;
        while outcome < num && !stopped
            invariant
                pre == old(self)@,
                self@ == pre,
                pre.poison is None,
                sim_wf(pre),
                instv == instrument@,
                inst_wf(instv),
                num == instv.ops.len(),
                outcome <= num,
                last_non_zero_outcome < num,
                kernel_ok(instv.total, qubits@, pre.v.amps.len()),
                renormalization_factor == effect_prob(pre.v.amps, instv.total, qubits@),
                !stopped ==> outcome_scan(pre.v.amps, instv.ops, qubits@, renormalization_factor,
                random_sample, 0, F64_ZERO, F64_ZERO, 0) == outcome_scan(pre.v.amps, instv.ops,
                qubits@, renormalization_factor, random_sample, outcome as int,
                summed_probability, last_non_zero_norm_squared, last_non_zero_outcome as int),
                stopped ==> outcome_scan(pre.v.amps, instv.ops, qubits@, renormalization_factor,
                random_sample, 0, F64_ZERO, F64_ZERO, 0) == (OutcomeScan::Done {
                    summed: summed_probability,
                    last_ns: last_non_zero_norm_squared,
                    last_o: last_non_zero_outcome as int,
                }),
            decreases num - outcome + (if stopped { 0int } else { 1int }),
        {
            let ghost os = summed_probability;
            let ghost ons = last_non_zero_norm_squared;
            let ghost oo = last_non_zero_outcome as int;
            let norm_squared = match self.vector.effect_probability(
                instrument.operation(outcome).effect_matrix(),
                qubits,
            ) {
                Ok(p) => p,
                Err(e) => {
                    proof {
                        assert(outcome_scan(pre.v.amps, instv.ops, qubits@,
                        renormalization_factor, random_sample, outcome as int, os, ons, oo)
                            == OutcomeScan::BadKernel { at: outcome as int });
                    }
                    return Err(e);
                },
            };
            let p = fp_div(norm_squared, renormalization_factor);
            if fp_ge(p, TOLERANCE_BITS) {
                last_non_zero_outcome = outcome;
                last_non_zero_norm_squared = norm_squared;
            }
            summed_probability = fp_add(summed_probability, p);
            if fp_gt(summed_probability, random_sample) {
                stopped = true;
            }
            proof {
                if stopped {
                    assert(outcome_scan(pre.v.amps, instv.ops, qubits@, renormalization_factor,
                    random_sample, outcome as int, os, ons, oo) == (OutcomeScan::Done {
                        summed: summed_probability,
                        last_ns: last_non_zero_norm_squared,
                        last_o: last_non_zero_outcome as int,
                    }));
                } else {
                    assert(outcome_scan(pre.v.amps, instv.ops, qubits@, renormalization_factor,
                    random_sample, outcome as int, os, ons, oo) == outcome_scan(pre.v.amps,
                    instv.ops, qubits@, renormalization_factor, random_sample, outcome as int
                        + 1, summed_probability, last_non_zero_norm_squared,
                    last_non_zero_outcome as int));
                }
            }
            if !stopped {
                outcome = outcome + 1;
            }
        }
        proof {
            if !stopped {
                assert(outcome_scan(pre.v.amps, instv.ops, qubits@, renormalization_factor,
                random_sample, outcome as int, summed_probability, last_non_zero_norm_squared,
                last_non_zero_outcome as int) == (OutcomeScan::Done {
                    summed: summed_probability,
                    last_ns: last_non_zero_norm_squared,
                    last_o: last_non_zero_outcome as int,
                }));
            }
        }
        if fp_le(fp_add(summed_probability, TOLERANCE_BITS), random_sample) || fp_lt(
            last_non_zero_norm_squared,
            TOLERANCE_BITS,
        ) {
            self.poison = Some(Error::FailedToSampleInstrumentOutcome);
            return Err(Error::FailedToSampleInstrumentOutcome);
        }
        self.vector.scale_trace(last_non_zero_norm_squared);
        let rescaled_random_sample = fp_max_zero(
            fp_mul(
                fp_div(fp_sub(summed_probability, random_sample), last_non_zero_norm_squared),
                renormalization_factor,
            ),
        );
        let rr = self.vector.sample_kraus_operators(
            instrument.operation(last_non_zero_outcome).kraus_operators(),
            qubits,
            last_non_zero_norm_squared,
            rescaled_random_sample,
        );
        match rr {
            Ok(()) => Ok(last_non_zero_outcome),
            Err(e) => {
                self.poison = Some(e);
                Err(e)
            },
        }
    }

    /// Performs selective evolution under the instrument, drawing the
    /// sample from the thread-local generator; returns the index of the
    /// observed outcome. Use this method to perform measurements.
    pub fn sample_instrument(&mut self, instrument: &Instrument, qubits: &Vec<usize>) -> (r:
        Result<usize, Error>)
        requires
            sim_wf(old(self)@),
            inst_wf(instrument@),
        ensures
            sim_wf(final(self)@),
            final(self)@.dim == old(self)@.dim,
            exists|x: u64|
                (r, final(self)@) == sample_instrument_result(
                    old(self)@,
                    instrument@,
                    qubits@,
                    unit_of(x),
                ),
    {
        let x = random_u64();
        let u = fp_unit_of(x);
        let r = self.sample_instrument_with_distribution(instrument, qubits, u);
        proof {
            assert((r, self@) == sample_instrument_result(old(self)@, instrument@, qubits@,
            unit_of(x)));
        }
        r
    }

    /// The state vector, or the stored error while the simulator is
    /// poisoned. Never poisons.
    pub fn state(&self) -> (r: Result<&StateVector, &Error>)
        ensures
            self@.poison is None ==> (r matches Ok(sv) && sv@ == self@.v),
            self@.poison matches Some(e) ==> (r matches Err(pe) && *pe == e),
    {
        match &self.poison {
            Some(e) => Err(e),
            None => Ok(&self.vector),
        }
    }

    /// Replaces the state of the quantum system, un-poisoning the simulator
    /// on success; a replacement of the wrong dimension or one that is not
    /// normalized is rejected without any change.
    pub fn set_state(&mut self, new_state: StateVector) -> (r: Result<(), Error>)
        requires
            sv_wf(new_state@),
        ensures
            (r, final(self)@) == set_state_result(old(self)@, new_state@),
            final(self)@.dim == old(self)@.dim,
            r is Ok ==> sim_wf(final(self)@),
            sim_wf(old(self)@) ==> sim_wf(final(self)@),
    {
        if self.dim != new_state.dim() {
            let got = new_state.dim();
            return Err(
                Error::InvalidState(InvalidStateKind::WrongDimension { expected: self.dim, got }),
            );
        }
        if !new_state.is_normalized() {
            let ns = new_state.norm_squared();
            return Err(
                Error::InvalidState(InvalidStateKind::StateNotNormalized { norm_squared: ns }),
            );
        }
        self.poison = None;
        self.vector = new_state;
        Ok(())
    }

    /// The accumulated trace change, or the stored error while the
    /// simulator is poisoned. Never poisons.
    pub fn trace_change(&self) -> (r: Result<u64, Error>)
        ensures
            self@.poison is None ==> r == Ok::<u64, Error>(self@.v.trace),
            self@.poison matches Some(e) ==> r == Err::<u64, Error>(e),
    {
        match &self.poison {
            Some(e) => Err(*e),
            None => Ok(self.vector.trace_change()),
        }
    }

    /// Sets the trace change. Values below tolerance, or above one by more
    /// than tolerance, are rejected (before the poisoned slot is read);
    /// amplitudes are never touched.
    pub fn set_trace(&mut self, trace: u64) -> (r: Result<(), Error>)
        ensures
            (r, final(self)@) == set_trace_result(old(self)@, trace),
            final(self)@.dim == old(self)@.dim,
    {
        if fp_lt(trace, TOLERANCE_BITS) || fp_gt(fp_sub(trace, F64_ONE), TOLERANCE_BITS) {
            return Err(Error::NotNormalized(trace));
        }
        match &self.poison {
            Some(e) => {
                return Err(*e);
            },
            None => {},
        }
        self.vector.set_trace_raw(trace);
        Ok(())
    }
}

} // verus!
