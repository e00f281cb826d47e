//! The general properties of the simulator that its contracts entail,
//! written down and proved: sticky poisoning and its one recovery path,
//! determinism under a fixed sample, multiplicative trace accounting, and
//! the idempotence of replacing the state by itself.

use vstd::prelude::*;
use crate::fp::{fgt, flt, fmul, fsub};
use crate::kernel::kernel_ok;
use crate::mat::{InstView, MatView};
use crate::simulator::{
    apply_result, sample_instrument_result, set_state_result, set_trace_result, sim_wf, SimView,
};
use crate::state_vector::{
    effect_prob, kraus_scan, normalized, sample_result, KrausScan, SvView,
};
use crate::{Error, F64_ONE, F64_ZERO, TOLERANCE_BITS};

verus! {

/// Poisoning is sticky: while the simulator is poisoned, applying an
/// operation or an instrument, sampling an instrument, and setting a trace
/// within bounds all return the stored error and leave the simulator
/// unchanged.
pub proof fn lemma_poisoning_is_sticky(
    pre: SimView,
    e: Error,
    effect: MatView,
    ks: Seq<MatView>,
    inst: InstView,
    qubits: Seq<usize>,
    u: u64,
    t: u64,
)
    requires
        pre.poison == Some(e),
    ensures
        apply_result(pre, effect, ks, qubits, u) == (Err::<(), Error>(e), pre),
        sample_instrument_result(pre, inst, qubits, u) == (Err::<usize, Error>(e), pre),
        !(flt(t, TOLERANCE_BITS) || fgt(fsub(t, F64_ONE), TOLERANCE_BITS)) ==> set_trace_result(
            pre,
            t,
        ) == (Err::<(), Error>(e), pre),
{
}

/// The one recovery path: replacing the state with a normalized state of
/// the simulator's dimension always succeeds and clears the poison.
pub proof fn lemma_set_state_recovers(pre: SimView, nv: SvView)
    requires
        nv.dim == pre.dim,
        normalized(nv.amps),
    ensures
        set_state_result(pre, nv) == (
            Ok::<(), Error>(()),
            SimView { poison: None, v: nv, dim: pre.dim },
        ),
{
}

/// Replacing the state of a healthy simulator by that same state is a
/// no-op: it is accepted and nothing changes. (The current state must be
/// normalized, as every state a successful operation leaves behind is
/// within tolerance.)
pub proof fn lemma_set_state_self_is_noop(pre: SimView)
    requires
        sim_wf(pre),
        pre.poison is None,
        normalized(pre.v.amps),
    ensures
        set_state_result(pre, pre.v) == (Ok::<(), Error>(()), pre),
{
}

/// With the same starting state and the same uniform sample, applying an
/// operation (or the non-selective form of an instrument) gives the same
/// result and the same final state: the evolution is deterministic.
pub proof fn lemma_apply_is_deterministic(
    pre: SimView,
    post1: SimView,
    post2: SimView,
    r1: Result<(), Error>,
    r2: Result<(), Error>,
    effect: MatView,
    ks: Seq<MatView>,
    qubits: Seq<usize>,
    u: u64,
)
    requires
        (r1, post1) == apply_result(pre, effect, ks, qubits, u),
        (r2, post2) == apply_result(pre, effect, ks, qubits, u),
    ensures
        r1 == r2,
        post1 == post2,
{
}

/// With the same starting state and the same uniform sample, sampling an
/// instrument observes the same outcome and leaves the same state: the
/// measurement is deterministic.
pub proof fn lemma_sample_instrument_is_deterministic(
    pre: SimView,
    post1: SimView,
    post2: SimView,
    r1: Result<usize, Error>,
    r2: Result<usize, Error>,
    inst: InstView,
    qubits: Seq<usize>,
    u: u64,
)
    requires
        (r1, post1) == sample_instrument_result(pre, inst, qubits, u),
        (r2, post2) == sample_instrument_result(pre, inst, qubits, u),
    ensures
        r1 == r2,
        post1 == post2,
{
}

/// Kraus sampling never touches the trace change, the dimension or the
/// number of qubits.
pub proof fn lemma_sample_keeps_trace(
    pre: SvView,
    ks: Seq<MatView>,
    qubits: Seq<usize>,
    rfac: u64,
    u: u64,
)
    ensures
        sample_result(pre, ks, qubits, rfac, u).1.trace == pre.trace,
        sample_result(pre, ks, qubits, rfac, u).1.dim == pre.dim,
        sample_result(pre, ks, qubits, rfac, u).1.qubits == pre.qubits,
{
    match kraus_scan(pre.amps, ks, qubits, rfac, u, 0, F64_ZERO, F64_ZERO, 0) {
        KrausScan::BadKernel { .. } => {
        },
        KrausScan::Selected { .. } => {
        },
        KrausScan::Exhausted { .. } => {
        },
    }
}

/// Applying an operation to a healthy simulator multiplies the trace
/// change by the operation's effect probability on the current state,
/// whether or not the subsequent Kraus sampling succeeds.
pub proof fn lemma_trace_accumulates_multiplicatively(
    pre: SimView,
    effect: MatView,
    ks: Seq<MatView>,
    qubits: Seq<usize>,
    u: u64,
)
    requires
        pre.poison is None,
        kernel_ok(effect, qubits, pre.v.amps.len()),
    ensures
        apply_result(pre, effect, ks, qubits, u).1.v.trace == fmul(
            pre.v.trace,
            effect_prob(pre.v.amps, effect, qubits),
        ),
{
    let rfac = effect_prob(pre.v.amps, effect, qubits);
    let v1 = SvView { trace: fmul(pre.v.trace, rfac), ..pre.v };
    lemma_sample_keeps_trace(v1, ks, qubits, rfac, u);
}

/// Across two successive successful applications the trace change is the
/// product of the starting trace change and both effect probabilities, each
/// taken on the state the operation saw.
pub proof fn lemma_trace_product_over_two_steps(
    pre: SimView,
    mid: SimView,
    e1: MatView,
    k1: Seq<MatView>,
    q1: Seq<usize>,
    u1: u64,
    e2: MatView,
    k2: Seq<MatView>,
    q2: Seq<usize>,
    u2: u64,
)
    requires
        pre.poison is None,
        kernel_ok(e1, q1, pre.v.amps.len()),
        kernel_ok(e2, q2, mid.v.amps.len()),
        apply_result(pre, e1, k1, q1, u1).0 is Ok,
        mid == apply_result(pre, e1, k1, q1, u1).1,
    ensures
        apply_result(mid, e2, k2, q2, u2).1.v.trace == fmul(
            fmul(pre.v.trace, effect_prob(pre.v.amps, e1, q1)),
            effect_prob(mid.v.amps, e2, q2),
        ),
{
    lemma_trace_accumulates_multiplicatively(pre, e1, k1, q1, u1);
    lemma_trace_accumulates_multiplicatively(mid, e2, k2, q2, u2);
}

} // verus!
