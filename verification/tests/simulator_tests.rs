//! End-to-end tests of the simulator: scenarios, boundary behaviors and
//! error paths, with scalars converted through IEEE double bit patterns.

use noisy_simulator::cx::Cx;
use noisy_simulator::mat::{Instrument, Operation, SquareMatrix};
use noisy_simulator::simulator::StateVectorSimulator;
use noisy_simulator::state_vector::StateVector;
use noisy_simulator::{Error, InvalidStateKind};

fn c(re: f64, im: f64) -> Cx {
    Cx { re: re.to_bits(), im: im.to_bits() }
}

fn amp(x: Cx) -> (f64, f64) {
    (f64::from_bits(x.re), f64::from_bits(x.im))
}

fn mat2(entries: [f64; 4]) -> SquareMatrix {
    let v: Vec<Cx> = entries.iter().map(|&e| c(e, 0.0)).collect();
    SquareMatrix::new(2, v).unwrap()
}

fn mat4(entries: [f64; 16]) -> SquareMatrix {
    let v: Vec<Cx> = entries.iter().map(|&e| c(e, 0.0)).collect();
    SquareMatrix::new(4, v).unwrap()
}

fn identity2() -> SquareMatrix {
    mat2([1.0, 0.0, 0.0, 1.0])
}

fn hadamard_op() -> Operation {
    let s = 1.0 / 2.0f64.sqrt();
    Operation::new(identity2(), vec![mat2([s, s, s, -s])]).unwrap()
}

fn z_measurement() -> Instrument {
    let p0 = || mat2([1.0, 0.0, 0.0, 0.0]);
    let p1 = || mat2([0.0, 0.0, 0.0, 1.0]);
    let op0 = Operation::new(p0(), vec![p0()]).unwrap();
    let op1 = Operation::new(p1(), vec![p1()]).unwrap();
    Instrument::new(vec![op0, op1]).unwrap()
}

fn state_amps(sim: &StateVectorSimulator) -> Vec<(f64, f64)> {
    sim.state().unwrap().data().iter().map(|&x| amp(x)).collect()
}

fn norm_sq(sim: &StateVectorSimulator) -> f64 {
    state_amps(sim).iter().map(|(re, im)| re * re + im * im).sum()
}

fn trace(sim: &StateVectorSimulator) -> f64 {
    f64::from_bits(sim.trace_change().unwrap())
}

#[test]
fn new_simulator_starts_in_ground_state() {
    let sim = StateVectorSimulator::new(1);
    let amps = state_amps(&sim);
    assert_eq!(amps, vec![(1.0, 0.0), (0.0, 0.0)]);
    assert_eq!(trace(&sim), 1.0);
    assert_eq!(sim.state().unwrap().dim(), 2);
    assert_eq!(sim.state().unwrap().number_of_qubits(), 1);
}

#[test]
fn dimension_is_two_to_the_qubits() {
    for n in 1..5usize {
        let sim = StateVectorSimulator::new(n);
        assert_eq!(sim.state().unwrap().dim(), 1usize << n);
        assert_eq!(sim.state().unwrap().data().len(), 1usize << n);
    }
}

#[test]
fn hadamard_then_measure_outcome_zero() {
    let mut sim = StateVectorSimulator::new(1);
    sim.apply_operation_with_distribution(&hadamard_op(), &vec![0], (0.5f64).to_bits())
        .unwrap();
    let amps = state_amps(&sim);
    let s = 1.0 / 2.0f64.sqrt();
    assert!((amps[0].0 - s).abs() < 1e-9 && (amps[1].0 - s).abs() < 1e-9);
    let outcome = sim
        .sample_instrument_with_distribution(&z_measurement(), &vec![0], (0.3f64).to_bits())
        .unwrap();
    assert_eq!(outcome, 0);
    let amps = state_amps(&sim);
    assert!((amps[0].0 - 1.0).abs() < 1e-9);
    assert!(amps[1].0.abs() < 1e-9);
    assert!((trace(&sim) - 0.5).abs() < 1e-9);
}

#[test]
fn hadamard_then_measure_outcome_one() {
    let mut sim = StateVectorSimulator::new(1);
    sim.apply_operation_with_distribution(&hadamard_op(), &vec![0], (0.5f64).to_bits())
        .unwrap();
    let outcome = sim
        .sample_instrument_with_distribution(&z_measurement(), &vec![0], (0.7f64).to_bits())
        .unwrap();
    assert_eq!(outcome, 1);
    let amps = state_amps(&sim);
    assert!(amps[0].0.abs() < 1e-9);
    assert!((amps[1].0 - 1.0).abs() < 1e-9);
    assert!((trace(&sim) - 0.5).abs() < 1e-9);
}

#[test]
fn unitary_then_its_inverse_restores_the_state() {
    let mut sim = StateVectorSimulator::new(1);
    sim.apply_operation_with_distribution(&hadamard_op(), &vec![0], (0.5f64).to_bits())
        .unwrap();
    sim.apply_operation_with_distribution(&hadamard_op(), &vec![0], (0.5f64).to_bits())
        .unwrap();
    let amps = state_amps(&sim);
    assert!((amps[0].0 - 1.0).abs() < 1e-9);
    assert!(amps[1].0.abs() < 1e-9);
    assert!((norm_sq(&sim) - 1.0).abs() < 1e-9);
}

#[test]
fn norm_stays_one_after_every_successful_mutation() {
    let mut sim = StateVectorSimulator::new(1);
    for u in [0.1f64, 0.4, 0.8] {
        sim.apply_operation_with_distribution(&hadamard_op(), &vec![0], u.to_bits())
            .unwrap();
        assert!((norm_sq(&sim) - 1.0).abs() < 1e-9);
    }
    sim.sample_instrument_with_distribution(&z_measurement(), &vec![0], (0.2f64).to_bits())
        .unwrap();
    assert!((norm_sq(&sim) - 1.0).abs() < 1e-9);
}

#[test]
fn trace_change_is_the_product_of_effect_probabilities() {
    // an operation of effect probability one half on a normalized state
    let s = 0.5f64.sqrt();
    let half_effect = mat2([0.5, 0.0, 0.0, 0.5]);
    let op = Operation::new(half_effect, vec![mat2([s, 0.0, 0.0, s])]).unwrap();
    let mut sim = StateVectorSimulator::new(1);
    sim.apply_operation_with_distribution(&op, &vec![0], (0.3f64).to_bits())
        .unwrap();
    assert!((trace(&sim) - 0.5).abs() < 1e-12);
    let half_effect = mat2([0.5, 0.0, 0.0, 0.5]);
    let op = Operation::new(half_effect, vec![mat2([s, 0.0, 0.0, s])]).unwrap();
    sim.apply_operation_with_distribution(&op, &vec![0], (0.3f64).to_bits())
        .unwrap();
    assert!((trace(&sim) - 0.25).abs() < 1e-12);
}

#[test]
fn cnot_on_two_qubits_is_deterministic() {
    // amplitude order: index bit zero is qubit zero; the matrix flips the
    // second qubit when the first is set
    let cnot = mat4([
        1.0, 0.0, 0.0, 0.0,
        0.0, 0.0, 0.0, 1.0,
        0.0, 0.0, 1.0, 0.0,
        0.0, 1.0, 0.0, 0.0,
    ]);
    let id4 = mat4([
        1.0, 0.0, 0.0, 0.0,
        0.0, 1.0, 0.0, 0.0,
        0.0, 0.0, 1.0, 0.0,
        0.0, 0.0, 0.0, 1.0,
    ]);
    let op = Operation::new(id4, vec![cnot]).unwrap();
    let mut sim = StateVectorSimulator::new(2);
    let data = vec![c(0.0, 0.0), c(1.0, 0.0), c(0.0, 0.0), c(0.0, 0.0)];
    let mut padded = data.clone();
    padded.extend(vec![c(0.0, 0.0); 12]);
    let sv = StateVector::try_from(4, 2, (1.0f64).to_bits(), padded).unwrap();
    sim.set_state(sv).unwrap();
    sim.apply_operation_with_distribution(&op, &vec![0, 1], (0.5f64).to_bits())
        .unwrap();
    let amps = state_amps(&sim);
    assert!(amps[0].0.abs() < 1e-9 && amps[1].0.abs() < 1e-9 && amps[2].0.abs() < 1e-9);
    assert!((amps[3].0 - 1.0).abs() < 1e-9);
}

#[test]
fn bit_flip_channel_frequencies_converge() {
    let x_flip = mat2([0.0, 0.1f64.sqrt(), 0.1f64.sqrt(), 0.0]);
    let keep = mat2([0.9f64.sqrt(), 0.0, 0.0, 0.9f64.sqrt()]);
    let mut flipped = 0usize;
    for k in 0..100 {
        let u = (k as f64 + 0.5) / 100.0;
        let op = Operation::new(identity2(), vec![keep.duplicate(), x_flip.duplicate()]).unwrap();
        let inst = Instrument::new(vec![op]).unwrap();
        let mut sim = StateVectorSimulator::new(1);
        sim.apply_instrument_with_distribution(&inst, &vec![0], u.to_bits())
            .unwrap();
        let amps = state_amps(&sim);
        if (amps[1].0.abs() - 1.0).abs() < 1e-9 {
            flipped += 1;
        }
        assert!((norm_sq(&sim) - 1.0).abs() < 1e-9);
    }
    assert!(flipped >= 8 && flipped <= 12);
}

#[test]
fn zero_effect_operation_poisons_and_set_state_recovers() {
    let zero = || mat2([0.0, 0.0, 0.0, 0.0]);
    let op = Operation::new(zero(), vec![zero()]).unwrap();
    let mut sim = StateVectorSimulator::new(1);
    let err = sim
        .apply_operation_with_distribution(&op, &vec![0], (0.5f64).to_bits())
        .unwrap_err();
    assert_eq!(err, Error::ProbabilityZeroEvent);
    // the poison is sticky: state-dependent calls keep returning it
    assert_eq!(sim.trace_change().unwrap_err(), Error::ProbabilityZeroEvent);
    assert_eq!(*sim.state().unwrap_err(), Error::ProbabilityZeroEvent);
    let err = sim
        .apply_operation_with_distribution(&hadamard_op(), &vec![0], (0.5f64).to_bits())
        .unwrap_err();
    assert_eq!(err, Error::ProbabilityZeroEvent);
    // set_state is the sole recovery path
    sim.set_state(StateVector::new(1)).unwrap();
    assert!(sim.state().is_ok());
    assert_eq!(trace(&sim), 1.0);
}

#[test]
fn set_state_rejects_wrong_dimension() {
    let mut sim = StateVectorSimulator::new(2);
    let err = sim.set_state(StateVector::new(3)).unwrap_err();
    assert!(matches!(
        err,
        Error::InvalidState(InvalidStateKind::WrongDimension { expected: 4, got: 8 })
    ));
}

#[test]
fn set_state_rejects_unnormalized_state() {
    let mut sim = StateVectorSimulator::new(1);
    let data = vec![c(0.5, 0.0), c(0.0, 0.0), c(0.0, 0.0), c(0.0, 0.0)];
    let sv = StateVector::try_from(2, 1, (1.0f64).to_bits(), data).unwrap();
    let err = sim.set_state(sv).unwrap_err();
    assert!(matches!(
        err,
        Error::InvalidState(InvalidStateKind::StateNotNormalized { .. })
    ));
}

#[test]
fn set_trace_bounds() {
    let mut sim = StateVectorSimulator::new(1);
    for bad in [0.0f64, -0.1, 1.5] {
        let err = sim.set_trace(bad.to_bits()).unwrap_err();
        assert_eq!(err, Error::NotNormalized(bad.to_bits()));
    }
    for good in [0.5f64, 1.0] {
        sim.set_trace(good.to_bits()).unwrap();
        assert_eq!(trace(&sim), good);
    }
}

#[test]
fn set_state_of_current_state_is_a_no_op() {
    let mut sim = StateVectorSimulator::new(1);
    sim.apply_operation_with_distribution(&hadamard_op(), &vec![0], (0.5f64).to_bits())
        .unwrap();
    let before = state_amps(&sim);
    let copy = sim.state().unwrap().clone();
    sim.set_state(copy).unwrap();
    assert_eq!(before, state_amps(&sim));
}

#[test]
fn same_sample_gives_bit_identical_results() {
    let run = || {
        let mut sim = StateVectorSimulator::new(1);
        sim.apply_operation_with_distribution(&hadamard_op(), &vec![0], (0.37f64).to_bits())
            .unwrap();
        let o = sim
            .sample_instrument_with_distribution(&z_measurement(), &vec![0], (0.37f64).to_bits())
            .unwrap();
        let bits: Vec<(u64, u64)> = sim.state().unwrap().data().iter().map(|x| (x.re, x.im)).collect();
        (o, bits, sim.trace_change().unwrap())
    };
    assert_eq!(run(), run());
}

#[test]
fn small_sample_selects_first_outcome_above_tolerance() {
    // in the one state the zero-projector outcome has probability zero, so
    // the first outcome of non-trivial probability is outcome one
    let mut sim = StateVectorSimulator::new(1);
    let data = vec![c(0.0, 0.0), c(1.0, 0.0), c(0.0, 0.0), c(0.0, 0.0)];
    let sv = StateVector::try_from(2, 1, (1.0f64).to_bits(), data).unwrap();
    sim.set_state(sv).unwrap();
    let outcome = sim
        .sample_instrument_with_distribution(&z_measurement(), &vec![0], (1e-6f64).to_bits())
        .unwrap();
    assert_eq!(outcome, 1);
    // in the ground state outcome zero already carries all the probability
    let mut sim = StateVectorSimulator::new(1);
    let outcome = sim
        .sample_instrument_with_distribution(&z_measurement(), &vec![0], (1e-6f64).to_bits())
        .unwrap();
    assert_eq!(outcome, 0);
}

#[test]
fn sample_at_exactly_zero_rescales_to_the_strict_boundary() {
    // at a sample of exactly zero the residual mass rescales to exactly
    // one, which the strict cumulative comparison never exceeds: the inner
    // sampling reports the inconsistency rather than selecting a branch
    let mut sim = StateVectorSimulator::new(1);
    let err = sim
        .sample_instrument_with_distribution(&z_measurement(), &vec![0], (0.0f64).to_bits())
        .unwrap_err();
    assert_eq!(err, Error::FailedToSampleKrausOperators);
}

#[test]
fn sample_near_one_takes_the_fallback_and_stays_normalized() {
    // a single Kraus branch that loses half the mass: the cumulative
    // probability never crosses the sample, and the last branch of
    // non-trivial probability is applied as the fallback
    let s = 0.5f64.sqrt();
    let op = Operation::new(identity2(), vec![mat2([s, 0.0, 0.0, s])]).unwrap();
    let mut sim = StateVectorSimulator::new(1);
    let u = 1.0f64 - 1e-16;
    sim.apply_operation_with_distribution(&op, &vec![0], u.to_bits())
        .unwrap();
    assert!((norm_sq(&sim) - 1.0).abs() < 1e-9);
}

#[test]
fn inconsistent_cumulative_sum_fails_kraus_sampling() {
    // half the mass is missing yet the sample lies within tolerance above
    // the cumulative sum's reach: the scan is inconsistent
    let s = 0.5f64.sqrt();
    let op = Operation::new(identity2(), vec![mat2([s, 0.0, 0.0, s])]).unwrap();
    let mut sim = StateVectorSimulator::new(1);
    let u = 0.5f64 + 1e-13;
    let err = sim
        .apply_operation_with_distribution(&op, &vec![0], u.to_bits())
        .unwrap_err();
    assert_eq!(err, Error::FailedToSampleKrausOperators);
}

#[test]
fn zero_instrument_fails_outcome_sampling() {
    let zero = || mat2([0.0, 0.0, 0.0, 0.0]);
    let op = Operation::new(zero(), vec![zero()]).unwrap();
    let inst = Instrument::new(vec![op]).unwrap();
    let mut sim = StateVectorSimulator::new(1);
    let err = sim
        .sample_instrument_with_distribution(&inst, &vec![0], (0.5f64).to_bits())
        .unwrap_err();
    assert_eq!(err, Error::FailedToSampleInstrumentOutcome);
    assert_eq!(sim.trace_change().unwrap_err(), Error::FailedToSampleInstrumentOutcome);
}

#[test]
fn kernel_rejections_propagate_without_poisoning() {
    let mut sim = StateVectorSimulator::new(1);
    let err = sim
        .apply_operation_with_distribution(&hadamard_op(), &vec![5], (0.5f64).to_bits())
        .unwrap_err();
    assert_eq!(err, Error::QubitIdOutOfRange);
    assert!(sim.trace_change().is_ok());
    let mut sim = StateVectorSimulator::new(2);
    let err = sim
        .apply_operation_with_distribution(&hadamard_op(), &vec![0, 1], (0.5f64).to_bits())
        .unwrap_err();
    assert_eq!(err, Error::MatrixShapeMismatch);
    let id4 = mat4([
        1.0, 0.0, 0.0, 0.0,
        0.0, 1.0, 0.0, 0.0,
        0.0, 0.0, 1.0, 0.0,
        0.0, 0.0, 0.0, 1.0,
    ]);
    let op4 = Operation::new(
        id4,
        vec![mat4([
            1.0, 0.0, 0.0, 0.0,
            0.0, 1.0, 0.0, 0.0,
            0.0, 0.0, 1.0, 0.0,
            0.0, 0.0, 0.0, 1.0,
        ])],
    )
    .unwrap();
    let mut sim = StateVectorSimulator::new(2);
    let err = sim
        .apply_operation_with_distribution(&op4, &vec![0, 0], (0.5f64).to_bits())
        .unwrap_err();
    assert_eq!(err, Error::DuplicateQubitIds);
    assert!(sim.trace_change().is_ok());
}

#[test]
fn try_from_validates_its_arguments() {
    let ones = |n: usize| {
        let mut v = vec![c(0.0, 0.0); n];
        v[0] = c(1.0, 0.0);
        v
    };
    assert!(StateVector::try_from(2, 1, (1.0f64).to_bits(), ones(4)).is_some());
    // a dimension that is not two to the number of qubits
    assert!(StateVector::try_from(3, 1, (1.0f64).to_bits(), ones(9)).is_none());
    // a buffer that is not the dimension squared
    assert!(StateVector::try_from(2, 1, (1.0f64).to_bits(), ones(2)).is_none());
    // only the first dim entries are kept as amplitudes
    let sv = StateVector::try_from(2, 1, (0.5f64).to_bits(), ones(4)).unwrap();
    assert_eq!(sv.data().len(), 2);
    assert_eq!(f64::from_bits(sv.trace_change()), 0.5);
    assert_eq!(sv.dim(), 2);
    assert_eq!(sv.number_of_qubits(), 1);
}

#[test]
fn instrument_totals_its_operations() {
    let inst = z_measurement();
    let total = inst.total_effect();
    assert_eq!(total.side(), 2);
    assert_eq!(amp(total.at(0, 0)).0, 1.0);
    assert_eq!(amp(total.at(1, 1)).0, 1.0);
    assert_eq!(amp(total.at(0, 1)).0, 0.0);
    assert_eq!(amp(total.at(1, 0)).0, 0.0);
    assert_eq!(inst.num_operations(), 2);
    assert_eq!(inst.non_selective_kraus_operators().len(), 2);
}

#[test]
fn x_gate_on_the_second_qubit_moves_the_right_amplitude() {
    let x = mat2([0.0, 1.0, 1.0, 0.0]);
    let op = Operation::new(identity2(), vec![x]).unwrap();
    let mut sim = StateVectorSimulator::new(2);
    sim.apply_operation_with_distribution(&op, &vec![1], (0.5f64).to_bits())
        .unwrap();
    let amps = state_amps(&sim);
    assert!(amps[0].0.abs() < 1e-9 && amps[1].0.abs() < 1e-9 && amps[3].0.abs() < 1e-9);
    assert!((amps[2].0 - 1.0).abs() < 1e-9);
}

#[test]
fn set_trace_checks_bounds_before_the_poisoned_slot() {
    let zero = || mat2([0.0, 0.0, 0.0, 0.0]);
    let op = Operation::new(zero(), vec![zero()]).unwrap();
    let mut sim = StateVectorSimulator::new(1);
    sim.apply_operation_with_distribution(&op, &vec![0], (0.5f64).to_bits())
        .unwrap_err();
    // an out-of-bounds trace is rejected before the stored error is read
    let err = sim.set_trace((0.0f64).to_bits()).unwrap_err();
    assert_eq!(err, Error::NotNormalized((0.0f64).to_bits()));
    // a trace within bounds reaches the poisoned slot and returns its error
    let err = sim.set_trace((0.5f64).to_bits()).unwrap_err();
    assert_eq!(err, Error::ProbabilityZeroEvent);
}

#[test]
fn random_entry_points_keep_the_state_normalized() {
    let mut sim = StateVectorSimulator::new(1);
    sim.apply_operation(&hadamard_op(), &vec![0]).unwrap();
    assert!((norm_sq(&sim) - 1.0).abs() < 1e-9);
    let outcome = sim.sample_instrument(&z_measurement(), &vec![0]).unwrap();
    assert!(outcome == 0 || outcome == 1);
    assert!((norm_sq(&sim) - 1.0).abs() < 1e-9);
    let mut sim2 = StateVectorSimulator::new(1);
    sim2.apply_instrument(&z_measurement(), &vec![0]).unwrap();
    assert!((norm_sq(&sim2) - 1.0).abs() < 1e-9);
}
