//! A noisy quantum circuit simulator core: a pure-state amplitude vector
//! evolved by stochastic quantum operations (unitaries, channels and
//! measurements), with trace accounting and renormalization after every step.
//!
//! Real scalars are IEEE binary64 values carried by their bit patterns in
//! `u64`; the arithmetic itself is performed by an IEEE-754 software
//! implementation behind a small trusted layer (see `fp`).

use vstd::prelude::*;

pub mod fp;
pub mod cx;
pub mod mat;
pub mod kernel;
pub mod state_vector;
pub mod simulator;
pub mod laws;

verus! {

/// Bit pattern of the IEEE double one.
pub const F64_ONE: u64 = 0x3FF0_0000_0000_0000;
/// Bit pattern of the IEEE double one half.
pub const F64_HALF: u64 = 0x3FE0_0000_0000_0000;
/// Bit pattern of the IEEE double three halves.
pub const F64_THREE_HALVES: u64 = 0x3FF8_0000_0000_0000;
/// Bit pattern of the IEEE double two to the minus fifty-third power.
pub const F64_TWO_POW_NEG53: u64 = 0x3CA0_0000_0000_0000;
/// Bit pattern of the IEEE double zero.
pub const F64_ZERO: u64 = 0;
/// Bit pattern of the tolerance used uniformly for normalization checks,
/// zero-probability detection and cumulative-probability comparisons:
/// one part in ten to the twelfth.
pub const TOLERANCE_BITS: u64 = 0x3D71_9799_812D_EA11;
/// Seed constant for the inverse-square-root refinement (the classic
/// bit-level first guess for IEEE doubles).
pub const RSQRT_SEED_MAGIC: u64 = 0x5FE6_EB50_C7B5_37A9;

/// The reason a replacement state was rejected.
#[derive(Clone, Copy, PartialEq, Eq, Structural, Debug)]
pub enum InvalidStateKind {
    /// The replacement state's dimension differs from the simulator's.
    WrongDimension { expected: usize, got: usize },
    /// The replacement state's squared norm (given by its bit pattern)
    /// is not within tolerance of one.
    StateNotNormalized { norm_squared: u64 },
}

/// Everything that can go wrong while evolving the state.
#[derive(Clone, Copy, PartialEq, Eq, Structural, Debug)]
pub enum Error {
    /// Renormalization was attempted on a vector of near-zero norm.
    ProbabilityZeroEvent,
    /// The cumulative branch probabilities were inconsistent in the
    /// Kraus-operator sampling loop.
    FailedToSampleKrausOperators,
    /// The cumulative outcome probabilities were inconsistent in the
    /// instrument outcome loop.
    FailedToSampleInstrumentOutcome,
    /// A replacement state was rejected before being installed.
    InvalidState(InvalidStateKind),
    /// An illegal trace value (its bit pattern is carried) was passed.
    NotNormalized(u64),
    /// A qubit index addresses a bit outside the state vector.
    QubitIdOutOfRange,
    /// The same qubit index was passed twice.
    DuplicateQubitIds,
    /// The matrix's side disagrees with two to the number of qubits.
    MatrixShapeMismatch,
}

/// Computes two to the power `e` as a machine word.
pub fn pow2_exec(e: usize) -> (r: usize)
    requires
        vstd::arithmetic::power2::pow2(e as nat) <= usize::MAX,
    ensures
        r as nat == vstd::arithmetic::power2::pow2(e as nat),
{
    proof {
        vstd::arithmetic::power2::lemma2_to64();
    }
    let mut r: usize = 1;
    let mut j: usize = 0;
    while j < e
        invariant
            j <= e,
            r as nat == vstd::arithmetic::power2::pow2(j as nat),
            vstd::arithmetic::power2::pow2(e as nat) <= usize::MAX,
        decreases e - j,
    {
        proof {
            vstd::arithmetic::power2::lemma_pow2_adds(j as nat, 1);
            vstd::arithmetic::power2::lemma2_to64();
            if ((j + 1) as nat) < e as nat {
                vstd::arithmetic::power2::lemma_pow2_strictly_increases(
                    (j + 1) as nat,
                    e as nat,
                );
            }
        }
        r = r * 2;
        j = j + 1;
    }
    r
}

} // verus!
