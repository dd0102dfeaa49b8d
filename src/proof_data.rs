//! The parts of a STARK proof that the constraint checks read: the Merkle
//! caps of the three oracles, the openings at `zeta` and `g * zeta`, and the
//! public inputs; and the challenges drawn from the transcript.

use crate::field::Ext;
use vstd::prelude::*;

verus! {

/// A hash digest, as four base field elements.
#[derive(Clone, Copy, Debug, PartialEq, Eq)]
pub struct HashOut {
    pub elements: [u64; 4],
}

/// The top `2^height` digests of a Merkle tree.
pub struct MerkleCap {
    pub hashes: Vec<HashOut>,
}

/// The openings of the committed polynomials.
pub struct StarkOpeningSet {
    /// Openings of trace polynomials at `zeta`.
    pub local_values: Vec<Ext>,
    /// Openings of trace polynomials at `g * zeta`.
    pub next_values: Vec<Ext>,
    /// Openings of lookup helper polynomials at `zeta`.
    pub auxiliary_polys: Option<Vec<Ext>>,
    /// Openings of lookup helper polynomials at `g * zeta`.
    pub auxiliary_polys_next: Option<Vec<Ext>>,
    /// Openings of quotient polynomials at `zeta`.
    pub quotient_polys: Vec<Ext>,
}

pub struct StarkProof {
    /// Merkle cap of LDEs of trace values.
    pub trace_cap: MerkleCap,
    /// Optional merkle cap of LDEs of lookup helper values.
    pub auxiliary_polys_cap: Option<MerkleCap>,
    /// Merkle cap of LDEs of quotient polynomial evaluations.
    pub quotient_polys_cap: MerkleCap,
    /// Purported values of each polynomial at the challenge point.
    pub openings: StarkOpeningSet,
}

pub struct StarkProofWithPublicInputs {
    pub proof: StarkProof,
    pub public_inputs: Vec<u64>,
}

/// The challenges of one run of the protocol.
pub struct StarkProofChallenges {
    /// The lookup challenges `gamma`, one per challenge round, where the AIR
    /// uses lookups.
    pub lookup_challenges: Option<Vec<u64>>,
    /// Random values used to combine STARK constraints.
    pub stark_alphas: Vec<u64>,
    /// Point at which the STARK polynomials are opened.
    pub stark_zeta: Ext,
}

} // verus!
