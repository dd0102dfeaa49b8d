//! The algebraic core of a STARK prover and verifier over the Goldilocks
//! field and its quadratic extension:
//!
//! - `field`: base field and extension arithmetic;
//! - `consumer`, `frame`: constraint accumulation over an evaluation frame;
//! - `stark`, `fibonacci`: the AIR interface, and a Fibonacci AIR with a lookup;
//! - `lookup`: the logarithmic-derivative lookup argument;
//! - `vanishing`: an AIR's constraints together with its lookups';
//! - `prover`: constraint checks on the trace, quotient values on the coset,
//!   quotient chunks and openings;
//! - `proof_data`, `stark_verifier`: the proof's contents and the verifier's
//!   shape and vanishing-identity checks;
//! - `gates`: a constant gate and a no-op gate.

pub mod consumer;
pub mod fibonacci;
pub mod field;
pub mod frame;
pub mod gates;
pub mod lookup;
pub mod proof_data;
pub mod prover;
pub mod stark;
pub mod stark_verifier;
pub mod vanishing;
