//! A zero-knowledge proof pipeline for rank-1 constraint systems (R1CS).
//!
//! A circuit is described line by line: a header giving the constraint,
//! public-input and witness counts together with the field characteristic,
//! then one constraint per line, each a triple (A, B, C) of linear
//! combinations asserting `A * B = C`.  A prover, who knows the full
//! assignment, emits the constraints against a bulletproofs constraint
//! system and produces a proof envelope; a verifier, who knows only the
//! public inputs, replays the very same emission and checks the proof.
//! Keeping the two roles in lockstep on variable numbering is the heart
//! of the library and is what the contracts here pin down.

pub mod backend;
pub mod codec;
pub mod constraints;
pub mod envelope;
pub mod errors;
pub mod header;
pub mod jsonval;
pub mod laws;
pub mod orchestrator;
pub mod resolver;
