//! The failure taxonomy of the pipeline.  Every fatal condition aborts
//! the whole proving or verifying call; a proof that merely fails to
//! check is reported as a normal boolean outcome, not through this type.

use vstd::prelude::*;

verus! {

/// What can go wrong while proving or verifying.
#[derive(Clone, Copy, Debug, PartialEq, Eq, Structural)]
pub enum Error {
    /// The header line is not the expected object of four fields.
    MalformedHeader,
    /// A constraint line is not a triple of term arrays.
    MalformedConstraint,
    /// A value is not a non-negative decimal that fits the field width.
    MalformedNumber,
    /// The assignment line is not the expected object of arrays.
    MalformedAssignment,
    /// The declared field characteristic is not the backend group order.
    InvalidField,
    /// A variable index lies in the public-input range where a private
    /// variable is required, or names a witness that was never loaded.
    IndexOutOfRange,
    /// The proof envelope or the proof bytes inside it do not decode.
    CorruptProof,
    /// The backend could not produce a proof.
    ProvingFailed,
}

} // verus!
