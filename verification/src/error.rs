//! Errors of commitment operations.
use vstd::prelude::*;

use ark_serialize::SerializationError;

verus! {

/// The error `ark_serialize` reports when a value cannot be serialized.
#[verifier::external_type_specification]
#[verifier::external_body]
pub struct ExSerializationError(SerializationError);

/// The error a `rand` random number generator reports when it cannot produce bytes.
#[verifier::external_type_specification]
#[verifier::external_body]
pub struct ExRandError(rand::Error);

/// Errors that can occur in commitment operations.
#[derive(Debug)]
pub enum CommitmentError {
    /// The witness to be committed has the wrong length: found, expected.
    WrongWitnessLength(usize, usize),
    /// The commitment to a witness has the wrong length: found, expected.
    WrongCommitmentLength(usize, usize),
    /// The Ajtai commitment matrix has the wrong dimensions: found rows and
    /// columns, then expected rows and columns.
    ///
    /// An Ajtai matrix should have size commitment_length x witness_length.
    WrongAjtaiMatrixDimensions(usize, usize, usize, usize),
    /// Serialization error while preparing a commitment input.
    Serialization(SerializationError),
    /// The random number generator failed while sampling a key.
    KeySampling(rand::Error),
}

} // verus!
