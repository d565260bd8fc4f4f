//! A binding commitment digest from either commitment backend.
use vstd::prelude::*;

use ark_serialize::CanonicalSerialize;

use crate::error::CommitmentError;
use crate::swifft::{serialize_compressed_into, SwifftCommitment};

verus! {

/// Binding commitment digest used for backend selection.
///
/// `C` is the type of an Ajtai commitment.
#[derive(Clone, Debug, PartialEq, Eq)]
pub enum CommitmentDigest<C> {
    Ajtai(C),
    Swifft(SwifftCommitment),
}

impl<C: CanonicalSerialize> CommitmentDigest<C> {
    /// The digest as bytes: the compressed serialization of an Ajtai commitment, or the
    /// state bytes of a SWIFFT commitment.
    pub fn to_bytes(&self) -> (result: Result<Vec<u8>, CommitmentError>)
        ensures
            self matches CommitmentDigest::Swifft(c) ==> (result matches Ok(bytes) && bytes@
                == c.digest()@),
            self is Ajtai ==> (result matches Err(e) ==> e is Serialization),
    {
        match self {
            CommitmentDigest::Ajtai(commitment) => {
                let mut buf: Vec<u8> = Vec::new();
                match serialize_compressed_into(commitment, &mut buf) {
                    Ok(()) => Ok(buf),
                    Err(e) => Err(CommitmentError::Serialization(e)),
                }
            },
            CommitmentDigest::Swifft(commitment) => {
                Ok(vstd::slice::slice_to_vec(commitment.as_bytes().as_slice()))
            },
        }
    }
}

} // verus!
