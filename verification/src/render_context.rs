//! Errors of buffer creation.

use vstd::prelude::*;
use vstd::std_specs::convert::FromSpecImpl;

verus! {

/// `anyhow::Error`, carried by `BufferError::Other`; nothing inside it is read here.
#[verifier::external_type_specification]
#[verifier::external_body]
pub struct ExAnyhowError(anyhow::Error);

/// Why a buffer could not be created.
#[derive(Debug)]
pub enum BufferError {
    /// Buffer allocation failed due to memory constraints
    OutOfMemory,
    /// Unknown error occurred
    Other(anyhow::Error),
}

impl From<anyhow::Error> for BufferError {
    fn from(e: anyhow::Error) -> (r: BufferError) {
        BufferError::Other(e)
    }
}

impl FromSpecImpl<anyhow::Error> for BufferError {
    open spec fn obeys_from_spec() -> bool {
        true
    }

    open spec fn from_spec(e: anyhow::Error) -> BufferError {
        BufferError::Other(e)
    }
}

} // verus!
