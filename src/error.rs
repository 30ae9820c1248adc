//! Failures of cache operations.
use vstd::prelude::*;

verus! {

/// Why a block could not be read or written.
#[derive(Clone, Debug, PartialEq, Eq)]
pub enum DataCacheError {
    /// The object store failed; the message describes its error.
    IoFailure(String),
    /// The supplied buffer does not match its checksum.
    InvalidBlockContent,
    /// A block offset, or the offset of a streamed chunk, is not the expected one.
    InvalidBlockOffset,
}

pub type DataCacheResult<T> = Result<T, DataCacheError>;

} // verus!
