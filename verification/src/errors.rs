//! Error kinds reported by the allocator.

use vstd::prelude::*;

verus! {

/// Errors of the memory provider itself.
#[derive(Clone, Copy, Debug, PartialEq, Eq, Structural)]
pub enum BlockError {
    /// The requested block size is not a power of two.
    BadRequest,
    /// The provider could not supply the memory.
    OutOfMemory,
}

/// Errors reported to callers of the heap facade.
#[derive(Clone, Copy, Debug, PartialEq, Eq, Structural)]
pub enum AllocError {
    /// The request itself was malformed.
    BadRequest,
    /// The memory provider could not supply a fresh block when one was
    /// required.
    OutOfMemory,
    /// The requested size exceeds what this configuration can classify.
    SizeNotSupported,
}

impl AllocError {
    /// Maps a memory-provider error to the facade's error kind.
    pub fn from_block_error(e: BlockError) -> (r: AllocError)
        ensures
            e == BlockError::BadRequest ==> r == AllocError::BadRequest,
            e == BlockError::OutOfMemory ==> r == AllocError::OutOfMemory,
    {
        match e {
            BlockError::BadRequest => AllocError::BadRequest,
            BlockError::OutOfMemory => AllocError::OutOfMemory,
        }
    }
}

} // verus!
