//! The size classifier: maps a rounded allocation size to a size class and
//! validates it against what this configuration can represent.

use vstd::prelude::*;
use crate::constants::{BLOCK_CAPACITY, LINE_SIZE};
use crate::errors::AllocError;

verus! {

/// Largest byte size the classifier can represent at all: the maximum
/// array length, which is carried in a 32-bit header field.
pub const MAX_ALLOC_SIZE: u64 = 0xFFFF_FFFF;

/// Classification of a rounded allocation size.
#[derive(Clone, Copy, Debug, PartialEq, Eq, Structural)]
pub enum SizeClass {
    /// Fits within one line.
    Small,
    /// Spans multiple lines but fits within one block.
    Medium,
    /// Exceeds the capacity of a block; its backing strategy is an
    /// extension point, not served by the block set.
    Large,
}

/// The class a given size falls in, when it is representable.
pub open spec fn spec_size_class(size: int) -> SizeClass {
    if size <= LINE_SIZE {
        SizeClass::Small
    } else if size <= BLOCK_CAPACITY {
        SizeClass::Medium
    } else {
        SizeClass::Large
    }
}

impl SizeClass {
    /// Classifies `size`, failing with `SizeNotSupported` if and only if
    /// the size exceeds the largest representable allocation.
    pub fn get_for_size(size: usize) -> (r: Result<SizeClass, AllocError>)
        ensures
            size as u64 <= MAX_ALLOC_SIZE ==> r == Ok::<SizeClass, AllocError>(
                spec_size_class(size as int),
            ),
            size as u64 > MAX_ALLOC_SIZE ==> r == Err::<SizeClass, AllocError>(
                AllocError::SizeNotSupported,
            ),
    {
        if size as u64 > MAX_ALLOC_SIZE {
            Err(AllocError::SizeNotSupported)
        } else if size <= LINE_SIZE {
            Ok(SizeClass::Small)
        } else if size <= BLOCK_CAPACITY {
            Ok(SizeClass::Medium)
        } else {
            Ok(SizeClass::Large)
        }
    }
}

} // verus!
