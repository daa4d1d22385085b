//! Layout constants shared by every component of the allocator.

use vstd::prelude::*;

verus! {

/// Log2 of the block size: blocks are 32 KiB.
pub const BLOCK_SIZE_BITS: usize = 15;

/// Size in bytes of one block: `1 << BLOCK_SIZE_BITS`.
pub const BLOCK_SIZE: usize = 32768;

/// Log2 of the line size: lines are 128 bytes.
pub const LINE_SIZE_BITS: usize = 7;

/// Size in bytes of one line, the unit of mark granularity:
/// `1 << LINE_SIZE_BITS`.
pub const LINE_SIZE: usize = 128;

/// Number of lines in one block: `BLOCK_SIZE / LINE_SIZE`.
pub const LINE_COUNT: usize = 256;

/// Largest rounded allocation the block set accepts: one block minus one
/// byte of mark bookkeeping per line, `BLOCK_SIZE - LINE_COUNT`.
pub const BLOCK_CAPACITY: usize = 32512;

/// Every allocation is aligned down to a multiple of this (double-word).
pub const ALLOC_ALIGN: usize = 16;

/// Number of unmarked lines kept unusable immediately after a marked line,
/// because an object in the marked line may straddle into the next line and
/// object boundaries are not tracked below line granularity.
pub const MARK_CONSERVATISM_LINES: usize = 1;

/// Size in bytes of the object header that precedes every payload.
pub const HEADER_SIZE: usize = 16;

/// The memory provider does not promise zeroed memory; in this arena model a
/// fresh block is filled with this nonzero pattern so that nothing can rely
/// on it being zero by accident.
pub const FRESH_BYTE: u8 = 0xA5;

} // verus!
