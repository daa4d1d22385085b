//! A segregated, line-granularity bump allocator in the style of Immix.
//!
//! Memory is acquired in fixed-size, power-of-two blocks.  Each block is
//! subdivided into lines; a line-mark table records which lines still hold
//! live data.  Allocation bumps a cursor downward through a known-free hole
//! and, when the hole is exhausted, searches the mark table for the next
//! usable run of unmarked lines, keeping one conservative buffer line after
//! every marked line.  A block set routes medium-sized requests that do not
//! fit the head block to an overflow block, and a heap facade lays objects
//! out as a fixed-size header followed by the payload.
//!
//! Addresses are arena-relative: a handle names a block by index and a byte
//! offset inside it, so all pointer arithmetic is plain integer arithmetic.

pub mod constants;
pub mod errors;
pub mod block;
pub mod meta;
pub mod bump;
pub mod size_class;
pub mod header;
pub mod blocklist;
pub mod heap;
