//! The heap facade: lays out header and payload, consults the size
//! classifier and the block set, writes the object, and hands back a
//! handle to the payload.
//!
//! A handle is arena-relative: the index of the owning block in the block
//! set's region table, and a byte offset inside that block.  The header
//! always sits exactly `HEADER_SIZE` bytes below the payload; that fixed
//! offset is the sole mechanism for finding an object's metadata.

use vstd::prelude::*;
use crate::constants::{ALLOC_ALIGN, BLOCK_CAPACITY, BLOCK_SIZE, HEADER_SIZE};
use crate::blocklist::{region_mut, BlockList};
use crate::bump::{spec_align_down, spec_inner_alloc, BumpBlock};
use crate::errors::AllocError;
use crate::header::{Mark, ObjectHeader};
use crate::size_class::{spec_size_class, SizeClass};

verus! {

/// An opaque, arena-relative reference to a byte position in the heap.
#[derive(Clone, Copy, Debug, PartialEq, Eq, Structural)]
pub struct RawPtr {
    /// Index of the owning block in the region table.
    pub block: usize,
    /// Byte offset inside that block.
    pub offset: usize,
}

/// The header position of a payload position: one header width below.
pub open spec fn spec_header_of(p: RawPtr) -> RawPtr {
    RawPtr { block: p.block, offset: (p.offset - HEADER_SIZE) as usize }
}

/// The payload position of a header position: one header width above.
pub open spec fn spec_payload_of(p: RawPtr) -> RawPtr {
    RawPtr { block: p.block, offset: (p.offset + HEADER_SIZE) as usize }
}

/// Header and payload positions are mutual inverses: each is exactly one
/// header width away from the other, in the same block.
pub proof fn lemma_header_payload_round_trip(p: RawPtr)
    requires
        HEADER_SIZE <= p.offset,
        p.offset + HEADER_SIZE <= usize::MAX,
    ensures
        spec_payload_of(spec_header_of(p)) == p,
        spec_header_of(spec_payload_of(p)) == p,
{
}

/// The position a handle names in the flat address space of the arena:
/// every block occupies one `BLOCK_SIZE`-sized slot at its index.
pub open spec fn spec_flat_addr(p: RawPtr) -> int {
    p.block * BLOCK_SIZE + p.offset
}

/// Every block's base in the flat address space is aligned to the block
/// size, by construction of the arena.
pub proof fn lemma_block_base_aligned(block: usize)
    ensures
        spec_flat_addr(RawPtr { block, offset: 0 }) % (BLOCK_SIZE as int) == 0,
{
    assert((block * BLOCK_SIZE + 0) % (BLOCK_SIZE as int) == 0) by (nonlinear_arith)
        requires
            BLOCK_SIZE as int > 0,
    ;
}

/// `total` rounded up to the allocation alignment.
pub open spec fn spec_round_up(total: int) -> int {
    ((total + ALLOC_ALIGN - 1) / (ALLOC_ALIGN as int)) * (ALLOC_ALIGN as int)
}

/// Rounding up reaches at least the total and keeps alignment.
pub proof fn lemma_round_up_props(total: int)
    requires
        0 <= total,
    ensures
        total <= spec_round_up(total),
        spec_round_up(total) < total + ALLOC_ALIGN,
        spec_round_up(total) % (ALLOC_ALIGN as int) == 0,
{
    assert(total <= ((total + ALLOC_ALIGN - 1) / (ALLOC_ALIGN as int)) * (ALLOC_ALIGN as int)
        && ((total + ALLOC_ALIGN - 1) / (ALLOC_ALIGN as int)) * (ALLOC_ALIGN as int) < total
        + ALLOC_ALIGN && (((total + ALLOC_ALIGN - 1) / (ALLOC_ALIGN as int)) * (
    ALLOC_ALIGN as int)) % (ALLOC_ALIGN as int) == 0) by (nonlinear_arith)
        requires
            0 <= total,
            ALLOC_ALIGN as int > 0,
    ;
}

/// The heap facade and owner of all allocator state.
pub struct StickyImmixHeap {
    /// Every block the heap owns, with the head and overflow targets.
    pub blocks: BlockList,
}

impl StickyImmixHeap {
    /// The heap is well formed when its block set is.
    pub open spec fn wf(&self) -> bool {
        self.blocks.wf()
    }

    /// An empty heap: no blocks acquired yet.
    pub fn new() -> (r: StickyImmixHeap)
        ensures
            r.wf(),
            r.blocks.regions@.len() == 0,
            r.blocks.head is None,
            r.blocks.overflow is None,
    {
        StickyImmixHeap { blocks: BlockList::new() }
    }

    /// Finds space for a rounded request.  A request no larger than a
    /// block always succeeds in this arena model.  A `Medium` request
    /// larger than the head's current hole is served away from the head,
    /// which it leaves untouched.
    pub fn find_space(&mut self, alloc_size: usize, size_class: SizeClass) -> (r: Result<
        RawPtr,
        AllocError,
    >)
        requires
            old(self).wf(),
            alloc_size <= BLOCK_SIZE,
        ensures
            final(self).wf(),
            r is Ok,
            old(self).blocks.regions@.len() <= final(self).blocks.regions@.len(),
            forall|i: int|
                0 <= i < old(self).blocks.regions@.len() ==> final(self).blocks.regions@[i].block
                    == old(self).blocks.regions@[i].block && final(self).blocks.regions@[i].meta
                    == old(self).blocks.regions@[i].meta,
            r matches Ok(p) ==> {
                &&& p.block < final(self).blocks.regions@.len()
                &&& p.offset % ALLOC_ALIGN == 0
                &&& p.offset + alloc_size <= BLOCK_SIZE
                &&& (final(self).blocks.regions@[p.block as int]).wf()
                &&& p.offset == final(self).blocks.regions@[p.block as int].cursor
                &&& final(self).blocks.regions@[p.block as int].limit <= p.offset
            },
            // Cursors and limits of pre-existing regions never move up, so
            // a span once reserved is never handed out again.
            forall|i: int|
                0 <= i < old(self).blocks.regions@.len()
                    ==> final(self).blocks.regions@[i].cursor
                    <= old(self).blocks.regions@[i].cursor
                    && final(self).blocks.regions@[i].limit
                    <= old(self).blocks.regions@[i].limit,
            // A Medium request larger than the head's currently known hole
            // is routed to the overflow region and leaves the head alone.
            old(self).blocks.head matches Some(h) ==> ((size_class == SizeClass::Medium
                && alloc_size > old(self).blocks.regions@[h as int].cursor - old(
                self,
            ).blocks.regions@[h as int].limit) ==> {
                &&& final(self).blocks.regions@[h as int] == old(self).blocks.regions@[h as int]
                &&& final(self).blocks.head == old(self).blocks.head
                &&& (r matches Ok(p) ==> p.block != h && final(self).blocks.overflow == Some(
                    p.block,
                ))
            }),
            // Every other request is served from the head itself when the
            // head can hold it; only an exhausted head falls back to the
            // overflow path.
            old(self).blocks.head matches Some(h) ==> ((size_class != SizeClass::Medium
                || alloc_size <= old(self).blocks.regions@[h as int].cursor - old(
                self,
            ).blocks.regions@[h as int].limit) ==> ({
                let (res, c2, l2) = spec_inner_alloc(
                    old(self).blocks.regions@[h as int].meta@,
                    old(self).blocks.regions@[h as int].cursor as int,
                    old(self).blocks.regions@[h as int].limit as int,
                    alloc_size as int,
                );
                &&& (res is Some ==> {
                    &&& final(self).blocks.regions@.len() == old(self).blocks.regions@.len()
                    &&& final(self).blocks.overflow == old(self).blocks.overflow
                    &&& final(self).blocks.head == old(self).blocks.head
                    &&& (forall|i: int|
                        0 <= i < old(self).blocks.regions@.len() && i != h
                            ==> final(self).blocks.regions@[i]
                            == old(self).blocks.regions@[i])
                    &&& (r matches Ok(p) ==> p.block == h && res == Some(p.offset as int))
                })
                &&& (res is None ==> (r matches Ok(p) ==> p.block != h
                    && final(self).blocks.overflow == Some(p.block)))
            })),
            // Bootstrap: with no head yet, a region is acquired the same
            // way the overflow path acquires one, installed as the head,
            // and the allocation is served from it.
            old(self).blocks.head is None ==> {
                &&& final(self).blocks.regions@.len() == old(self).blocks.regions@.len() + 1
                &&& final(self).blocks.overflow == old(self).blocks.overflow
                &&& (r matches Ok(p) ==> {
                    &&& final(self).blocks.head == Some(p.block)
                    &&& p.block == old(self).blocks.regions@.len()
                    &&& p.offset as int == spec_align_down(BLOCK_SIZE - alloc_size)
                })
            },
    {
        match self.blocks.head {
            Some(h) => {
                let hole_size = self.blocks.regions[h].current_hole_size();
                if size_class == SizeClass::Medium && alloc_size > hole_size {
                    let (idx, off) = match self.blocks.overflow_alloc(alloc_size) {
                        Ok(x) => x,
                        Err(e) => {
                            return Err(e);
                        },
                    };
                    return Ok(RawPtr { block: idx, offset: off });
                }
                let got = {
                    let reg = region_mut(&mut self.blocks.regions, h);
                    reg.inner_alloc(alloc_size)
                };
                match got {
                    Some(off) => Ok(RawPtr { block: h, offset: off }),
                    None => {
                        // The head itself is exhausted: fail open by
                        // falling back to the overflow path.
                        let (idx, off) = match self.blocks.overflow_alloc(alloc_size) {
                            Ok(x) => x,
                            Err(e) => {
                                return Err(e);
                            },
                        };
                        Ok(RawPtr { block: idx, offset: off })
                    },
                }
            },
            None => {
                // No head yet: bootstrap one with the same acquisition
                // logic the overflow path uses.
                let mut fresh = match BumpBlock::new() {
                    Ok(b) => b,
                    Err(e) => {
                        return Err(e);
                    },
                };
                proof {
                    crate::blocklist::lemma_fresh_alloc_succeeds(fresh.meta@, alloc_size as int);
                }
                let off = match fresh.inner_alloc(alloc_size) {
                    Some(o) => o,
                    None => {
                        return Err(AllocError::OutOfMemory);
                    },
                };
                let idx = self.blocks.regions.len();
                self.blocks.regions.push(fresh);
                self.blocks.head = Some(idx);
                Ok(RawPtr { block: idx, offset: off })
            },
        }
    }

    /// Allocates an object: writes a header carrying `type_id`, the
    /// payload size, the size class and the `Allocated` mark, then the
    /// payload bytes, and returns a handle to the payload.  Fails, leaving
    /// the heap untouched, exactly when the rounded header-plus-payload
    /// span exceeds the block capacity.
    pub fn allocate_object(&mut self, type_id: u16, object: &Vec<u8>) -> (r: Result<RawPtr, AllocError>)
        requires
            old(self).wf(),
        ensures
            final(self).wf(),
            r is Ok <==> spec_round_up(HEADER_SIZE + object@.len()) <= BLOCK_CAPACITY,
            r is Err ==> *final(self) == *old(self) && r == Err::<RawPtr, AllocError>(
                AllocError::SizeNotSupported,
            ),
            r matches Ok(p) ==> {
                &&& p.block < final(self).blocks.regions@.len()
                &&& HEADER_SIZE <= p.offset
                &&& p.offset + object@.len() <= BLOCK_SIZE
                &&& (p.offset - HEADER_SIZE) % (ALLOC_ALIGN as int) == 0
                &&& forall|i: int|
                    0 <= i < object@.len()
                        ==> final(self).blocks.regions@[p.block as int].block@[p.offset + i]
                        == #[trigger] object@[i]
                &&& forall|i: int|
                    0 <= i < HEADER_SIZE
                        ==> final(self).blocks.regions@[p.block as int].block@[p.offset
                        - HEADER_SIZE + i] == #[trigger] (ObjectHeader {
                        type_id,
                        size: object@.len() as u32,
                        size_class: spec_size_class(
                            spec_round_up(HEADER_SIZE + object@.len()),
                        ),
                        mark: Mark::Allocated,
                    }).spec_encode()[i]
            },
    {
        if object.len() > BLOCK_CAPACITY {
            proof {
                lemma_round_up_props((HEADER_SIZE + object@.len()) as int);
            }
            return Err(AllocError::SizeNotSupported);
        }
        let total = HEADER_SIZE + object.len();
        let alloc_size = ((total + ALLOC_ALIGN - 1) / ALLOC_ALIGN) * ALLOC_ALIGN;
        proof {
            lemma_round_up_props(total as int);
        }
        let size_class = match SizeClass::get_for_size(alloc_size) {
            Ok(c) => c,
            Err(_) => {
                return Err(AllocError::SizeNotSupported);
            },
        };
        if alloc_size > BLOCK_CAPACITY {
            return Err(AllocError::SizeNotSupported);
        }
        let p = match self.find_space(alloc_size, size_class) {
            Ok(p) => p,
            Err(e) => {
                return Err(e);
            },
        };
        let header = ObjectHeader {
            type_id,
            size: object.len() as u32,
            size_class,
            mark: Mark::Allocated,
        };
        let hbytes = header.encode();
        let reg = region_mut(&mut self.blocks.regions, p.block);
        reg.write(p.offset, &hbytes);
        reg.write(p.offset + HEADER_SIZE, object);
        Ok(RawPtr { block: p.block, offset: p.offset + HEADER_SIZE })
    }

    /// Allocates a zero-filled array of `size_bytes` bytes: identical
    /// layout to `alloc`, but the payload is explicitly zeroed, since the
    /// memory provider does not hand out zeroed blocks.
    pub fn alloc_array(&mut self, size_bytes: u32) -> (r: Result<RawPtr, AllocError>)
        requires
            old(self).wf(),
        ensures
            final(self).wf(),
            r is Ok <==> spec_round_up(HEADER_SIZE + size_bytes) <= BLOCK_CAPACITY,
            r is Err ==> *final(self) == *old(self) && r == Err::<RawPtr, AllocError>(
                AllocError::SizeNotSupported,
            ),
            r matches Ok(p) ==> {
                &&& p.block < final(self).blocks.regions@.len()
                &&& HEADER_SIZE <= p.offset
                &&& p.offset + size_bytes <= BLOCK_SIZE
                &&& (p.offset - HEADER_SIZE) % (ALLOC_ALIGN as int) == 0
                &&& forall|j: int|
                    p.offset <= j < p.offset + size_bytes
                        ==> final(self).blocks.regions@[p.block as int].block@[j] == 0
                &&& forall|i: int|
                    0 <= i < HEADER_SIZE
                        ==> final(self).blocks.regions@[p.block as int].block@[p.offset
                        - HEADER_SIZE + i] == #[trigger] (ObjectHeader {
                        type_id: 0,
                        size: size_bytes,
                        size_class: spec_size_class(spec_round_up(HEADER_SIZE + size_bytes)),
                        mark: Mark::Allocated,
                    }).spec_encode()[i]
            },
    {
        let len = size_bytes as usize;
        if len > BLOCK_CAPACITY {
            proof {
                lemma_round_up_props((HEADER_SIZE + len) as int);
            }
            return Err(AllocError::SizeNotSupported);
        }
        let total = HEADER_SIZE + len;
        let alloc_size = ((total + ALLOC_ALIGN - 1) / ALLOC_ALIGN) * ALLOC_ALIGN;
        proof {
            lemma_round_up_props(total as int);
        }
        let size_class = match SizeClass::get_for_size(alloc_size) {
            Ok(c) => c,
            Err(_) => {
                return Err(AllocError::SizeNotSupported);
            },
        };
        if alloc_size > BLOCK_CAPACITY {
            return Err(AllocError::SizeNotSupported);
        }
        let p = match self.find_space(alloc_size, size_class) {
            Ok(p) => p,
            Err(e) => {
                return Err(e);
            },
        };
        let header = ObjectHeader { type_id: 0, size: size_bytes, size_class, mark: Mark::Allocated };
        let hbytes = header.encode();
        let reg = region_mut(&mut self.blocks.regions, p.block);
        reg.write(p.offset, &hbytes);
        reg.fill(p.offset + HEADER_SIZE, len, 0);
        Ok(RawPtr { block: p.block, offset: p.offset + HEADER_SIZE })
    }

    /// The header position of a payload handle: pure pointer arithmetic,
    /// one header width below.
    pub fn get_header(object: RawPtr) -> (r: RawPtr)
        requires
            HEADER_SIZE <= object.offset,
        ensures
            r == spec_header_of(object),
    {
        RawPtr { block: object.block, offset: object.offset - HEADER_SIZE }
    }

    /// The payload position of a header handle: pure pointer arithmetic,
    /// one header width above.
    pub fn get_object(header: RawPtr) -> (r: RawPtr)
        requires
            header.offset + HEADER_SIZE <= BLOCK_SIZE,
        ensures
            r == spec_payload_of(header),
    {
        RawPtr { block: header.block, offset: header.offset + HEADER_SIZE }
    }

    /// Reads one byte of the heap; consultation access for the collector
    /// and for tests.
    pub fn read_byte(&self, p: RawPtr) -> (r: u8)
        requires
            self.wf(),
            p.block < self.blocks.regions@.len(),
            p.offset < BLOCK_SIZE,
        ensures
            r == self.blocks.regions@[p.block as int].block@[p.offset as int],
    {
        self.blocks.regions[p.block].block.byte_at(p.offset)
    }
}

} // verus!
