//! The block set: every block the allocator owns, with the head region,
//! the overflow region, and the retired regions kept for the collector.
//!
//! Regions live in one central table and are named by their index, which
//! is the block identifier carried in every handle.  Regions are never
//! removed: a region whose hole is exhausted simply stops being the head
//! or overflow target and stays in the table, retired, for the collection
//! phase to rescan.

use vstd::prelude::*;
use crate::constants::{ALLOC_ALIGN, BLOCK_SIZE, LINE_COUNT};
use crate::bump::{spec_align_down, spec_inner_alloc, BumpBlock};
use crate::errors::AllocError;

verus! {

/// A fresh region always satisfies its first request of up to a block.
pub proof fn lemma_fresh_alloc_succeeds(lines: Seq<u8>, size: int)
    requires
        0 <= size <= BLOCK_SIZE,
    ensures
        spec_inner_alloc(lines, BLOCK_SIZE as int, 0, size).0 is Some,
        spec_inner_alloc(lines, BLOCK_SIZE as int, 0, size).0 == Some(
            spec_align_down(BLOCK_SIZE - size),
        ),
{
    let x = BLOCK_SIZE - size;
    assert(x - x % (ALLOC_ALIGN as int) >= 0) by (nonlinear_arith)
        requires
            x >= 0,
            ALLOC_ALIGN as int > 0,
    ;
}

/// Mutable access to one region of the table.
pub fn region_mut(regions: &mut Vec<BumpBlock>, i: usize) -> (b: &mut BumpBlock)
    requires
        i < old(regions)@.len(),
    ensures
        *b == old(regions)@[i as int],
        final(regions)@ == old(regions)@.update(i as int, *final(b)),
{
    &mut regions[i]
}

/// All regions the allocator owns.
pub struct BlockList {
    /// The central region table; a handle's block identifier is an index
    /// into it.
    pub regions: Vec<BumpBlock>,
    /// Index of the head region, the primary allocation target.
    pub head: Option<usize>,
    /// Index of the overflow region, the secondary target for medium
    /// requests that do not fit the head's current hole.
    pub overflow: Option<usize>,
}

impl BlockList {
    /// Every region is well formed, the head and overflow indices are in
    /// range, and they never name the same region.
    pub open spec fn wf(&self) -> bool {
        &&& forall|i: int| 0 <= i < self.regions@.len() ==> (#[trigger] self.regions@[i]).wf()
        &&& match self.head {
            Some(h) => h < self.regions@.len(),
            None => true,
        }
        &&& match self.overflow {
            Some(o) => o < self.regions@.len(),
            None => true,
        }
        &&& match (self.head, self.overflow) {
            (Some(h), Some(o)) => h != o,
            _ => true,
        }
    }

    /// An empty block set: no regions yet.
    pub fn new() -> (r: BlockList)
        ensures
            r.wf(),
            r.regions@.len() == 0,
            r.head is None,
            r.overflow is None,
    {
        BlockList { regions: Vec::new(), head: None, overflow: None }
    }

    /// Serves a request from the overflow region.  If the current overflow
    /// region cannot hold it, that region is retired in place and replaced
    /// by a freshly acquired one, against which the retry always succeeds;
    /// only a failing memory provider could make this path fail, and in
    /// this arena model the provider never fails.
    pub fn overflow_alloc(&mut self, alloc_size: usize) -> (r: Result<(usize, usize), AllocError>)
        requires
            old(self).wf(),
            alloc_size <= BLOCK_SIZE,
        ensures
            final(self).wf(),
            r is Ok,
            final(self).head == old(self).head,
            old(self).regions@.len() <= final(self).regions@.len(),
            forall|i: int|
                0 <= i < old(self).regions@.len() && old(self).overflow != Some(i as usize)
                    ==> final(self).regions@[i] == old(self).regions@[i],
            forall|i: int|
                0 <= i < old(self).regions@.len() ==> final(self).regions@[i].block == old(
                    self,
                ).regions@[i].block && final(self).regions@[i].meta == old(self).regions@[i].meta,
            r matches Ok((idx, off)) ==> {
                &&& final(self).overflow == Some(idx)
                &&& idx < final(self).regions@.len()
                &&& off % ALLOC_ALIGN == 0
                &&& off + alloc_size <= BLOCK_SIZE
                &&& off == final(self).regions@[idx as int].cursor
                &&& final(self).regions@[idx as int].limit <= off
            },
            forall|i: int|
                0 <= i < old(self).regions@.len() ==> final(self).regions@[i].cursor <= old(
                    self,
                ).regions@[i].cursor && final(self).regions@[i].limit <= old(
                    self,
                ).regions@[i].limit,
            // First use: a region is newly acquired and installed.
            old(self).overflow is None ==> {
                &&& final(self).regions@.len() == old(self).regions@.len() + 1
                &&& r matches Ok((idx, off)) ==> idx == old(self).regions@.len() && off as int
                    == spec_align_down(BLOCK_SIZE - alloc_size)
            },
            old(self).overflow matches Some(o) ==> ({
                let (res, c2, l2) = spec_inner_alloc(
                    old(self).regions@[o as int].meta@,
                    old(self).regions@[o as int].cursor as int,
                    old(self).regions@[o as int].limit as int,
                    alloc_size as int,
                );
                // A fitting overflow region serves the request itself: no
                // new block is acquired and the region stays installed.
                &&& (res is Some ==> {
                    &&& final(self).regions@.len() == old(self).regions@.len()
                    &&& final(self).overflow == Some(o)
                    &&& (r matches Ok((idx, off)) ==> idx == o && res == Some(off as int))
                })
                // An exhausted overflow region is retired in place: the
                // table grows by exactly one, the replacement is new, and
                // the request is served from the replacement's fresh block.
                &&& (res is None ==> {
                    &&& final(self).regions@.len() == old(self).regions@.len() + 1
                    &&& (r matches Ok((idx, off)) ==> idx == old(self).regions@.len() && idx != o
                        && off as int == spec_align_down(BLOCK_SIZE - alloc_size))
                })
                // Either way the old overflow region's bump state ends as
                // its own search left it.
                &&& final(self).regions@[o as int].cursor == c2
                &&& final(self).regions@[o as int].limit == l2
            }),
            // A region acquired by this call starts with an all-unmarked
            // mark table.
            final(self).regions@.len() == old(self).regions@.len() + 1 ==> forall|j: int|
                0 <= j < LINE_COUNT
                    ==> final(self).regions@[old(self).regions@.len() as int].meta@[j] == 0,
    {
        match self.overflow {
            Some(i) => {
                let got = {
                    let reg = region_mut(&mut self.regions, i);
                    reg.inner_alloc(alloc_size)
                };
                match got {
                    Some(off) => Ok((i, off)),
                    None => {
                        // The overflow region is exhausted: retire it in
                        // place and replace it with a fresh block.
                        let mut fresh = match BumpBlock::new() {
                            Ok(b) => b,
                            Err(e) => {
                                return Err(e);
                            },
                        };
                        proof {
                            lemma_fresh_alloc_succeeds(fresh.meta@, alloc_size as int);
                        }
                        let off = match fresh.inner_alloc(alloc_size) {
                            Some(o) => o,
                            None => {
                                return Err(AllocError::OutOfMemory);
                            },
                        };
                        let idx = self.regions.len();
                        self.regions.push(fresh);
                        self.overflow = Some(idx);
                        Ok((idx, off))
                    },
                }
            },
            None => {
                let mut fresh = match BumpBlock::new() {
                    Ok(b) => b,
                    Err(e) => {
                        return Err(e);
                    },
                };
                proof {
                    lemma_fresh_alloc_succeeds(fresh.meta@, alloc_size as int);
                }
                let off = match fresh.inner_alloc(alloc_size) {
                    Some(o) => o,
                    None => {
                        return Err(AllocError::OutOfMemory);
                    },
                };
                let idx = self.regions.len();
                self.regions.push(fresh);
                self.overflow = Some(idx);
                Ok((idx, off))
            },
        }
    }
}

} // verus!
