//! One block under bump allocation: the block, its line mark table, and a
//! downward-moving cursor/limit pair.
//!
//! The half-open byte range `[limit, cursor)` is the current hole: it is
//! known free, and allocation inside it is a pure pointer bump.  When a
//! request does not fit, the hole finder is consulted for the next hole
//! further down the block; the retry is bounded because every new hole has
//! a strictly smaller limit.

use vstd::prelude::*;
use crate::constants::{ALLOC_ALIGN, BLOCK_SIZE, FRESH_BYTE, LINE_COUNT, LINE_SIZE};
use crate::block::{spec_is_pow2, Block};
use crate::errors::AllocError;
use crate::meta::{lemma_req_pos, spec_find_hole, BlockMeta};

verus! {

/// `x` rounded down to the allocation alignment.
pub open spec fn spec_align_down(x: int) -> int {
    x - x % (ALLOC_ALIGN as int)
}

/// The exact behaviour of `inner_alloc`: the returned offset (if any) and
/// the cursor and limit after the call.  The recursion is bounded by the
/// strictly decreasing limit.
pub open spec fn spec_inner_alloc(lines: Seq<u8>, cursor: int, limit: int, size: int) -> (
    Option<int>,
    int,
    int,
)
    decreases limit,
{
    if cursor - size < 0 {
        (None, cursor, limit)
    } else {
        let candidate = spec_align_down(cursor - size);
        if candidate >= limit {
            (Some(candidate), candidate, limit)
        } else {
            match spec_find_hole(lines, limit, size) {
                Some((c2, l2)) => if 0 <= l2 && l2 < limit {
                    spec_inner_alloc(lines, c2, l2, size)
                } else {
                    (None, c2, l2)
                },
                None => (None, cursor, limit),
            }
        }
    }
}

/// A request larger than the cursor fails outright: every hole lies below
/// the cursor, so no discoverable hole could hold it either.
pub proof fn lemma_alloc_exceeding_cursor_fails(lines: Seq<u8>, cursor: int, limit: int, size: int)
    requires
        0 <= cursor,
        size > cursor,
    ensures
        spec_inner_alloc(lines, cursor, limit, size).0 is None,
{
}

/// One block owned by the allocator, with its mark table and bump state.
pub struct BumpBlock {
    /// Lower end of the next allocation; moves downward.
    pub cursor: usize,
    /// Lower bound of the current hole.
    pub limit: usize,
    /// The block being allocated into.
    pub block: Block,
    /// The block's line mark table.
    pub meta: BlockMeta,
}

impl BumpBlock {
    /// Well-formedness: the block is a full-sized, power-of-two block, the
    /// table has one entry per line, the hole is inside the block, the
    /// cursor keeps allocation alignment and the limit line alignment.
    pub open spec fn wf(&self) -> bool {
        &&& self.block.wf()
        &&& self.block.size == BLOCK_SIZE
        &&& self.meta.wf()
        &&& self.limit <= self.cursor <= BLOCK_SIZE
        &&& self.cursor % ALLOC_ALIGN == 0
        &&& self.limit % LINE_SIZE == 0
    }

    /// A fresh region: cursor at the block's end, limit at its start, no
    /// line marked.
    pub open spec fn is_fresh(&self) -> bool {
        &&& self.cursor == BLOCK_SIZE
        &&& self.limit == 0
        &&& forall|j: int| 0 <= j < LINE_COUNT ==> self.meta@[j] == 0
        &&& self.block@ == Seq::new(BLOCK_SIZE as nat, |i: int| FRESH_BYTE)
    }

    /// Acquires a fresh block and wraps it for bump allocation.  In this
    /// arena model the provider never fails, so the result is always `Ok`.
    pub fn new() -> (r: Result<BumpBlock, AllocError>)
        ensures
            r is Ok,
            r matches Ok(b) ==> b.wf() && b.is_fresh(),
    {
        proof {
            lemma_block_size_pow2();
        }
        let block = match Block::new(BLOCK_SIZE) {
            Ok(b) => b,
            Err(e) => {
                return Err(AllocError::from_block_error(e));
            },
        };
        let meta = BlockMeta::new();
        Ok(BumpBlock { cursor: BLOCK_SIZE, limit: 0, block, meta })
    }

    /// Byte distance between cursor and limit: the part of the current
    /// hole still available without another hole search.
    pub fn current_hole_size(&self) -> (r: usize)
        requires
            self.wf(),
        ensures
            r == self.cursor - self.limit,
    {
        self.cursor - self.limit
    }

    /// Finds the next usable hole strictly below `starting_at` in this
    /// block's mark table.
    pub fn find_next_available_hole(&self, starting_at: usize, alloc_size: usize) -> (r: Option<
        (usize, usize),
    >)
        requires
            self.wf(),
            starting_at <= BLOCK_SIZE,
            alloc_size <= BLOCK_SIZE,
        ensures
            ({
                let s = spec_find_hole(self.meta@, starting_at as int, alloc_size as int);
                match r {
                    Some((cursor, limit)) => s == Some((cursor as int, limit as int)),
                    None => s is None,
                }
            }),
    {
        self.meta.find_next_available_hole(starting_at, alloc_size)
    }

    /// Bump-allocates `alloc_size` bytes, searching for a new hole when the
    /// current one is exhausted.  Returns the block-relative byte offset of
    /// the allocation, or `None` when no remaining hole can hold it.
    pub fn inner_alloc(&mut self, alloc_size: usize) -> (r: Option<usize>)
        requires
            old(self).wf(),
        ensures
            final(self).wf(),
            final(self).block == old(self).block,
            final(self).meta == old(self).meta,
            final(self).cursor <= old(self).cursor,
            final(self).limit <= old(self).limit,
            ({
                let (res, c2, l2) = spec_inner_alloc(
                    old(self).meta@,
                    old(self).cursor as int,
                    old(self).limit as int,
                    alloc_size as int,
                );
                &&& final(self).cursor == c2
                &&& final(self).limit == l2
                &&& match r {
                    Some(p) => res == Some(p as int),
                    None => res is None,
                }
            }),
            r matches Some(p) ==> {
                &&& p % ALLOC_ALIGN == 0
                &&& p == final(self).cursor
                &&& final(self).limit <= p
                &&& p + alloc_size <= old(self).cursor
                &&& p + alloc_size <= BLOCK_SIZE
            },
    {
        let ghost orig = *self;
        loop
            invariant
                orig == *old(self),
                self.wf(),
                self.block == orig.block,
                self.meta == orig.meta,
                self.cursor <= orig.cursor,
                self.limit <= orig.limit,
                orig.wf(),
                spec_inner_alloc(
                    orig.meta@,
                    orig.cursor as int,
                    orig.limit as int,
                    alloc_size as int,
                ) == spec_inner_alloc(
                    self.meta@,
                    self.cursor as int,
                    self.limit as int,
                    alloc_size as int,
                ),
            decreases self.limit,
        {
            if self.cursor < alloc_size {
                return None;
            }
            let diff = self.cursor - alloc_size;
            let candidate = diff - diff % ALLOC_ALIGN;
            proof {
                assert(candidate as int % (ALLOC_ALIGN as int) == 0) by (nonlinear_arith)
                    requires
                        candidate as int == diff as int - diff as int % (ALLOC_ALIGN as int),
                        diff >= 0,
                        ALLOC_ALIGN as int > 0,
                ;
            }
            if candidate >= self.limit {
                self.cursor = candidate;
                return Some(candidate);
            }
            // The current hole is exhausted; the limit is positive here,
            // since a zero limit would have admitted the candidate.
            proof {
                if alloc_size == 0 {
                    assert(diff as int % (ALLOC_ALIGN as int) == 0);
                    assert(false);
                }
                lemma_req_pos(alloc_size as int);
            }
            match self.meta.find_next_available_hole(self.limit, alloc_size) {
                None => {
                    return None;
                },
                Some((c2, l2)) => {
                    proof {
                        assert(l2 + LINE_SIZE <= (self.limit as int / (LINE_SIZE as int))
                            * LINE_SIZE);
                        assert((self.limit as int / (LINE_SIZE as int)) * LINE_SIZE
                            == self.limit as int) by (nonlinear_arith)
                            requires
                                self.limit as int % (LINE_SIZE as int) == 0,
                                self.limit >= 0,
                                LINE_SIZE as int > 0,
                        ;
                        assert(c2 as int % (ALLOC_ALIGN as int) == 0) by (nonlinear_arith)
                            requires
                                c2 as int % (LINE_SIZE as int) == 0,
                                c2 >= 0,
                                LINE_SIZE as int == 8 * (ALLOC_ALIGN as int),
                                ALLOC_ALIGN as int > 0,
                        ;
                    }
                    self.cursor = c2;
                    self.limit = l2;
                },
            }
        }
    }

    /// Copies `data` into the block at `offset`.  Raw write access for the
    /// heap facade, which writes header and payload only into space it has
    /// just reserved.
    pub fn write(&mut self, offset: usize, data: &Vec<u8>)
        requires
            old(self).wf(),
            offset + data@.len() <= BLOCK_SIZE,
        ensures
            final(self).wf(),
            final(self).cursor == old(self).cursor,
            final(self).limit == old(self).limit,
            final(self).meta == old(self).meta,
            final(self).block.size == old(self).block.size,
            final(self).block@.len() == old(self).block@.len(),
            forall|i: int|
                0 <= i < BLOCK_SIZE ==> final(self).block@[i] == if offset <= i < offset
                    + data@.len() {
                    data@[i - offset]
                } else {
                    old(self).block@[i]
                },
    {
        let mut i: usize = 0;
        while i < data.len()
            invariant
                self.wf(),
                self.cursor == old(self).cursor,
                self.limit == old(self).limit,
                self.meta == old(self).meta,
                self.block.size == old(self).block.size,
                self.block@.len() == old(self).block@.len(),
                i <= data@.len(),
                offset + data@.len() <= BLOCK_SIZE,
                forall|k: int|
                    0 <= k < BLOCK_SIZE ==> self.block@[k] == if offset <= k < offset + i {
                        data@[k - offset]
                    } else {
                        old(self).block@[k]
                    },
            decreases data@.len() - i,
        {
            self.block.set_byte(offset + i, data[i]);
            i = i + 1;
        }
    }

    /// Sets `len` bytes starting at `offset` to `value`; used to zero a
    /// fresh array payload.
    pub fn fill(&mut self, offset: usize, len: usize, value: u8)
        requires
            old(self).wf(),
            offset + len <= BLOCK_SIZE,
        ensures
            final(self).wf(),
            final(self).cursor == old(self).cursor,
            final(self).limit == old(self).limit,
            final(self).meta == old(self).meta,
            final(self).block.size == old(self).block.size,
            final(self).block@.len() == old(self).block@.len(),
            forall|i: int|
                0 <= i < BLOCK_SIZE ==> final(self).block@[i] == if offset <= i < offset + len {
                    value
                } else {
                    old(self).block@[i]
                },
    {
        let mut i: usize = 0;
        while i < len
            invariant
                self.wf(),
                self.cursor == old(self).cursor,
                self.limit == old(self).limit,
                self.meta == old(self).meta,
                self.block.size == old(self).block.size,
                self.block@.len() == old(self).block@.len(),
                i <= len,
                offset + len <= BLOCK_SIZE,
                forall|k: int|
                    0 <= k < BLOCK_SIZE ==> self.block@[k] == if offset <= k < offset + i {
                        value
                    } else {
                        old(self).block@[k]
                    },
            decreases len - i,
        {
            self.block.set_byte(offset + i, value);
            i = i + 1;
        }
    }

    /// The collector's reset signal: after marks have been updated, force
    /// the next allocation to search the table again from the block's end.
    pub fn reset(&mut self)
        requires
            old(self).wf(),
        ensures
            final(self).wf(),
            final(self).cursor == BLOCK_SIZE,
            final(self).limit == BLOCK_SIZE,
            final(self).block == old(self).block,
            final(self).meta == old(self).meta,
    {
        self.cursor = BLOCK_SIZE;
        self.limit = BLOCK_SIZE;
    }
}

/// The block size is a power of two.
pub proof fn lemma_block_size_pow2()
    ensures
        spec_is_pow2(BLOCK_SIZE as int),
{
    assert(spec_is_pow2(1));
    assert(spec_is_pow2(2));
    assert(spec_is_pow2(4));
    assert(spec_is_pow2(8));
    assert(spec_is_pow2(16));
    assert(spec_is_pow2(32));
    assert(spec_is_pow2(64));
    assert(spec_is_pow2(128));
    assert(spec_is_pow2(256));
    assert(spec_is_pow2(512));
    assert(spec_is_pow2(1024));
    assert(spec_is_pow2(2048));
    assert(spec_is_pow2(4096));
    assert(spec_is_pow2(8192));
    assert(spec_is_pow2(16384));
    assert(spec_is_pow2(32768));
}

/// Bump allocation hands out disjoint, strictly decreasing ranges: when
/// one allocation returns `p1` with the cursor left at `p1`, and the next
/// returns `p2`, the second range ends at or below `p1`.
pub proof fn lemma_sequential_allocs_disjoint(p1: int, s1: int, p2: int, s2: int, c1: int)
    requires
        p1 == c1,
        p2 + s2 <= c1,
        s2 >= 1,
    ensures
        p2 + s2 <= p1,
        p2 < p1,
{
}

/// N sequential successful allocations of size `s` hand out strictly
/// decreasing, pairwise disjoint ranges.  `ps` are the returned offsets in
/// call order; each call's `ensures` gives `ps[i] + s <= ps[i - 1]` (the
/// result plus the size fits below the previous cursor, which is the
/// previous result), and from that chain every pair of ranges
/// `[ps[i], ps[i] + s)` is disjoint.
pub proof fn lemma_alloc_sequence_disjoint(ps: Seq<int>, s: int)
    requires
        s >= 1,
        forall|i: int| 0 < i < ps.len() ==> #[trigger] ps[i] + s <= ps[i - 1],
    ensures
        forall|i: int, j: int| 0 <= i < j < ps.len() ==> ps[j] + s <= ps[i],
        forall|i: int, j: int| 0 <= i < j < ps.len() ==> ps[j] < ps[i],
{
    assert forall|i: int, j: int| 0 <= i < j < ps.len() implies ps[j] + s <= ps[i] by {
        lemma_alloc_chain_step(ps, s, i, j);
    }
}

/// The chained pairwise bound carries across any distance in the call
/// order, by induction on the gap.
proof fn lemma_alloc_chain_step(ps: Seq<int>, s: int, i: int, j: int)
    requires
        s >= 1,
        forall|k: int| 0 < k < ps.len() ==> #[trigger] ps[k] + s <= ps[k - 1],
        0 <= i < j < ps.len(),
    ensures
        ps[j] + s <= ps[i],
    decreases j - i,
{
    if j > i + 1 {
        lemma_alloc_chain_step(ps, s, i, j - 1);
    }
}

} // verus!
