//! The line mark table of one block and the hole finder over it.
//!
//! The table holds one byte per line: zero means the line is free, nonzero
//! means it holds live data.  The hole finder scans line indices downward
//! from a starting point, accumulating a run of consecutive unmarked lines,
//! and returns the next usable hole.  When the run is bounded below by a
//! marked line, the line immediately above that mark is kept out of the
//! hole as a conservative buffer: an object in the marked line may straddle
//! into it, and object boundaries are not tracked below line granularity.

use vstd::prelude::*;
use crate::constants::{BLOCK_SIZE, LINE_COUNT, LINE_SIZE, MARK_CONSERVATISM_LINES};

verus! {

/// Number of whole lines needed to hold `size` bytes.
pub open spec fn spec_lines_required(size: int) -> int {
    (size + LINE_SIZE - 1) / (LINE_SIZE as int)
}

/// One step of the downward scan.  `index` is the line under examination,
/// `count` the length of the current run of unmarked lines, `end` the line
/// just above the run.  Returns `(cursor, limit)` byte offsets of the hole.
pub open spec fn spec_hole_search(
    lines: Seq<u8>,
    index: int,
    count: int,
    end: int,
    lines_required: int,
) -> Option<(int, int)>
    decreases index + 1,
{
    if index < 0 {
        None
    } else if lines[index] == 0 {
        if index == 0 && count + 1 >= lines_required {
            Some((end * LINE_SIZE, 0))
        } else {
            spec_hole_search(lines, index - 1, count + 1, end, lines_required)
        }
    } else {
        if count > lines_required {
            Some((end * LINE_SIZE, (index + 1 + MARK_CONSERVATISM_LINES) * LINE_SIZE))
        } else {
            spec_hole_search(lines, index - 1, 0, index, lines_required)
        }
    }
}

/// The hole the finder reports for a table, a byte offset to start below,
/// and a request of `size` bytes.
pub open spec fn spec_find_hole(lines: Seq<u8>, starting_at: int, size: int) -> Option<(int, int)> {
    let starting_line = starting_at / (LINE_SIZE as int);
    spec_hole_search(lines, starting_line - 1, 0, starting_line, spec_lines_required(size))
}

/// Everything the search state satisfies at every step: the run of length
/// `count` sits immediately below `end` and is unmarked, and `index` is the
/// next line to examine.
pub open spec fn search_state_ok(lines: Seq<u8>, index: int, count: int, end: int) -> bool {
    &&& -1 <= index
    &&& 0 <= count
    &&& count == end - 1 - index
    &&& end <= lines.len()
    &&& forall|j: int| index < j < end ==> lines[j] == 0
}

/// What holds of every hole the search can report: it is line-aligned, it
/// lies below `end`, it is long enough for the request, every line wholly
/// inside it is unmarked, and when it is bounded below by a mark the line
/// just above the mark is excluded as the conservative buffer.
pub proof fn lemma_hole_search_props(
    lines: Seq<u8>,
    index: int,
    count: int,
    end: int,
    lines_required: int,
)
    requires
        search_state_ok(lines, index, count, end),
        lines_required >= 0,
    ensures
        spec_hole_search(lines, index, count, end, lines_required) matches Some((cursor, limit))
            ==> {
            &&& cursor % (LINE_SIZE as int) == 0
            &&& limit % (LINE_SIZE as int) == 0
            &&& 0 <= limit
            &&& limit + lines_required * LINE_SIZE <= cursor
            &&& cursor <= end * LINE_SIZE
            &&& forall|j: int|
                limit / (LINE_SIZE as int) <= j < cursor / (LINE_SIZE as int) ==> lines[j] == 0
            &&& limit > 0 ==> {
                &&& limit >= 2 * LINE_SIZE
                &&& lines[limit / (LINE_SIZE as int) - 2] != 0
                &&& lines[limit / (LINE_SIZE as int) - 1] == 0
            }
            &&& lines_required >= 1 ==> limit + LINE_SIZE <= end * LINE_SIZE
        },
    decreases index + 1,
{
    if index < 0 {
    } else if lines[index] == 0 {
        if index == 0 && count + 1 >= lines_required {
            let cursor = end * LINE_SIZE;
            let limit = 0int;
            assert(end >= 1);
            assert(count + 1 == end);
            assert(lines_required * LINE_SIZE <= end * LINE_SIZE) by (nonlinear_arith)
                requires
                    lines_required <= end,
                    LINE_SIZE as int > 0,
            ;
            assert(cursor / (LINE_SIZE as int) == end) by (nonlinear_arith)
                requires
                    cursor == end * LINE_SIZE,
                    LINE_SIZE as int > 0,
            ;
            assert(cursor % (LINE_SIZE as int) == 0) by (nonlinear_arith)
                requires
                    cursor == end * LINE_SIZE,
                    LINE_SIZE as int > 0,
            ;
            assert(LINE_SIZE as int <= end * LINE_SIZE) by (nonlinear_arith)
                requires
                    end >= 1,
                    LINE_SIZE as int > 0,
            ;
        } else {
            lemma_hole_search_props(lines, index - 1, count + 1, end, lines_required);
        }
    } else {
        if count > lines_required {
            let cursor = end * LINE_SIZE;
            let limit = (index + 2) * LINE_SIZE;
            assert(end - 1 - index == count);
            assert(index + 2 + lines_required <= end);
            assert(limit % (LINE_SIZE as int) == 0) by (nonlinear_arith)
                requires
                    limit == (index + 2) * LINE_SIZE,
                    LINE_SIZE as int > 0,
            ;
            assert(cursor % (LINE_SIZE as int) == 0) by (nonlinear_arith)
                requires
                    cursor == end * LINE_SIZE,
                    LINE_SIZE as int > 0,
            ;
            assert(limit / (LINE_SIZE as int) == index + 2) by (nonlinear_arith)
                requires
                    limit == (index + 2) * LINE_SIZE,
                    LINE_SIZE as int > 0,
            ;
            assert(cursor / (LINE_SIZE as int) == end) by (nonlinear_arith)
                requires
                    cursor == end * LINE_SIZE,
                    LINE_SIZE as int > 0,
            ;
            assert(limit + lines_required * LINE_SIZE <= cursor) by (nonlinear_arith)
                requires
                    limit == (index + 2) * LINE_SIZE,
                    cursor == end * LINE_SIZE,
                    index + 2 + lines_required <= end,
                    LINE_SIZE as int > 0,
            ;
            assert(limit >= 2 * LINE_SIZE);
            assert(lines_required >= 1 ==> limit + LINE_SIZE <= end * LINE_SIZE)
                by (nonlinear_arith)
                requires
                    limit == (index + 2) * LINE_SIZE,
                    index + 2 + lines_required <= end,
                    LINE_SIZE as int > 0,
            ;
        } else {
            lemma_hole_search_props(lines, index - 1, 0, index, lines_required);
        }
    }
}

/// At least one line is required as soon as at least one byte is.
pub proof fn lemma_req_pos(alloc_size: int)
    requires
        alloc_size >= 0,
    ensures
        alloc_size >= 1 ==> spec_lines_required(alloc_size) >= 1,
{
    if alloc_size >= 1 {
        assert((alloc_size + LINE_SIZE - 1) / (LINE_SIZE as int) >= 1) by (nonlinear_arith)
            requires
                alloc_size >= 1,
                LINE_SIZE as int > 0,
        ;
    }
}

/// On an all-unmarked table, the search runs to line zero and reports the
/// hole from `end * LINE_SIZE` all the way down to a limit of zero.
pub proof fn lemma_hole_search_all_unmarked(
    lines: Seq<u8>,
    index: int,
    count: int,
    end: int,
    lines_required: int,
)
    requires
        search_state_ok(lines, index, count, end),
        0 <= index,
        forall|j: int| 0 <= j <= index ==> lines[j] == 0,
        end >= lines_required,
    ensures
        spec_hole_search(lines, index, count, end, lines_required) == Some(
            (end * LINE_SIZE, 0int),
        ),
    decreases index,
{
    if index == 0 {
        assert(count + 1 == end);
    } else {
        lemma_hole_search_all_unmarked(lines, index - 1, count + 1, end, lines_required);
    }
}

/// Any hole the finder reports is a line-aligned run of wholly unmarked
/// lines long enough for the request, lying at or below the search start.
/// Contrapositive: when no sufficient run of unmarked lines exists below
/// `starting_at`, the finder reports `None`.
pub proof fn lemma_hole_is_unmarked_run(lines: Seq<u8>, starting_at: int, size: int)
    requires
        lines.len() == LINE_COUNT,
        0 <= starting_at <= BLOCK_SIZE,
        0 <= size,
    ensures
        spec_find_hole(lines, starting_at, size) matches Some((cursor, limit)) ==> {
            &&& cursor % (LINE_SIZE as int) == 0
            &&& limit % (LINE_SIZE as int) == 0
            &&& 0 <= limit
            &&& limit + spec_lines_required(size) * LINE_SIZE <= cursor
            &&& cursor <= (starting_at / (LINE_SIZE as int)) * LINE_SIZE
            &&& forall|j: int|
                limit / (LINE_SIZE as int) <= j < cursor / (LINE_SIZE as int) ==> lines[j] == 0
        },
{
    let starting_line = starting_at / (LINE_SIZE as int);
    assert(0 <= starting_line <= LINE_COUNT) by (nonlinear_arith)
        requires
            starting_line == starting_at / (LINE_SIZE as int),
            0 <= starting_at <= BLOCK_SIZE,
            LINE_SIZE as int > 0,
    ;
    lemma_hole_search_props(lines, starting_line - 1, 0, starting_line, spec_lines_required(size));
}

/// The conservative buffer rule: whenever a reported hole is bounded below
/// by a marked line rather than by the start of the block, the line two
/// below the limit is the marked line, and the line immediately below the
/// limit is unmarked yet still excluded from the hole as the buffer.
pub proof fn lemma_hole_conservative_buffer(lines: Seq<u8>, starting_at: int, size: int)
    requires
        lines.len() == LINE_COUNT,
        0 <= starting_at <= BLOCK_SIZE,
        0 <= size,
    ensures
        spec_find_hole(lines, starting_at, size) matches Some((cursor, limit)) ==> limit > 0
            ==> {
            &&& limit >= 2 * LINE_SIZE
            &&& lines[limit / (LINE_SIZE as int) - 2] != 0
            &&& lines[limit / (LINE_SIZE as int) - 1] == 0
        },
{
    let starting_line = starting_at / (LINE_SIZE as int);
    assert(0 <= starting_line <= LINE_COUNT) by (nonlinear_arith)
        requires
            starting_line == starting_at / (LINE_SIZE as int),
            0 <= starting_at <= BLOCK_SIZE,
            LINE_SIZE as int > 0,
    ;
    lemma_hole_search_props(lines, starting_line - 1, 0, starting_line, spec_lines_required(size));
}

/// On an all-unmarked table with a sufficient searched range, the finder
/// reports the hole spanning the whole range down to line zero, with a
/// limit of zero.
pub proof fn lemma_find_hole_all_unmarked(lines: Seq<u8>, starting_at: int, size: int)
    requires
        lines.len() == LINE_COUNT,
        LINE_SIZE <= starting_at <= BLOCK_SIZE,
        0 <= size,
        forall|j: int| 0 <= j < starting_at / (LINE_SIZE as int) ==> lines[j] == 0,
        spec_lines_required(size) <= starting_at / (LINE_SIZE as int),
    ensures
        spec_find_hole(lines, starting_at, size) == Some(
            ((starting_at / (LINE_SIZE as int)) * LINE_SIZE, 0int),
        ),
{
    let starting_line = starting_at / (LINE_SIZE as int);
    assert(1 <= starting_line <= LINE_COUNT) by (nonlinear_arith)
        requires
            starting_line == starting_at / (LINE_SIZE as int),
            LINE_SIZE <= starting_at <= BLOCK_SIZE,
            LINE_SIZE as int > 0,
    ;
    lemma_hole_search_all_unmarked(
        lines,
        starting_line - 1,
        0,
        starting_line,
        spec_lines_required(size),
    );
}

/// The line mark table: one byte per line of one block.
pub struct BlockMeta {
    /// Mark entries; zero is free, nonzero is live.
    pub lines: Vec<u8>,
}

impl BlockMeta {
    /// The mark entries as a sequence.
    pub open spec fn view(&self) -> Seq<u8> {
        self.lines@
    }

    /// A table is well formed when it has one entry per line of a block.
    pub open spec fn wf(&self) -> bool {
        self.lines@.len() == LINE_COUNT
    }

    /// A fresh, all-unmarked table.
    pub fn new() -> (r: BlockMeta)
        ensures
            r.wf(),
            forall|j: int| 0 <= j < LINE_COUNT ==> r@[j] == 0,
    {
        let mut lines: Vec<u8> = Vec::new();
        let mut i: usize = 0;
        while i < LINE_COUNT
            invariant
                i <= LINE_COUNT,
                lines@.len() == i,
                forall|j: int| 0 <= j < i ==> lines@[j] == 0,
            decreases LINE_COUNT - i,
        {
            lines.push(0);
            i = i + 1;
        }
        BlockMeta { lines }
    }

    /// Reads one mark entry.
    pub fn line(&self, index: usize) -> (r: u8)
        requires
            index < self@.len(),
        ensures
            r == self@[index as int],
    {
        self.lines[index]
    }

    /// Sets one mark entry; this is the collector's write access to the
    /// table between collection cycles.
    pub fn set_line(&mut self, index: usize, value: u8)
        requires
            index < old(self)@.len(),
        ensures
            final(self)@ == old(self)@.update(index as int, value),
    {
        self.lines[index] = value;
    }

    /// Finds the next usable hole strictly below the byte offset
    /// `starting_at`, for a request of `alloc_size` bytes.  Returns the
    /// byte offsets `(cursor, limit)` of the hole, or `None` when no
    /// qualifying run of unmarked lines exists.
    pub fn find_next_available_hole(&self, starting_at: usize, alloc_size: usize) -> (r: Option<
        (usize, usize),
    >)
        requires
            self.wf(),
            starting_at <= BLOCK_SIZE,
            alloc_size <= BLOCK_SIZE,
        ensures
            ({
                let s = spec_find_hole(self@, starting_at as int, alloc_size as int);
                match r {
                    Some((cursor, limit)) => {
                        &&& s == Some((cursor as int, limit as int))
                        &&& cursor % LINE_SIZE == 0
                        &&& limit % LINE_SIZE == 0
                        &&& limit + spec_lines_required(alloc_size as int) * LINE_SIZE
                            <= cursor
                        &&& alloc_size <= cursor - limit
                        &&& cursor <= (starting_at / LINE_SIZE) * LINE_SIZE
                        &&& cursor <= starting_at
                        &&& forall|j: int|
                            limit as int / (LINE_SIZE as int) <= j < cursor as int / (
                            LINE_SIZE as int) ==> self@[j] == 0
                        &&& limit > 0 ==> self@[limit as int / (LINE_SIZE as int) - 2] != 0
                        &&& alloc_size >= 1 ==> limit + LINE_SIZE <= (starting_at / LINE_SIZE)
                            * LINE_SIZE
                    },
                    None => s is None,
                }
            }),
    {
        let starting_line: usize = starting_at / LINE_SIZE;
        let lines_required: usize = (alloc_size + LINE_SIZE - 1) / LINE_SIZE;
        let ghost req = spec_lines_required(alloc_size as int);
        assert(lines_required == req);

        let mut count: usize = 0;
        let mut end: usize = starting_line;
        let mut index: usize = starting_line;

        proof {
            assert(starting_line <= LINE_COUNT);
            assert(starting_line * LINE_SIZE <= starting_at) by (nonlinear_arith)
                requires
                    starting_line == starting_at as int / (LINE_SIZE as int),
                    LINE_SIZE as int > 0,
                    starting_at >= 0,
            ;
        }

        while index > 0
            invariant
                self.wf(),
                index <= end,
                end <= starting_line,
                starting_line <= LINE_COUNT,
                starting_line == starting_at / LINE_SIZE,
                starting_line * LINE_SIZE <= starting_at <= BLOCK_SIZE,
                alloc_size <= BLOCK_SIZE,
                req == spec_lines_required(alloc_size as int),
                lines_required == req,
                count == end - index,
                search_state_ok(self@, index as int - 1, count as int, end as int),
                spec_find_hole(self@, starting_at as int, alloc_size as int)
                    == spec_hole_search(
                    self@,
                    index as int - 1,
                    count as int,
                    end as int,
                    req,
                ),
            decreases index,
        {
            index = index - 1;
            let marked = self.lines[index];

            if marked == 0 {
                count = count + 1;
                if index == 0 && count >= lines_required {
                    let cursor = end * LINE_SIZE;
                    let limit: usize = 0;
                    proof {
                        lemma_hole_search_props(
                            self@,
                            index as int,
                            (count - 1) as int,
                            end as int,
                            req,
                        );
                        lemma_return_bounds(end as int, starting_line as int, starting_at as int);
                        lemma_alloc_size_fits(alloc_size as int, req, limit as int, cursor as int);
                        lemma_req_pos(alloc_size as int);
                        assert(LINE_SIZE as int <= end * LINE_SIZE) by (nonlinear_arith)
                            requires
                                end >= 1,
                                LINE_SIZE as int > 0,
                        ;
                    }
                    return Some((cursor, limit));
                }
            } else {
                if count > lines_required {
                    let cursor = end * LINE_SIZE;
                    let limit = (index + 1 + MARK_CONSERVATISM_LINES) * LINE_SIZE;
                    proof {
                        lemma_hole_search_props(
                            self@,
                            index as int,
                            count as int,
                            end as int,
                            req,
                        );
                        lemma_return_bounds(end as int, starting_line as int, starting_at as int);
                        lemma_mul_le(index as int + 2, end as int, LINE_SIZE as int);
                        lemma_alloc_size_fits(alloc_size as int, req, limit as int, cursor as int);
                        lemma_req_pos(alloc_size as int);
                        lemma_mul_le(end as int, starting_line as int, LINE_SIZE as int);
                    }
                    return Some((cursor, limit));
                }
                count = 0;
                end = index;
            }
        }
        None
    }
}

/// Multiplying both sides of `a <= b` by a positive factor keeps the order.
pub proof fn lemma_mul_le(a: int, b: int, k: int)
    requires
        a <= b,
        k > 0,
    ensures
        a * k <= b * k,
{
    assert(a * k <= b * k) by (nonlinear_arith)
        requires
            a <= b,
            k > 0,
    ;
}

/// The cursor of a reported hole lies at or below the line-aligned search
/// start.
proof fn lemma_return_bounds(end: int, starting_line: int, starting_at: int)
    requires
        end <= starting_line,
        starting_line * LINE_SIZE <= starting_at,
    ensures
        end * LINE_SIZE <= starting_line * LINE_SIZE,
        end * LINE_SIZE <= starting_at,
{
    lemma_mul_le(end, starting_line, LINE_SIZE as int);
}

/// A hole long enough for the required number of lines is long enough for
/// the requested bytes.
proof fn lemma_alloc_size_fits(alloc_size: int, req: int, limit: int, cursor: int)
    requires
        alloc_size >= 0,
        req == spec_lines_required(alloc_size),
        limit + req * LINE_SIZE <= cursor,
    ensures
        alloc_size <= cursor - limit,
{
    assert(alloc_size <= req * LINE_SIZE) by (nonlinear_arith)
        requires
            alloc_size >= 0,
            req == (alloc_size + LINE_SIZE - 1) / (LINE_SIZE as int),
            LINE_SIZE as int > 0,
    ;
}

} // verus!
