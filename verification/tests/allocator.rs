//! End-to-end tests of the allocator through its public interface.

use immix_heap::block::Block;
use immix_heap::bump::BumpBlock;
use immix_heap::constants::{
    ALLOC_ALIGN, BLOCK_CAPACITY, BLOCK_SIZE, FRESH_BYTE, HEADER_SIZE, LINE_COUNT, LINE_SIZE,
};
use immix_heap::errors::{AllocError, BlockError};
use immix_heap::header::{Mark, ObjectHeader};
use immix_heap::heap::{RawPtr, StickyImmixHeap};
use immix_heap::meta::BlockMeta;
use immix_heap::size_class::SizeClass;

fn fresh_meta() -> BlockMeta {
    BlockMeta::new()
}

#[test]
fn block_acquire_rejects_non_power_of_two() {
    assert!(matches!(Block::new(3000), Err(BlockError::BadRequest)));
    assert!(matches!(Block::new(0), Err(BlockError::BadRequest)));
    let b = Block::new(BLOCK_SIZE).unwrap();
    assert_eq!(b.size, BLOCK_SIZE);
    assert_eq!(b.as_ptr().len(), BLOCK_SIZE);
}

#[test]
fn block_acquire_release_cycles() {
    for _ in 0..64 {
        let b = Block::new(BLOCK_SIZE).unwrap();
        assert_eq!(b.as_ptr().len(), BLOCK_SIZE);
        Block::dealloc_block(b);
    }
}

#[test]
fn block_fresh_bytes_are_not_zero() {
    let b = Block::new(128).unwrap();
    for i in 0..128 {
        assert_eq!(b.byte_at(i), FRESH_BYTE);
    }
}

#[test]
fn hole_finder_skips_marked_line_and_buffer() {
    // Lines [U, U, U, M, U, U] indexed 0..5; two lines required.
    let mut meta = fresh_meta();
    meta.set_line(3, 1);
    let r = meta.find_next_available_hole(6 * LINE_SIZE, 2 * LINE_SIZE);
    // The two-line run above the mark does not satisfy the strict
    // greater-than rule, so the search continues below the mark and
    // returns the run of lines 0..2.
    let (cursor, limit) = r.unwrap();
    assert_eq!(cursor, 3 * LINE_SIZE);
    assert_eq!(limit, 0);
    // The hole never includes the marked line 3.
    assert!(cursor <= 3 * LINE_SIZE);
}

#[test]
fn hole_finder_buffer_rule_excludes_line_after_mark() {
    // One marked line far down; a large request forces use of the upper
    // hole, whose limit must sit two lines above the mark.
    let mut meta = fresh_meta();
    meta.set_line(10, 1);
    let r = meta.find_next_available_hole(BLOCK_SIZE, 4 * LINE_SIZE);
    let (cursor, limit) = r.unwrap();
    assert_eq!(cursor, LINE_COUNT * LINE_SIZE);
    assert_eq!(limit, 12 * LINE_SIZE);
}

#[test]
fn hole_finder_all_unmarked_spans_entire_range() {
    let meta = fresh_meta();
    let r = meta.find_next_available_hole(BLOCK_SIZE, LINE_SIZE);
    let (cursor, limit) = r.unwrap();
    assert_eq!(cursor, BLOCK_SIZE);
    assert_eq!(limit, 0);
}

#[test]
fn hole_finder_no_sufficient_run_returns_none() {
    // Mark every other line: no run of two consecutive unmarked lines.
    let mut meta = fresh_meta();
    for i in 0..LINE_COUNT {
        if i % 2 == 0 {
            meta.set_line(i, 1);
        }
    }
    assert!(meta.find_next_available_hole(BLOCK_SIZE, 2 * LINE_SIZE).is_none());
}

#[test]
fn bump_allocations_decrease_and_stay_aligned() {
    let mut region = BumpBlock::new().unwrap();
    let size = 48usize;
    let mut previous = BLOCK_SIZE;
    for _ in 0..16 {
        let p = region.inner_alloc(size).unwrap();
        assert_eq!(p % ALLOC_ALIGN, 0);
        assert!(p + size <= previous);
        previous = p;
    }
}

#[test]
fn bump_alloc_exhausts_and_returns_none() {
    let mut region = BumpBlock::new().unwrap();
    // A request larger than the block can never be served.
    assert!(region.inner_alloc(BLOCK_SIZE + 1).is_none());
    // Fill the whole block, then the next allocation fails.
    let mut served = 0usize;
    while let Some(_) = region.inner_alloc(1024) {
        served += 1;
        assert!(served <= BLOCK_SIZE / 1024);
    }
    assert_eq!(served, BLOCK_SIZE / 1024);
    assert!(region.inner_alloc(1024).is_none());
}

#[test]
fn bump_current_hole_size_tracks_cursor_and_limit() {
    let mut region = BumpBlock::new().unwrap();
    assert_eq!(region.current_hole_size(), BLOCK_SIZE);
    let p = region.inner_alloc(64).unwrap();
    assert_eq!(region.current_hole_size(), p);
}

#[test]
fn size_class_thresholds() {
    assert_eq!(SizeClass::get_for_size(1), Ok(SizeClass::Small));
    assert_eq!(SizeClass::get_for_size(LINE_SIZE), Ok(SizeClass::Small));
    assert_eq!(SizeClass::get_for_size(LINE_SIZE + 1), Ok(SizeClass::Medium));
    assert_eq!(SizeClass::get_for_size(BLOCK_CAPACITY), Ok(SizeClass::Medium));
    assert_eq!(SizeClass::get_for_size(BLOCK_CAPACITY + 1), Ok(SizeClass::Large));
}

#[test]
fn medium_request_larger_than_head_hole_goes_to_overflow() {
    let mut heap = StickyImmixHeap::new();
    // Establish a head region and leave it with a small current hole.
    let first = heap.allocate_object(7, &vec![1u8; 30000]).unwrap();
    let head_idx = first.block;
    let head_cursor = heap.blocks.regions[head_idx].cursor;
    let head_limit = heap.blocks.regions[head_idx].limit;
    let hole = head_cursor - head_limit;
    // A medium request larger than the head's current hole but smaller
    // than a block must be served from overflow and must not mutate the
    // head's cursor/limit.
    let big = hole + LINE_SIZE;
    assert!(big <= BLOCK_CAPACITY);
    let p = heap.find_space(big, SizeClass::Medium).unwrap();
    assert_ne!(p.block, head_idx);
    assert_eq!(heap.blocks.regions[head_idx].cursor, head_cursor);
    assert_eq!(heap.blocks.regions[head_idx].limit, head_limit);
}

#[test]
fn header_payload_round_trip() {
    let mut heap = StickyImmixHeap::new();
    let payload = vec![5u8; 24];
    let handle = heap.allocate_object(3, &payload).unwrap();
    let header = StickyImmixHeap::get_header(handle);
    assert_eq!(header.offset + HEADER_SIZE, handle.offset);
    let back = StickyImmixHeap::get_object(header);
    assert_eq!(back, handle);
    let forward = StickyImmixHeap::get_header(StickyImmixHeap::get_object(header));
    assert_eq!(forward, header);
}

#[test]
fn allocated_object_bytes_match_payload_and_header() {
    let mut heap = StickyImmixHeap::new();
    let payload: Vec<u8> = (0u8..32).collect();
    let handle = heap.allocate_object(9, &payload).unwrap();
    for (i, b) in payload.iter().enumerate() {
        assert_eq!(heap.read_byte(RawPtr { block: handle.block, offset: handle.offset + i }), *b);
    }
    let expected = ObjectHeader {
        type_id: 9,
        size: payload.len() as u32,
        size_class: SizeClass::Small,
        mark: Mark::Allocated,
    }
    .encode();
    let hdr = StickyImmixHeap::get_header(handle);
    for i in 0..HEADER_SIZE {
        assert_eq!(
            heap.read_byte(RawPtr { block: hdr.block, offset: hdr.offset + i }),
            expected[i]
        );
    }
}

#[test]
fn array_payload_is_zeroed() {
    for n in [0usize, 1, LINE_SIZE, BLOCK_CAPACITY - HEADER_SIZE] {
        let mut heap = StickyImmixHeap::new();
        let handle = heap.alloc_array(n as u32).unwrap();
        for i in 0..n {
            assert_eq!(
                heap.read_byte(RawPtr { block: handle.block, offset: handle.offset + i }),
                0,
                "byte {} of array of {} bytes",
                i,
                n
            );
        }
    }
}

#[test]
fn oversized_allocation_fails_without_corrupting_state() {
    let mut heap = StickyImmixHeap::new();
    let small = heap.allocate_object(1, &vec![0u8; 8]).unwrap();
    let regions_before = heap.blocks.regions.len();
    let head_before = heap.blocks.head;
    let cursor_before = heap.blocks.regions[small.block].cursor;
    let r = heap.allocate_object(1, &vec![0u8; BLOCK_CAPACITY]);
    assert_eq!(r, Err(AllocError::SizeNotSupported));
    let r2 = heap.alloc_array((BLOCK_CAPACITY + 1) as u32);
    assert_eq!(r2, Err(AllocError::SizeNotSupported));
    assert_eq!(heap.blocks.regions.len(), regions_before);
    assert_eq!(heap.blocks.head, head_before);
    assert_eq!(heap.blocks.regions[small.block].cursor, cursor_before);
}

#[test]
fn largest_supported_allocation_succeeds() {
    let mut heap = StickyImmixHeap::new();
    let n = BLOCK_CAPACITY - HEADER_SIZE;
    let handle = heap.allocate_object(2, &vec![0xEEu8; n]).unwrap();
    assert!(handle.offset >= HEADER_SIZE);
    let r = heap.allocate_object(2, &vec![0u8; n + 1]);
    assert_eq!(r, Err(AllocError::SizeNotSupported));
}

#[test]
fn header_encode_decode_round_trip() {
    let h = ObjectHeader {
        type_id: 0xBEEF,
        size: 123_456_789,
        size_class: SizeClass::Medium,
        mark: Mark::Allocated,
    };
    let bytes = h.encode();
    assert_eq!(bytes.len(), HEADER_SIZE);
    let back = ObjectHeader::decode(&bytes).unwrap();
    assert_eq!(back, h);
}

#[test]
fn header_decode_rejects_bad_codes() {
    let h = ObjectHeader {
        type_id: 1,
        size: 2,
        size_class: SizeClass::Small,
        mark: Mark::Unmarked,
    };
    let mut bytes = h.encode();
    bytes[6] = 9;
    assert!(ObjectHeader::decode(&bytes).is_none());
}

#[test]
fn error_mapping_from_block_errors() {
    assert_eq!(
        AllocError::from_block_error(BlockError::BadRequest),
        AllocError::BadRequest
    );
    assert_eq!(
        AllocError::from_block_error(BlockError::OutOfMemory),
        AllocError::OutOfMemory
    );
}

#[test]
fn bump_reset_forces_rescan() {
    let mut region = BumpBlock::new().unwrap();
    let _ = region.inner_alloc(256).unwrap();
    region.reset();
    assert_eq!(region.cursor, BLOCK_SIZE);
    assert_eq!(region.limit, BLOCK_SIZE);
    // With nothing marked, the rescan finds the whole block again.
    let p = region.inner_alloc(64).unwrap();
    assert!(p + 64 <= BLOCK_SIZE);
}

#[test]
fn overflow_region_is_reused_until_exhausted() {
    let mut bl = immix_heap::blocklist::BlockList::new();
    // First use acquires a region and installs it as overflow.
    let (i1, _) = bl.overflow_alloc(20000).unwrap();
    assert_eq!(bl.regions.len(), 1);
    assert_eq!(bl.overflow, Some(i1));
    // A fitting request is served by the same region, no new block.
    let (i2, _) = bl.overflow_alloc(10000).unwrap();
    assert_eq!(i2, i1);
    assert_eq!(bl.regions.len(), 1);
    // An exhausted overflow region is retired in place and replaced: the
    // table grows by exactly one and the new region serves the request.
    let (i3, off) = bl.overflow_alloc(20000).unwrap();
    assert_ne!(i3, i1);
    assert_eq!(bl.regions.len(), 2);
    assert_eq!(bl.overflow, Some(i3));
    assert_eq!(off, BLOCK_SIZE - 20000);
}

#[test]
fn bootstrap_installs_head_and_serves_from_it() {
    let mut heap = StickyImmixHeap::new();
    assert!(heap.blocks.head.is_none());
    let p = heap.find_space(64, SizeClass::Small).unwrap();
    assert_eq!(heap.blocks.head, Some(p.block));
    assert_eq!(heap.blocks.regions.len(), 1);
    // A fitting request keeps being served from the head.
    let q = heap.find_space(64, SizeClass::Small).unwrap();
    assert_eq!(q.block, p.block);
    assert!(q.offset + 64 <= p.offset);
    assert_eq!(heap.blocks.regions.len(), 1);
}
