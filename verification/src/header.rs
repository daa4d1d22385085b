//! The object header written immediately before every payload.
//!
//! The header is a fixed-size span of `HEADER_SIZE` bytes holding the type
//! tag, the payload size, the size class and the mark state, padded with
//! zeros up to the allocation alignment so that payloads stay aligned.

use vstd::prelude::*;
use crate::constants::HEADER_SIZE;
use crate::size_class::SizeClass;

verus! {

/// Mark state of an object, as the collector sees it.
#[derive(Clone, Copy, Debug, PartialEq, Eq, Structural)]
pub enum Mark {
    /// Freshly allocated since the last collection.
    Allocated,
    /// Not reached by the current trace.
    Unmarked,
    /// Reached by the current trace.
    Marked,
}

/// The metadata preceding every payload.
#[derive(Clone, Copy, Debug, PartialEq, Eq, Structural)]
pub struct ObjectHeader {
    /// Tag identifying the payload's type to the host runtime.
    pub type_id: u16,
    /// Payload size in bytes (the array length for arrays).
    pub size: u32,
    /// Class of the rounded header-plus-payload span.
    pub size_class: SizeClass,
    /// Mark state; freshly written headers carry `Allocated`.
    pub mark: Mark,
}

/// Byte code of a size class.
pub open spec fn spec_class_code(c: SizeClass) -> u8 {
    match c {
        SizeClass::Small => 0,
        SizeClass::Medium => 1,
        SizeClass::Large => 2,
    }
}

/// Byte code of a mark state.
pub open spec fn spec_mark_code(m: Mark) -> u8 {
    match m {
        Mark::Allocated => 0,
        Mark::Unmarked => 1,
        Mark::Marked => 2,
    }
}

impl ObjectHeader {
    /// The byte encoding of a header: type tag and size little-endian,
    /// then the two codes, then zero padding.
    pub open spec fn spec_encode(&self) -> Seq<u8> {
        seq![
            (self.type_id % 256) as u8,
            (self.type_id / 256) as u8,
            (self.size % 256) as u8,
            ((self.size / 256) % 256) as u8,
            ((self.size / 65536) % 256) as u8,
            ((self.size / 16777216) % 256) as u8,
            spec_class_code(self.size_class),
            spec_mark_code(self.mark),
            0u8,
            0u8,
            0u8,
            0u8,
            0u8,
            0u8,
            0u8,
            0u8,
        ]
    }

    /// The header a well-formed byte span decodes to, if any.
    pub open spec fn spec_decode(b: Seq<u8>) -> Option<ObjectHeader> {
        if b.len() == HEADER_SIZE && b[6] <= 2 && b[7] <= 2 && (forall|i: int|
            8 <= i < HEADER_SIZE ==> b[i] == 0) {
            Some(
                ObjectHeader {
                    type_id: (b[0] + b[1] * 256) as u16,
                    size: (b[2] + b[3] * 256 + b[4] * 65536 + b[5] * 16777216) as u32,
                    size_class: if b[6] == 0 {
                        SizeClass::Small
                    } else if b[6] == 1 {
                        SizeClass::Medium
                    } else {
                        SizeClass::Large
                    },
                    mark: if b[7] == 0 {
                        Mark::Allocated
                    } else if b[7] == 1 {
                        Mark::Unmarked
                    } else {
                        Mark::Marked
                    },
                },
            )
        } else {
            None
        }
    }

    /// Encodes the header into its byte span.
    pub fn encode(&self) -> (r: Vec<u8>)
        ensures
            r@ == self.spec_encode(),
            r@.len() == HEADER_SIZE,
    {
        let mut v: Vec<u8> = Vec::new();
        v.push((self.type_id % 256) as u8);
        v.push((self.type_id / 256) as u8);
        v.push((self.size % 256) as u8);
        v.push(((self.size / 256) % 256) as u8);
        v.push(((self.size / 65536) % 256) as u8);
        v.push(((self.size / 16777216) % 256) as u8);
        v.push(self.class_code());
        v.push(self.mark_code());
        v.push(0);
        v.push(0);
        v.push(0);
        v.push(0);
        v.push(0);
        v.push(0);
        v.push(0);
        v.push(0);
        proof {
            assert(v@ =~= self.spec_encode());
        }
        v
    }

    /// Byte code of this header's size class.
    pub fn class_code(&self) -> (r: u8)
        ensures
            r == spec_class_code(self.size_class),
    {
        match self.size_class {
            SizeClass::Small => 0,
            SizeClass::Medium => 1,
            SizeClass::Large => 2,
        }
    }

    /// Byte code of this header's mark state.
    pub fn mark_code(&self) -> (r: u8)
        ensures
            r == spec_mark_code(self.mark),
    {
        match self.mark {
            Mark::Allocated => 0,
            Mark::Unmarked => 1,
            Mark::Marked => 2,
        }
    }

    /// Decodes a header span read back from a block.
    pub fn decode(bytes: &Vec<u8>) -> (r: Option<ObjectHeader>)
        ensures
            r == Self::spec_decode(bytes@),
    {
        if bytes.len() != HEADER_SIZE {
            return None;
        }
        let c = bytes[6];
        let m = bytes[7];
        if c > 2 || m > 2 {
            return None;
        }
        let mut i: usize = 8;
        while i < HEADER_SIZE
            invariant
                8 <= i <= HEADER_SIZE,
                bytes@.len() == HEADER_SIZE,
                forall|j: int| 8 <= j < i ==> bytes@[j] == 0,
            decreases HEADER_SIZE - i,
        {
            if bytes[i] != 0 {
                return None;
            }
            i = i + 1;
        }
        let type_id: u16 = bytes[0] as u16 + bytes[1] as u16 * 256;
        let size: u32 = bytes[2] as u32 + bytes[3] as u32 * 256 + bytes[4] as u32 * 65536
            + bytes[5] as u32 * 16777216;
        let size_class = if c == 0 {
            SizeClass::Small
        } else if c == 1 {
            SizeClass::Medium
        } else {
            SizeClass::Large
        };
        let mark = if m == 0 {
            Mark::Allocated
        } else if m == 1 {
            Mark::Unmarked
        } else {
            Mark::Marked
        };
        Some(ObjectHeader { type_id, size, size_class, mark })
    }
}

/// Decoding inverts encoding: every header read back from the bytes it was
/// written as is the header itself.
pub proof fn lemma_header_encode_decode(h: ObjectHeader)
    ensures
        ObjectHeader::spec_decode(h.spec_encode()) == Some(h),
{
    let b = h.spec_encode();
    assert(b[6] <= 2);
    assert(b[7] <= 2);
    assert(b[0] + b[1] * 256 == h.type_id) by (nonlinear_arith)
        requires
            b[0] == h.type_id % 256,
            b[1] == h.type_id / 256,
            h.type_id < 65536,
    ;
    assert(b[2] + b[3] * 256 + b[4] * 65536 + b[5] * 16777216 == h.size) by (nonlinear_arith)
        requires
            b[2] == h.size % 256,
            b[3] == (h.size / 256) % 256,
            b[4] == (h.size / 65536) % 256,
            b[5] == (h.size / 16777216) % 256,
            h.size < 4294967296,
    ;
}

} // verus!
