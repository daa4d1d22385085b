//! The memory provider and the block it hands out.
//!
//! A block is a power-of-two-sized region of bytes.  In this arena model the
//! region is owned storage, and every address into it is a plain byte
//! offset; a block's base in the flat address space of the arena is its
//! index times `BLOCK_SIZE`, which is aligned to the block size by
//! construction.

use vstd::prelude::*;
use crate::constants::{BLOCK_SIZE, FRESH_BYTE};
use crate::errors::BlockError;

verus! {

/// True when `n` is a power of two.
pub open spec fn spec_is_pow2(n: int) -> bool
    decreases n,
{
    if n <= 0 {
        false
    } else if n == 1 {
        true
    } else {
        n % 2 == 0 && spec_is_pow2(n / 2)
    }
}

/// Runtime power-of-two test.
pub fn is_pow2(n: usize) -> (r: bool)
    ensures
        r == spec_is_pow2(n as int),
{
    if n == 0 {
        return false;
    }
    let mut m: usize = n;
    while m > 1
        invariant
            m >= 1,
            spec_is_pow2(n as int) == spec_is_pow2(m as int),
        decreases m,
    {
        if m % 2 != 0 {
            return false;
        }
        m = m / 2;
    }
    true
}

/// One fixed-size region acquired from the memory provider.
pub struct Block {
    /// The bytes of the region.
    pub storage: Vec<u8>,
    /// Size of the region in bytes; always a power of two.
    pub size: usize,
}

impl Block {
    /// The bytes the block currently holds.
    pub open spec fn view(&self) -> Seq<u8> {
        self.storage@
    }

    /// A block is well formed when its storage matches its stated size.
    pub open spec fn wf(&self) -> bool {
        &&& self.storage@.len() == self.size
        &&& spec_is_pow2(self.size as int)
    }

    /// Acquires a block of `size` bytes from the memory provider.  Fails
    /// with `BadRequest` if and only if `size` is not a power of two; in
    /// this arena model the provider itself never fails.
    pub fn new(size: usize) -> (r: Result<Block, BlockError>)
        ensures
            r is Ok <==> spec_is_pow2(size as int),
            r is Err ==> r == Err::<Block, BlockError>(BlockError::BadRequest),
            r matches Ok(b) ==> b.wf() && b.size == size && b@ == Seq::new(
                size as nat,
                |i: int| FRESH_BYTE,
            ),
    {
        if !is_pow2(size) {
            return Err(BlockError::BadRequest);
        }
        let storage = Self::alloc_block(size)?;
        Ok(Block { storage, size })
    }

    /// The provider's acquisition step: hands back `size` bytes filled with
    /// the fresh (deliberately nonzero) pattern.
    pub fn alloc_block(size: usize) -> (r: Result<Vec<u8>, BlockError>)
        ensures
            r is Ok,
            r matches Ok(v) ==> v@ == Seq::new(size as nat, |i: int| FRESH_BYTE),
    {
        let mut v: Vec<u8> = Vec::new();
        let mut i: usize = 0;
        while i < size
            invariant
                i <= size,
                v@ == Seq::new(i as nat, |j: int| FRESH_BYTE),
            decreases size - i,
    {
            v.push(FRESH_BYTE);
            i = i + 1;
            proof {
                assert(v@ =~= Seq::new(i as nat, |j: int| FRESH_BYTE));
            }
        }
        Ok(v)
    }

    /// Borrow of the block's bytes.
    pub fn as_ptr(&self) -> (r: &Vec<u8>)
        ensures
            r@ == self@,
    {
        &self.storage
    }

    /// Reads one byte of the block.
    pub fn byte_at(&self, i: usize) -> (r: u8)
        requires
            i < self@.len(),
        ensures
            r == self@[i as int],
    {
        self.storage[i]
    }

    /// Overwrites one byte of the block.
    pub fn set_byte(&mut self, i: usize, v: u8)
        requires
            i < old(self)@.len(),
        ensures
            final(self)@ == old(self)@.update(i as int, v),
            final(self).size == old(self).size,
    {
        self.storage[i] = v;
    }

    /// Returns the whole region to the memory provider.  A block is always
    /// released whole, with the same size it was acquired with.
    pub fn dealloc_block(block: Block) {
        let _ = block;
    }
}

} // verus!
