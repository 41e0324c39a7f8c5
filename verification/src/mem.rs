//! The guest's linear memory, behind a bounds-checked accessor.
//!
//! All reads and writes of guest memory go through this single choke point:
//! a write inside the guest model must be proved in bounds, and the host's
//! copy-out validates the offset against the current memory size before any
//! byte is read. Memory grows in whole WebAssembly pages and its size never
//! exceeds `MEMORY_LIMIT`, so every offset fits in the `u32` the guest ABI
//! uses.

use vstd::prelude::*;
use crate::error::FatalError;

verus! {

/// Size in bytes of one WebAssembly memory page.
pub const PAGE_SIZE: usize = 65536;

/// Upper bound on the guest memory size: offsets must fit in a `u32`.
pub const MEMORY_LIMIT: usize = 0xFFFF_FFFF;

/// A guest's linear memory region.
pub struct GuestMemory {
    bytes: Vec<u8>,
}

impl View for GuestMemory {
    type V = Seq<u8>;

    closed spec fn view(&self) -> Seq<u8> {
        self.bytes@
    }
}

impl GuestMemory {
    /// Creates a zero-filled memory of `size` bytes.
    pub fn new(size: usize) -> (m: GuestMemory)
        requires
            size <= MEMORY_LIMIT,
        ensures
            m@.len() == size,
            forall|i: int| 0 <= i < size ==> m@[i] == 0u8,
    {
        let mut bytes: Vec<u8> = Vec::new();
        while bytes.len() < size
            invariant
                bytes.len() <= size,
                forall|i: int| 0 <= i < bytes.len() ==> bytes@[i] == 0u8,
            decreases size - bytes.len(),
        {
            bytes.push(0u8);
        }
        GuestMemory { bytes }
    }

    /// Current memory size in bytes.
    pub fn size(&self) -> (n: usize)
        ensures
            n == self@.len(),
    {
        self.bytes.len()
    }

    /// Grows the memory by `pages` whole pages of zero bytes. Fails, leaving
    /// the memory unchanged, exactly when the grown size would exceed
    /// `MEMORY_LIMIT`.
    pub fn grow_pages(&mut self, pages: usize) -> (r: Result<(), FatalError>)
        ensures
            r is Ok <==> old(self)@.len() + pages * PAGE_SIZE <= MEMORY_LIMIT,
            r is Err ==> final(self)@ == old(self)@ && r == Err::<(), FatalError>(
                FatalError::ResourceExhaustion,
            ),
            r is Ok ==> {
                &&& final(self)@.len() == old(self)@.len() + pages * PAGE_SIZE
                &&& forall|i: int| 0 <= i < old(self)@.len() ==> final(self)@[i] == old(self)@[i]
                &&& forall|i: int|
                    old(self)@.len() <= i < final(self)@.len() ==> final(self)@[i] == 0u8
            },
    {
        if pages > MEMORY_LIMIT / PAGE_SIZE {
            proof {
                vstd::arithmetic::mul::lemma_mul_inequality(
                    MEMORY_LIMIT as int / PAGE_SIZE as int + 1,
                    pages as int,
                    PAGE_SIZE as int,
                );
            }
            return Err(FatalError::ResourceExhaustion);
        }
        let extra: usize = pages * PAGE_SIZE;
        if self.bytes.len() > MEMORY_LIMIT - extra {
            return Err(FatalError::ResourceExhaustion);
        }
        let target: usize = self.bytes.len() + extra;
        while self.bytes.len() < target
            invariant
                old(self)@.len() + extra >= self.bytes.len() >= old(self)@.len(),
                target == old(self)@.len() + extra,
                forall|i: int| 0 <= i < old(self)@.len() ==> self.bytes@[i] == old(self)@[i],
                forall|i: int|
                    old(self)@.len() <= i < self.bytes.len() ==> self.bytes@[i] == 0u8,
            decreases target - self.bytes.len(),
        {
            self.bytes.push(0u8);
        }
        Ok(())
    }

    /// Reads the byte at `offset`, which the caller must show is in bounds.
    pub fn read_byte(&self, offset: usize) -> (b: u8)
        requires
            offset < self@.len(),
        ensures
            b == self@[offset as int],
    {
        self.bytes[offset]
    }

    /// Writes the byte at `offset`, which the caller must show is in bounds.
    pub fn write_byte(&mut self, offset: usize, value: u8)
        requires
            offset < old(self)@.len(),
        ensures
            final(self)@ == old(self)@.update(offset as int, value),
    {
        self.bytes.set(offset, value);
    }

    /// Fills `len` bytes starting at `offset` with `value`.
    pub fn fill_region(&mut self, offset: usize, len: usize, value: u8)
        requires
            offset + len <= old(self)@.len(),
        ensures
            final(self)@.len() == old(self)@.len(),
            forall|i: int|
                0 <= i < final(self)@.len() ==> final(self)@[i] == if offset <= i < offset
                    + len {
                    value
                } else {
                    old(self)@[i]
                },
    {
        let n: usize = self.bytes.len();
        let mut k: usize = 0;
        while k < len
            invariant
                k <= len,
                n == old(self)@.len(),
                offset + len <= self@.len(),
                self@.len() == old(self)@.len(),
                forall|i: int|
                    0 <= i < self@.len() ==> self@[i] == if offset <= i < offset + k {
                        value
                    } else {
                        old(self)@[i]
                    },
            decreases len - k,
        {
            self.write_byte(offset + k, value);
            k = k + 1;
        }
    }

    /// Copies `src` into memory starting at `offset`.
    pub fn write_region(&mut self, offset: usize, src: &Vec<u8>)
        requires
            offset + src@.len() <= old(self)@.len(),
        ensures
            final(self)@.len() == old(self)@.len(),
            forall|i: int|
                0 <= i < final(self)@.len() ==> final(self)@[i] == if offset <= i < offset
                    + src@.len() {
                    src@[i - offset]
                } else {
                    old(self)@[i]
                },
    {
        let n: usize = self.bytes.len();
        let mut k: usize = 0;
        while k < src.len()
            invariant
                k <= src@.len(),
                n == old(self)@.len(),
                offset + src@.len() <= self@.len(),
                self@.len() == old(self)@.len(),
                forall|i: int|
                    0 <= i < self@.len() ==> self@[i] == if offset <= i < offset + k {
                        src@[i - offset]
                    } else {
                        old(self)@[i]
                    },
            decreases src@.len() - k,
        {
            self.write_byte(offset + k, src[k]);
            k = k + 1;
        }
    }

    /// Copies `len` bytes out of memory, starting at `offset`, into a fresh
    /// host-local buffer. The offset is validated against the current memory
    /// size before any byte is read: the copy succeeds exactly when
    /// `offset + len` lies within memory, and is rejected as a fatal bounds
    /// violation otherwise.
    pub fn copy_out(&self, offset: usize, len: usize) -> (r: Result<Vec<u8>, FatalError>)
        ensures
            r is Ok <==> offset + len <= self@.len(),
            r is Err ==> r == Err::<Vec<u8>, FatalError>(FatalError::BoundsViolation),
            r is Ok ==> r->Ok_0@ == self@.subrange(offset as int, offset as int + len as int),
    {
        if len > self.bytes.len() || offset > self.bytes.len() - len {
            return Err(FatalError::BoundsViolation);
        }
        let n: usize = self.bytes.len();
        let mut out: Vec<u8> = Vec::new();
        let mut k: usize = 0;
        while k < len
            invariant
                k <= len,
                n == self@.len(),
                offset + len <= self@.len(),
                out@.len() == k,
                forall|i: int| 0 <= i < k ==> out@[i] == self@[offset + i],
            decreases len - k,
        {
            out.push(self.read_byte(offset + k));
            k = k + 1;
        }
        proof {
            assert(out@ =~= self@.subrange(offset as int, offset as int + len as int));
        }
        Ok(out)
    }
}

} // verus!
