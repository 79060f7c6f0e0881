//! The fixed-capacity root allocator: owns the buffer and the write offset.

use vstd::prelude::*;
use vstd::slice::slice_subrange;
use crate::allocator::{space_ok, SpaceAllocator};

verus! {

/// The root of every writer chain: owns the backing buffer and the single
/// write offset, and allocates directly against the buffer's capacity. The
/// buffer never moves or grows; allocation fails cleanly when it is full.
pub struct SpaceCursor {
    buffer: Vec<u8>,
    used: usize,
}

impl SpaceCursor {
    /// Takes ownership of `buffer` and places the write offset at its start.
    /// The capacity bound is forced by the record format: a frame's 32-bit
    /// size field could not account for a larger buffer.
    pub fn new(buffer: Vec<u8>) -> (r: SpaceCursor)
        requires
            buffer@.len() <= 0xFFFF_FFFF,
        ensures
            r.buf() == buffer@,
            r.used() == 0,
            r.frames() == Seq::<int>::empty(),
            space_ok(r.buf(), r.used(), r.frames()),
    {
        SpaceCursor { buffer, used: 0 }
    }

    /// Consumes the cursor and hands the buffer back for inspection.
    pub fn into_inner(self) -> (r: Vec<u8>)
        ensures
            r@ == self.buf(),
    {
        self.buffer
    }
}

impl SpaceAllocator for SpaceCursor {
    closed spec fn buf(&self) -> Seq<u8> {
        self.buffer@
    }

    closed spec fn used(&self) -> int {
        self.used as int
    }

    open spec fn frames(&self) -> Seq<int> {
        Seq::<int>::empty()
    }

    open spec fn can_alloc(&self, size: int) -> bool {
        self.used() + size <= self.buf().len() && self.used() + size <= 0xFFFF_FFFF
    }

    open spec fn can_rewind(&self, n: int) -> bool {
        0 <= n <= self.used()
    }

    fn allocate_and_split(&mut self, size: usize) -> (r: Option<(usize, usize)>) {
        if size <= self.buffer.len() - self.used && size <= 0xFFFF_FFFFusize - self.used {
            let start = self.used;
            let end = self.used + size;
            self.used = end;
            Some((start, end))
        } else {
            None
        }
    }

    fn rewind(&mut self, byte_count: usize) -> (r: bool) {
        if byte_count <= self.used {
            self.used = self.used - byte_count;
            true
        } else {
            false
        }
    }

    fn allocated_len(&self) -> (r: usize) {
        self.used
    }

    fn allocated_bytes(&self) -> (r: &[u8]) {
        slice_subrange(self.buffer.as_slice(), 0, self.used)
    }

    fn remaining_bytes(&self) -> (r: &[u8]) {
        slice_subrange(self.buffer.as_slice(), self.used, self.buffer.len())
    }

    fn write_byte_at(&mut self, i: usize, value: u8) {
        self.buffer.set(i, value);
    }
}

} // verus!
