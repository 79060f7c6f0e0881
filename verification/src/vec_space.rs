//! The growable root allocator: a buffer that extends itself on demand.

use vstd::prelude::*;
use vstd::slice::slice_subrange;
use crate::allocator::{space_ok, SpaceAllocator};

verus! {

/// A root allocator over a self-growing buffer: allocation extends the
/// buffer with zeroed bytes whenever the request passes its end, so it only
/// fails once the write offset would leave the 32-bit range a frame's size
/// field can express. Growth may relocate the underlying storage, which is
/// why views handed out earlier must be re-derived after every allocation —
/// the borrow rules enforce exactly that.
pub struct VecSpace {
    buffer: Vec<u8>,
    used: usize,
}

impl VecSpace {
    /// An empty growable space.
    pub fn new() -> (r: VecSpace)
        ensures
            r.buf() == Seq::<u8>::empty(),
            r.used() == 0,
            r.frames() == Seq::<int>::empty(),
            space_ok(r.buf(), r.used(), r.frames()),
    {
        VecSpace { buffer: Vec::new(), used: 0 }
    }

    /// Consumes the space and hands the buffer back for inspection.
    pub fn into_inner(self) -> (r: Vec<u8>)
        ensures
            r@ == self.buf(),
    {
        self.buffer
    }
}

impl SpaceAllocator for VecSpace {
    closed spec fn buf(&self) -> Seq<u8> {
        self.buffer@
    }

    closed spec fn used(&self) -> int {
        self.used as int
    }

    open spec fn frames(&self) -> Seq<int> {
        Seq::<int>::empty()
    }

    open spec fn can_alloc(&self, size: int) -> bool {
        self.used() + size <= 0xFFFF_FFFF
    }

    open spec fn can_rewind(&self, n: int) -> bool {
        0 <= n <= self.used()
    }

    fn allocate_and_split(&mut self, size: usize) -> (r: Option<(usize, usize)>) {
        if size <= 0xFFFF_FFFFusize - self.used {
            let start = self.used;
            let end = self.used + size;
            while self.buffer.len() < end
                invariant
                    self.used == old(self).used,
                    end as int <= 0xFFFF_FFFF,
                    old(self).buf().len() <= self.buffer@.len(),
                    forall|i: int|
                        0 <= i < old(self).buf().len()
                            ==> #[trigger] self.buffer@[i] == old(self).buf()[i],
                decreases end - self.buffer.len(),
            {
                self.buffer.push(0u8);
            }
            self.used = end;
            Some((start, end))
        } else {
            None
        }
    }

    fn rewind(&mut self, byte_count: usize) -> (r: bool) {
        if byte_count <= self.used {
            self.used = self.used - byte_count;
            true
        } else {
            false
        }
    }

    fn allocated_len(&self) -> (r: usize) {
        self.used
    }

    fn allocated_bytes(&self) -> (r: &[u8]) {
        slice_subrange(self.buffer.as_slice(), 0, self.used)
    }

    fn remaining_bytes(&self) -> (r: &[u8]) {
        slice_subrange(self.buffer.as_slice(), self.used, self.buffer.len())
    }

    fn write_byte_at(&mut self, i: usize, value: u8) {
        self.buffer.set(i, value);
    }
}

} // verus!
