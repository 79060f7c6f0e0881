//! The framed writer: an allocator that maintains one record header.
//!
//! An [`AtomSpaceWriter`] wraps any other allocator, remembers the buffer
//! offset of the header it wrote when the frame was opened, and forwards
//! every allocation to its parent while adding the allocated size to its own
//! header's size field — re-resolved from the offset on every call, never
//! through a cached pointer, so the accounting survives buffer growth.
//! Because a writer owns its parent for its whole lifetime, only the
//! innermost frame can allocate; handing the parent back (dropping the
//! frame) freezes the header.

use vstd::prelude::*;
use vstd::bytes::{lemma_auto_spec_u32_to_from_le_bytes, spec_u32_to_le_bytes};
use crate::aligned;
use crate::aligned::{header_body_size_at, header_type_at};
use crate::allocator::{
    frame_ok, in_size_field, lemma_align_pad, lemma_size_field_push, lemma_subrange_pointwise, put_u32,
    size_fields_bumped, space_ok, spec_align_pad, SpaceAllocator,
};
use crate::header::AtomHeader;

verus! {

/// Marker naming the framed-writer handle family; the handle itself is
/// [`AtomSpaceWriter`].
pub struct AtomSpaceWriterHandle;

/// A space allocator that tracks the amount of allocated space in an atom
/// header it wrote at a fixed buffer offset.
pub struct AtomSpaceWriter<A: SpaceAllocator> {
    atom_header_index: usize,
    parent: A,
}

impl<A: SpaceAllocator> AtomSpaceWriter<A> {
    /// The parent allocator, as a ghost value.
    pub closed spec fn parent_space(&self) -> A {
        self.parent
    }

    /// The buffer offset of the header this writer maintains.
    pub closed spec fn header_index(&self) -> int {
        self.atom_header_index as int
    }

    /// A consistent writer sees a consistent parent, whose frames all lie
    /// fully in front of this writer's own header.
    proof fn lemma_parent_ok(&self)
        requires
            space_ok(self.buf(), self.used(), self.frames()),
        ensures
            space_ok(self.parent_space().buf(), self.parent_space().used(), self.parent_space().frames()),
            forall|k: int|
                0 <= k < self.parent_space().frames().len()
                    ==> #[trigger] self.parent_space().frames()[k] + 8 <= self.header_index(),
            frame_ok(self.buf(), self.used(), self.header_index()),
    {
        let pf = self.parent_space().frames();
        let fr = self.frames();
        assert(fr[pf.len() as int] == self.header_index());
        assert(frame_ok(self.buf(), self.used(), fr[pf.len() as int]));
        assert forall|k: int| 0 <= k < pf.len() implies frame_ok(
            self.buf(),
            self.used(),
            #[trigger] pf[k],
        ) by {
            assert(fr[k] == pf[k]);
            assert(frame_ok(self.buf(), self.used(), fr[k]));
        }
        assert forall|k1: int, k2: int| 0 <= k1 < k2 < pf.len() implies #[trigger] pf[k1] + 8
            <= #[trigger] pf[k2] by {
            assert(fr[k1] == pf[k1]);
            assert(fr[k2] == pf[k2]);
        }
        assert forall|k: int| 0 <= k < pf.len() implies #[trigger] pf[k] + 8
            <= self.header_index() by {
            assert(fr[k] == pf[k]);
            assert(fr[k] + 8 <= fr[pf.len() as int]);
        }
    }

    /// Opens a new frame on top of `parent`: pads the write offset to header
    /// alignment, allocates a fresh header with tag `atom_type` and a zero
    /// body size, and returns the writer responsible for that header. When
    /// the allocation fails, the parent comes back untouched.
    pub fn write_new(parent: A, atom_type: u32) -> (r: Result<AtomSpaceWriter<A>, A>)
        requires
            space_ok(parent.buf(), parent.used(), parent.frames()),
        ensures
            match r {
                Ok(w) => {
                    &&& w.header_index() == parent.used() + spec_align_pad(parent.used(), 8)
                    &&& w.frames() == parent.frames().push(w.header_index())
                    &&& w.used() == w.header_index() + 8
                    &&& w.buf().len() >= parent.buf().len()
                    &&& space_ok(w.buf(), w.used(), w.frames())
                    &&& header_type_at(w.buf(), w.header_index()) == atom_type
                    &&& header_body_size_at(w.buf(), w.header_index()) == 0
                    &&& forall|i: int|
                        0 <= i < parent.buf().len() && !in_size_field(parent.frames(), i) && !(
                        w.header_index() <= i < w.header_index() + 8)
                            ==> #[trigger] w.buf()[i] == parent.buf()[i]
                    &&& forall|k: int|
                        0 <= k < parent.frames().len()
                            ==> header_body_size_at(w.buf(), #[trigger] parent.frames()[k])
                            == header_body_size_at(parent.buf(), parent.frames()[k]) + (
                        w.header_index() + 8 - parent.used())
                    &&& parent.can_alloc(spec_align_pad(parent.used(), 8) + 8)
                },
                Err(p) => {
                    &&& p == parent
                    &&& !parent.can_alloc(spec_align_pad(parent.used(), 8) + 8)
                },
            },
    {
        let mut parent = parent;
        let ghost p0 = parent;
        let used = parent.allocated_len();
        let pad = (8usize - used % 8) % 8;
        proof {
            lemma_align_pad(used as int, 8);
            assert(pad as int == spec_align_pad(used as int, 8));
        }
        match parent.allocate_and_split(pad + 8) {
            None => Err(parent),
            Some((start, _end)) => {
                let idx = start + pad;
                let ghost buf1 = parent.buf();
                proof {
                    assert forall|k: int| 0 <= k < parent.frames().len() implies #[trigger] parent
                        .frames()[k] + 8 <= idx by {
                        assert(frame_ok(p0.buf(), p0.used(), parent.frames()[k]));
                    }
                }
                put_u32(&mut parent, idx, 0);
                let ghost buf2 = parent.buf();
                put_u32(&mut parent, idx + 4, atom_type);
                let w = AtomSpaceWriter { atom_header_index: idx, parent };
                proof {
                    lemma_auto_spec_u32_to_from_le_bytes();
                    let used0 = p0.used();
                    let fr = p0.frames();
                    let hi = idx as int;
                    let wfr = fr.push(hi);
                    let buff = w.parent_space().buf();
                    let usedf = w.parent_space().used();

                    // The two header fields as laid down by the writes.
                    lemma_subrange_pointwise(buff, buf2, hi, hi + 4);
                    assert(buff.subrange(hi, hi + 4) == spec_u32_to_le_bytes(0u32));
                    assert(header_body_size_at(buff, hi) == 0);
                    assert(buff.subrange(hi + 4, hi + 8) == spec_u32_to_le_bytes(atom_type));
                    assert(header_type_at(buff, hi) == atom_type);

                    // The new frame list is consistent.
                    assert forall|k: int| 0 <= k < wfr.len() implies frame_ok(
                        buff,
                        usedf,
                        #[trigger] wfr[k],
                    ) by {
                        if k < fr.len() {
                            assert(wfr[k] == fr[k]);
                            assert(frame_ok(buff, usedf, fr[k]));
                        } else {
                            assert(wfr[k] == hi);
                        }
                    }
                    assert forall|k1: int, k2: int| 0 <= k1 < k2 < wfr.len() implies #[trigger] wfr[k1]
                        + 8 <= #[trigger] wfr[k2] by {
                        if k2 < fr.len() {
                            assert(wfr[k1] == fr[k1]);
                            assert(wfr[k2] == fr[k2]);
                        } else {
                            assert(wfr[k2] == hi);
                            assert(wfr[k1] == fr[k1]);
                            assert(frame_ok(p0.buf(), used0, fr[k1]));
                        }
                    }
                    assert(space_ok(w.buf(), w.used(), w.frames()));

                    // Every enclosing frame accounts the padding plus the header.
                    assert forall|k: int| 0 <= k < fr.len() implies header_body_size_at(
                        buff,
                        #[trigger] fr[k],
                    ) == header_body_size_at(p0.buf(), fr[k]) + (hi + 8 - used0) by {
                        let f = fr[k];
                        assert(frame_ok(p0.buf(), used0, f));
                        assert(buf1.subrange(f, f + 4) == spec_u32_to_le_bytes(
                            (header_body_size_at(p0.buf(), f) + (pad + 8)) as u32,
                        ));
                        lemma_subrange_pointwise(buf2, buf1, f, f + 4);
                        lemma_subrange_pointwise(buff, buf2, f, f + 4);
                        assert(frame_ok(buff, usedf, wfr[k]));
                    }

                    // Nothing else moved.
                    assert forall|i: int|
                        0 <= i < p0.buf().len() && !in_size_field(fr, i) && !(hi <= i < hi + 8)
                            implies #[trigger] w.buf()[i] == p0.buf()[i] by {
                        assert(buf1[i] == p0.buf()[i]);
                        assert(buf2[i] == buf1[i]);
                        assert(w.buf()[i] == buf2[i]);
                    }
                }
                Ok(w)
            },
        }
    }

    /// Re-borrows the frame handle, so that it can be passed to code that
    /// expects to take the handle over: a type-system accommodation with no
    /// runtime effect — it hands back the same writer.
    #[inline]
    pub fn re_borrow(self) -> (r: AtomSpaceWriter<A>)
        ensures
            r == self,
    {
        AtomSpaceWriter { atom_header_index: self.atom_header_index, parent: self.parent }
    }

    /// Reads this frame's header back from the buffer, without finishing the
    /// frame: the accumulated body size and the type tag.
    pub fn atom_header(&self) -> (h: AtomHeader)
        requires
            space_ok(self.buf(), self.used(), self.frames()),
        ensures
            h.size_of_body as int == self.used() - self.header_index() - 8,
            h.atom_type == header_type_at(self.buf(), self.header_index()),
    {
        proof {
            self.lemma_parent_ok();
        }
        let bytes = self.parent.allocated_bytes();
        let r = aligned::try_read_header(bytes, self.atom_header_index);
        proof {
            let hi = self.header_index();
            assert(bytes@.len() == self.used());
            assert(r.is_some());
            lemma_subrange_pointwise(bytes@, self.buf(), hi, hi + 4);
            lemma_subrange_pointwise(bytes@, self.buf(), hi + 4, hi + 8);
        }
        r.unwrap()
    }

    /// Finishes the frame: consumes the writer and hands the parent
    /// allocator back. The header and body stay in the buffer as a completed
    /// record; only the capability to keep appending to it is given up.
    pub fn into_parent(self) -> (r: A)
        ensures
            r == self.parent_space(),
            space_ok(self.buf(), self.used(), self.frames()) ==> space_ok(
                r.buf(),
                r.used(),
                r.frames(),
            ),
    {
        proof {
            if space_ok(self.buf(), self.used(), self.frames()) {
                self.lemma_parent_ok();
            }
        }
        self.parent
    }
}

impl<A: SpaceAllocator> SpaceAllocator for AtomSpaceWriter<A> {
    open spec fn buf(&self) -> Seq<u8> {
        self.parent_space().buf()
    }

    open spec fn used(&self) -> int {
        self.parent_space().used()
    }

    open spec fn frames(&self) -> Seq<int> {
        self.parent_space().frames().push(self.header_index())
    }

    open spec fn can_alloc(&self, size: int) -> bool {
        self.parent_space().can_alloc(size)
    }

    open spec fn can_rewind(&self, n: int) -> bool {
        self.parent_space().can_rewind(n) && n <= self.used() - self.header_index() - 8
    }

    fn allocate_and_split(&mut self, size: usize) -> (r: Option<(usize, usize)>) {
        proof {
            self.lemma_parent_ok();
        }
        let ghost s0 = *self;
        match self.parent.allocate_and_split(size) {
            None => None,
            Some((start, end)) => {
                let idx = self.atom_header_index;
                let ghost buf1 = self.parent.buf();
                let new_len = self.parent.allocated_len();
                let new_size = new_len - idx - 8;
                put_u32(&mut self.parent, idx, new_size as u32);
                proof {
                    lemma_auto_spec_u32_to_from_le_bytes();
                    let used0 = s0.used();
                    let fr = s0.parent_space().frames();
                    let hi = s0.header_index();
                    let wfr = s0.frames();
                    let buff = self.parent_space().buf();
                    let usedf = self.parent_space().used();
                    assert(wfr == fr.push(hi));

                    // Own header now spells the grown body size.
                    assert(buff.subrange(hi, hi + 4) == spec_u32_to_le_bytes(
                        (header_body_size_at(s0.buf(), hi) + size) as u32,
                    ));
                    assert(header_body_size_at(buff, hi) == usedf - hi - 8);

                    // The frame list is consistent again.
                    assert forall|k: int| 0 <= k < wfr.len() implies frame_ok(
                        buff,
                        usedf,
                        #[trigger] wfr[k],
                    ) by {
                        if k < fr.len() {
                            assert(wfr[k] == fr[k]);
                            assert(frame_ok(buff, usedf, fr[k]));
                        } else {
                            assert(wfr[k] == hi);
                        }
                    }
                    assert forall|k1: int, k2: int| 0 <= k1 < k2 < wfr.len() implies #[trigger] wfr[k1]
                        + 8 <= #[trigger] wfr[k2] by {
                        assert(frame_ok(s0.buf(), used0, wfr[k1]));
                        assert(frame_ok(s0.buf(), used0, wfr[k2]));
                    }
                    assert(space_ok(self.buf(), self.used(), self.frames()));

                    // All live size fields, own one included, were bumped by `size`.
                    assert forall|k: int| 0 <= k < wfr.len() implies self.buf().subrange(
                        #[trigger] wfr[k],
                        wfr[k] + 4,
                    ) == spec_u32_to_le_bytes(
                        (header_body_size_at(s0.buf(), wfr[k]) + size) as u32,
                    ) by {
                        if k < fr.len() {
                            let f = fr[k];
                            assert(wfr[k] == f);
                            assert(frame_ok(s0.buf(), used0, f));
                            assert(f + 8 <= hi);
                            assert(buf1.subrange(f, f + 4) == spec_u32_to_le_bytes(
                                (header_body_size_at(s0.buf(), f) + size) as u32,
                            ));
                            lemma_subrange_pointwise(buff, buf1, f, f + 4);
                        } else {
                            assert(wfr[k] == hi);
                        }
                    }
                    assert forall|i: int|
                        0 <= i < s0.buf().len() && !in_size_field(wfr, i)
                            implies #[trigger] self.buf()[i] == s0.buf()[i] by {
                        lemma_size_field_push(fr, hi, i);
                        assert(wfr[fr.len() as int] == hi);
                        assert(!in_size_field(fr, i));
                        assert(!(hi <= i < hi + 4));
                        assert(buf1[i] == s0.buf()[i]);
                        assert(self.buf()[i] == buf1[i]);
                    }
                    assert(size_fields_bumped(s0.buf(), self.buf(), s0.frames(), size as int));
                }
                Some((start, end))
            },
        }
    }

    fn rewind(&mut self, byte_count: usize) -> (r: bool) {
        proof {
            self.lemma_parent_ok();
        }
        let ghost s0 = *self;
        let idx = self.atom_header_index;
        let own_size = self.parent.allocated_len() - idx - 8;
        if byte_count > own_size {
            false
        } else {
            let rewound = self.parent.rewind(byte_count);
            if rewound {
                let ghost buf1 = self.parent.buf();
                let new_size = own_size - byte_count;
                put_u32(&mut self.parent, idx, new_size as u32);
                proof {
                    lemma_auto_spec_u32_to_from_le_bytes();
                    let used0 = s0.used();
                    let fr = s0.parent_space().frames();
                    let hi = s0.header_index();
                    let wfr = s0.frames();
                    let buff = self.parent_space().buf();
                    let usedf = self.parent_space().used();
                    assert(wfr == fr.push(hi));

                    assert(buff.subrange(hi, hi + 4) == spec_u32_to_le_bytes(
                        (header_body_size_at(s0.buf(), hi) - byte_count) as u32,
                    ));
                    assert(header_body_size_at(buff, hi) == usedf - hi - 8);

                    assert forall|k: int| 0 <= k < wfr.len() implies frame_ok(
                        buff,
                        usedf,
                        #[trigger] wfr[k],
                    ) by {
                        if k < fr.len() {
                            assert(wfr[k] == fr[k]);
                            assert(frame_ok(buff, usedf, fr[k]));
                        } else {
                            assert(wfr[k] == hi);
                        }
                    }
                    assert forall|k1: int, k2: int| 0 <= k1 < k2 < wfr.len() implies #[trigger] wfr[k1]
                        + 8 <= #[trigger] wfr[k2] by {
                        assert(frame_ok(s0.buf(), used0, wfr[k1]));
                        assert(frame_ok(s0.buf(), used0, wfr[k2]));
                    }
                    assert(space_ok(self.buf(), self.used(), self.frames()));

                    assert forall|k: int| 0 <= k < wfr.len() implies self.buf().subrange(
                        #[trigger] wfr[k],
                        wfr[k] + 4,
                    ) == spec_u32_to_le_bytes(
                        (header_body_size_at(s0.buf(), wfr[k]) - byte_count) as u32,
                    ) by {
                        if k < fr.len() {
                            let f = fr[k];
                            assert(wfr[k] == f);
                            assert(frame_ok(s0.buf(), used0, f));
                            assert(f + 8 <= hi);
                            assert(buf1.subrange(f, f + 4) == spec_u32_to_le_bytes(
                                (header_body_size_at(s0.buf(), f) - byte_count) as u32,
                            ));
                            lemma_subrange_pointwise(buff, buf1, f, f + 4);
                        } else {
                            assert(wfr[k] == hi);
                        }
                    }
                    assert forall|i: int|
                        0 <= i < s0.buf().len() && !in_size_field(wfr, i)
                            implies #[trigger] self.buf()[i] == s0.buf()[i] by {
                        lemma_size_field_push(fr, hi, i);
                        assert(wfr[fr.len() as int] == hi);
                        assert(!in_size_field(fr, i));
                        assert(!(hi <= i < hi + 4));
                        assert(buf1[i] == s0.buf()[i]);
                        assert(self.buf()[i] == buf1[i]);
                    }
                    assert(size_fields_bumped(
                        s0.buf(),
                        self.buf(),
                        s0.frames(),
                        -(byte_count as int),
                    ));
                }
                true
            } else {
                false
            }
        }
    }

    fn allocated_len(&self) -> (r: usize) {
        self.parent.allocated_len()
    }

    fn allocated_bytes(&self) -> (r: &[u8]) {
        proof {
            self.lemma_parent_ok();
        }
        self.parent.allocated_bytes()
    }

    fn remaining_bytes(&self) -> (r: &[u8]) {
        proof {
            self.lemma_parent_ok();
        }
        self.parent.remaining_bytes()
    }

    fn write_byte_at(&mut self, i: usize, value: u8) {
        proof {
            self.lemma_parent_ok();
            let fr = self.parent_space().frames();
            let wfr = self.frames();
            assert forall|k: int| 0 <= k < fr.len() implies #[trigger] fr[k] + 8 <= i by {
                assert(wfr[k] == fr[k]);
                assert(wfr[k] + 8 <= i);
            }
            assert(wfr[fr.len() as int] + 8 <= i);
        }
        let ghost s0 = *self;
        self.parent.write_byte_at(i, value);
        proof {
            let fr = s0.parent_space().frames();
            let hi = s0.header_index();
            let wfr = s0.frames();
            let buff = self.parent_space().buf();
            let usedf = self.parent_space().used();
            lemma_subrange_pointwise(buff, s0.buf(), hi, hi + 4);
            assert forall|k: int| 0 <= k < wfr.len() implies frame_ok(
                buff,
                usedf,
                #[trigger] wfr[k],
            ) by {
                if k < fr.len() {
                    assert(wfr[k] == fr[k]);
                    assert(frame_ok(buff, usedf, fr[k]));
                } else {
                    assert(wfr[k] == hi);
                    assert(frame_ok(s0.buf(), s0.used(), hi));
                }
            }
            assert forall|k1: int, k2: int| 0 <= k1 < k2 < wfr.len() implies #[trigger] wfr[k1] + 8
                <= #[trigger] wfr[k2] by {
                assert(frame_ok(s0.buf(), s0.used(), wfr[k1]));
                assert(frame_ok(s0.buf(), s0.used(), wfr[k2]));
            }
            assert(space_ok(self.buf(), self.used(), self.frames()));
        }
    }
}

} // verus!
