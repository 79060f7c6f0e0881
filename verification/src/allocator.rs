//! The allocation contract shared by the root cursors and the framed writer,
//! together with the ghost model of a buffer under construction.
//!
//! The model of an allocator is a triple: the backing bytes (`buf`), the
//! write offset (`used`) separating allocated from free bytes, and the header
//! offsets of the live frames (`frames`), outermost first. The central
//! invariant, [`space_ok`], says that every live frame's size field equals
//! the number of bytes allocated behind its header — the accounting that the
//! framed writer maintains in O(1) per write.

use vstd::prelude::*;
use vstd::arithmetic::div_mod::{
    lemma_fundamental_div_mod, lemma_mod_division_less_than_divisor, lemma_mod_multiples_basic, lemma_mod_self_0,
    lemma_small_mod,
};
use vstd::bytes::{spec_u32_to_le_bytes, u32_to_le_bytes};
use crate::aligned::header_body_size_at;

verus! {

/// The frame whose header starts at `h` is consistent with write offset
/// `used`: the header is 8-byte aligned, lies inside the allocated region,
/// and its size field counts exactly the bytes allocated behind it.
pub open spec fn frame_ok(buf: Seq<u8>, used: int, h: int) -> bool {
    &&& 0 <= h
    &&& h % 8 == 0
    &&& h + 8 <= used
    &&& header_body_size_at(buf, h) == used - h - 8
}

/// The whole-buffer invariant: the write offset is inside the buffer and
/// within the 32-bit range a size field can express, every live frame is
/// consistent, and the frames are properly nested (each header lies fully
/// behind the headers of the frames enclosing it).
pub open spec fn space_ok(buf: Seq<u8>, used: int, frames: Seq<int>) -> bool {
    &&& 0 <= used <= buf.len()
    &&& used <= 0xFFFF_FFFF
    &&& forall|k: int| 0 <= k < frames.len() ==> frame_ok(buf, used, #[trigger] frames[k])
    &&& forall|k1: int, k2: int|
        0 <= k1 < k2 < frames.len() ==> #[trigger] frames[k1] + 8 <= #[trigger] frames[k2]
}

/// Byte `i` lies inside the size field of some live frame.
pub open spec fn in_size_field(frames: Seq<int>, i: int) -> bool {
    exists|k: int| 0 <= k < frames.len() && #[trigger] frames[k] <= i < frames[k] + 4
}

/// The pure effect of one allocation (or rewind) on the buffer bytes: every
/// live frame's size field is re-encoded with `delta` added, and nothing
/// else changes (the buffer may have grown at the end).
pub open spec fn size_fields_bumped(pre: Seq<u8>, post: Seq<u8>, frames: Seq<int>, delta: int) -> bool {
    &&& post.len() >= pre.len()
    &&& forall|i: int|
        0 <= i < pre.len() && !in_size_field(frames, i) ==> #[trigger] post[i] == pre[i]
    &&& forall|k: int|
        0 <= k < frames.len() ==> post.subrange(#[trigger] frames[k], frames[k] + 4)
            == spec_u32_to_le_bytes((header_body_size_at(pre, frames[k]) + delta) as u32)
}

/// A byte inside some frame's size field is still inside one after another
/// frame is pushed onto the list.
pub proof fn lemma_size_field_push(frames: Seq<int>, x: int, i: int)
    ensures
        in_size_field(frames, i) ==> in_size_field(frames.push(x), i),
{
    if in_size_field(frames, i) {
        let k = choose|k: int| 0 <= k < frames.len() && #[trigger] frames[k] <= i < frames[k] + 4;
        assert(frames.push(x)[k] == frames[k]);
    }
}

/// Two byte sequences that agree pointwise on a range have equal subranges.
pub proof fn lemma_subrange_pointwise(a: Seq<u8>, b: Seq<u8>, lo: int, hi: int)
    requires
        0 <= lo <= hi,
        hi <= a.len(),
        hi <= b.len(),
        forall|i: int| lo <= i < hi ==> #[trigger] a[i] == b[i],
    ensures
        a.subrange(lo, hi) == b.subrange(lo, hi),
{
    assert(a.subrange(lo, hi) =~= b.subrange(lo, hi));
}

/// The padding that brings `pos` up to the next multiple of `align`.
pub open spec fn spec_align_pad(pos: int, align: int) -> int {
    (align - pos % align) % align
}

/// The padding is less than `align` and lands the position on a multiple of
/// `align`; an already aligned position needs none.
pub proof fn lemma_align_pad(pos: int, align: int)
    requires
        0 <= pos,
        0 < align,
    ensures
        0 <= spec_align_pad(pos, align) < align,
        (pos + spec_align_pad(pos, align)) % align == 0,
        pos % align == 0 ==> spec_align_pad(pos, align) == 0,
{
    let r = pos % align;
    lemma_mod_division_less_than_divisor(pos, align);
    lemma_fundamental_div_mod(pos, align);
    if r == 0 {
        lemma_mod_self_0(align);
        assert(spec_align_pad(pos, align) == 0);
    } else {
        lemma_small_mod((align - r) as nat, align as nat);
        assert(spec_align_pad(pos, align) == align - r);
        let q = pos / align;
        assert(pos + (align - r) == (q + 1) * align) by (nonlinear_arith)
            requires
                pos == align * q + r,
        ;
        lemma_mod_multiples_basic(q + 1, align);
    }
}

/// The polymorphic allocation contract. Both root cursors and the framed
/// writer implement it, which is what lets frames nest to arbitrary depth:
/// a framed writer's parent is any other implementer.
///
/// All operations keep [`space_ok`] and report failure without side effects;
/// `can_alloc` / `can_rewind` pin down exactly when an operation succeeds.
pub trait SpaceAllocator: Sized {
    /// The entire backing buffer, as a ghost byte sequence.
    spec fn buf(&self) -> Seq<u8>;

    /// The write offset: `buf()[..used()]` is allocated, the rest is free.
    spec fn used(&self) -> int;

    /// Header offsets of the live frames this allocator patches on every
    /// allocation, outermost first.
    spec fn frames(&self) -> Seq<int>;

    /// Whether an allocation of `size` bytes will succeed.
    spec fn can_alloc(&self, size: int) -> bool;

    /// Whether a rewind of `n` bytes will succeed.
    spec fn can_rewind(&self, n: int) -> bool;

    /// Advances the write offset by `size` bytes and adds `size` to every
    /// live frame's size field. Returns the bounds `(start, end)` of the new
    /// region — the split between everything written before and the fresh
    /// bytes. Fails atomically: on `None` nothing has changed.
    fn allocate_and_split(&mut self, size: usize) -> (r: Option<(usize, usize)>)
        requires
            space_ok(old(self).buf(), old(self).used(), old(self).frames()),
        ensures
            final(self).frames() == old(self).frames(),
            space_ok(final(self).buf(), final(self).used(), final(self).frames()),
            match r {
                Some((start, end)) => {
                    &&& old(self).can_alloc(size as int)
                    &&& start as int == old(self).used()
                    &&& end as int == old(self).used() + size
                    &&& final(self).used() == old(self).used() + size
                    &&& final(self).buf().len() >= old(self).buf().len()
                    &&& size_fields_bumped(
                        old(self).buf(),
                        final(self).buf(),
                        old(self).frames(),
                        size as int,
                    )
                },
                None => {
                    &&& !old(self).can_alloc(size as int)
                    &&& *final(self) == *old(self)
                },
            },
    ;

    /// Moves the write offset back by `byte_count` bytes and subtracts
    /// `byte_count` from every live frame's size field, undoing the latest
    /// allocations. Fails atomically when `byte_count` exceeds what this
    /// allocator may retract.
    fn rewind(&mut self, byte_count: usize) -> (r: bool)
        requires
            space_ok(old(self).buf(), old(self).used(), old(self).frames()),
        ensures
            final(self).frames() == old(self).frames(),
            space_ok(final(self).buf(), final(self).used(), final(self).frames()),
            if r {
                {
                    &&& old(self).can_rewind(byte_count as int)
                    &&& final(self).used() == old(self).used() - byte_count
                    &&& final(self).buf().len() == old(self).buf().len()
                    &&& size_fields_bumped(
                        old(self).buf(),
                        final(self).buf(),
                        old(self).frames(),
                        -(byte_count as int),
                    )
                }
            } else {
                {
                    &&& !old(self).can_rewind(byte_count as int)
                    &&& *final(self) == *old(self)
                }
            },
    ;

    /// The current write offset.
    fn allocated_len(&self) -> (r: usize)
        ensures
            r as int == self.used(),
    ;

    /// A view of everything allocated so far.
    fn allocated_bytes(&self) -> (r: &[u8])
        requires
            space_ok(self.buf(), self.used(), self.frames()),
        ensures
            r@ == self.buf().subrange(0, self.used()),
    ;

    /// A view of the free tail of the buffer.
    fn remaining_bytes(&self) -> (r: &[u8])
        requires
            space_ok(self.buf(), self.used(), self.frames()),
        ensures
            r@ == self.buf().subrange(self.used(), self.buf().len() as int),
    ;

    /// Overwrites one already-allocated byte. The offset must lie behind
    /// every live header, so no size field can be corrupted; this is the
    /// mutable counterpart of `allocated_bytes`.
    fn write_byte_at(&mut self, i: usize, value: u8)
        requires
            space_ok(old(self).buf(), old(self).used(), old(self).frames()),
            i < old(self).used(),
            forall|k: int|
                0 <= k < old(self).frames().len() ==> #[trigger] old(self).frames()[k] + 8 <= i,
        ensures
            final(self).buf() == old(self).buf().update(i as int, value),
            final(self).used() == old(self).used(),
            final(self).frames() == old(self).frames(),
            space_ok(final(self).buf(), final(self).used(), final(self).frames()),
    ;
}

/// Writes the little-endian encoding of `value` over four already-allocated
/// bytes at `offset`, which must lie behind every live header.
pub fn put_u32<A: SpaceAllocator>(space: &mut A, offset: usize, value: u32)
    requires
        space_ok(old(space).buf(), old(space).used(), old(space).frames()),
        offset + 4 <= old(space).used(),
        forall|k: int|
            0 <= k < old(space).frames().len() ==> #[trigger] old(space).frames()[k] + 8 <= offset,
    ensures
        final(space).used() == old(space).used(),
        final(space).frames() == old(space).frames(),
        final(space).buf().len() == old(space).buf().len(),
        final(space).buf().subrange(offset as int, offset + 4) == spec_u32_to_le_bytes(value),
        forall|i: int|
            0 <= i < old(space).buf().len() && !(offset <= i < offset + 4)
                ==> #[trigger] final(space).buf()[i] == old(space).buf()[i],
        space_ok(final(space).buf(), final(space).used(), final(space).frames()),
{
    let enc = u32_to_le_bytes(value);
    space.write_byte_at(offset, enc[0]);
    space.write_byte_at(offset + 1, enc[1]);
    space.write_byte_at(offset + 2, enc[2]);
    space.write_byte_at(offset + 3, enc[3]);
    proof {
        assert(space.buf().subrange(offset as int, offset + 4) =~= spec_u32_to_le_bytes(value));
    }
}

/// Allocates aligned space for one 32-bit scalar and writes it: the write
/// offset is padded to the scalar's 4-byte alignment, padding and value are
/// allocated together (so every enclosing frame accounts both), and the
/// little-endian encoding is placed at the returned offset. Fails
/// atomically when the padded allocation does not fit.
pub fn write_u32<A: SpaceAllocator>(space: &mut A, value: u32) -> (r: Option<usize>)
    requires
        space_ok(old(space).buf(), old(space).used(), old(space).frames()),
    ensures
        final(space).frames() == old(space).frames(),
        space_ok(final(space).buf(), final(space).used(), final(space).frames()),
        match r {
            Some(offset) => {
                &&& offset as int == old(space).used() + spec_align_pad(old(space).used(), 4)
                &&& offset as int % 4 == 0
                &&& final(space).used() == offset + 4
                &&& final(space).buf().len() >= old(space).buf().len()
                &&& final(space).buf().subrange(offset as int, offset + 4)
                    == spec_u32_to_le_bytes(value)
                &&& forall|i: int|
                    0 <= i < old(space).buf().len() && !in_size_field(old(space).frames(), i)
                        && !(offset <= i < offset + 4)
                        ==> #[trigger] final(space).buf()[i] == old(space).buf()[i]
                &&& forall|k: int|
                    0 <= k < old(space).frames().len()
                        ==> header_body_size_at(final(space).buf(), #[trigger] old(space).frames()[k])
                        == header_body_size_at(old(space).buf(), old(space).frames()[k])
                            + (spec_align_pad(old(space).used(), 4) + 4)
                &&& old(space).can_alloc(spec_align_pad(old(space).used(), 4) + 4)
            },
            None => {
                &&& !old(space).can_alloc(spec_align_pad(old(space).used(), 4) + 4)
                &&& *final(space) == *old(space)
            },
        },
{
    let used = space.allocated_len();
    let pad = (4usize - used % 4) % 4;
    proof {
        lemma_align_pad(used as int, 4);
        assert(pad as int == spec_align_pad(used as int, 4));
    }
    let ghost s0 = *space;
    match space.allocate_and_split(pad + 4) {
        None => None,
        Some((start, _end)) => {
            let offset = start + pad;
            let ghost buf1 = space.buf();
            proof {
                assert forall|k: int| 0 <= k < space.frames().len() implies #[trigger] space
                    .frames()[k] + 8 <= offset by {
                    assert(frame_ok(s0.buf(), s0.used(), space.frames()[k]));
                }
            }
            put_u32(space, offset, value);
            proof {
                let fr = s0.frames();
                let o = offset as int;
                assert forall|k: int| 0 <= k < fr.len() implies header_body_size_at(
                    space.buf(),
                    #[trigger] fr[k],
                ) == header_body_size_at(s0.buf(), fr[k]) + (pad + 4) by {
                    let f = fr[k];
                    assert(frame_ok(s0.buf(), s0.used(), f));
                    assert(frame_ok(space.buf(), space.used(), f));
                }
                assert forall|i: int|
                    0 <= i < s0.buf().len() && !in_size_field(fr, i) && !(o <= i < o + 4)
                        implies #[trigger] space.buf()[i] == s0.buf()[i] by {
                    assert(buf1[i] == s0.buf()[i]);
                    assert(space.buf()[i] == buf1[i]);
                }
            }
            Some(offset)
        },
    }
}

/// Allocates `data.len()` bytes, with no alignment requirement, and copies
/// `data` into them, returning the offset of the copy. A zero-length write
/// is a successful no-op. Fails atomically when `data` does not fit.
pub fn write_bytes<A: SpaceAllocator>(space: &mut A, data: &[u8]) -> (r: Option<usize>)
    requires
        space_ok(old(space).buf(), old(space).used(), old(space).frames()),
    ensures
        final(space).frames() == old(space).frames(),
        space_ok(final(space).buf(), final(space).used(), final(space).frames()),
        match r {
            Some(offset) => {
                &&& offset as int == old(space).used()
                &&& final(space).used() == old(space).used() + data@.len()
                &&& final(space).buf().len() >= old(space).buf().len()
                &&& final(space).buf().subrange(offset as int, offset + data@.len()) == data@
                &&& forall|i: int|
                    0 <= i < old(space).buf().len() && !in_size_field(old(space).frames(), i)
                        && !(offset <= i < offset + data@.len())
                        ==> #[trigger] final(space).buf()[i] == old(space).buf()[i]
                &&& forall|k: int|
                    0 <= k < old(space).frames().len()
                        ==> header_body_size_at(final(space).buf(), #[trigger] old(space).frames()[k])
                        == header_body_size_at(old(space).buf(), old(space).frames()[k])
                            + data@.len()
                &&& old(space).can_alloc(data@.len() as int)
            },
            None => {
                &&& !old(space).can_alloc(data@.len() as int)
                &&& *final(space) == *old(space)
            },
        },
{
    let len = data.len();
    let ghost s0 = *space;
    match space.allocate_and_split(len) {
        None => None,
        Some((start, _end)) => {
            let ghost buf1 = space.buf();
            proof {
                assert forall|k: int| 0 <= k < s0.frames().len() implies #[trigger] s0.frames()[k]
                    + 8 <= start by {
                    assert(frame_ok(s0.buf(), s0.used(), s0.frames()[k]));
                }
            }
            let mut j: usize = 0;
            while j < len
                invariant
                    j <= len,
                    len == data@.len(),
                    start as int == s0.used(),
                    space.used() == s0.used() + len,
                    space.frames() == s0.frames(),
                    space.buf().len() == buf1.len(),
                    space_ok(space.buf(), space.used(), space.frames()),
                    forall|k: int|
                        0 <= k < s0.frames().len() ==> #[trigger] s0.frames()[k] + 8 <= start,
                    forall|i: int|
                        0 <= i < j ==> #[trigger] space.buf()[start + i] == data@[i],
                    forall|i: int|
                        0 <= i < buf1.len() && !(start <= i < start + j)
                            ==> #[trigger] space.buf()[i] == buf1[i],
                decreases len - j,
            {
                space.write_byte_at(start + j, *vstd::slice::slice_index_get(data, j));
                j += 1;
            }
            proof {
                let fr = s0.frames();
                let o = start as int;
                assert forall|m: int| 0 <= m < len implies space.buf().subrange(o, o + len)[m]
                    == data@[m] by {
                    assert(space.buf()[start + m] == data@[m]);
                }
                assert(space.buf().subrange(o, o + len) =~= data@);
                assert forall|k: int| 0 <= k < fr.len() implies header_body_size_at(
                    space.buf(),
                    #[trigger] fr[k],
                ) == header_body_size_at(s0.buf(), fr[k]) + len by {
                    let f = fr[k];
                    assert(frame_ok(s0.buf(), s0.used(), f));
                    assert(frame_ok(space.buf(), space.used(), f));
                }
                assert forall|i: int|
                    0 <= i < s0.buf().len() && !in_size_field(fr, i) && !(o <= i < o + len)
                        implies #[trigger] space.buf()[i] == s0.buf()[i] by {
                    assert(buf1[i] == s0.buf()[i]);
                    assert(space.buf()[i] == buf1[i]);
                }
            }
            Some(start)
        },
    }
}

} // verus!
