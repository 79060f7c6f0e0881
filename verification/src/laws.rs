//! The global accounting properties of the space under construction, stated
//! and proved over the ghost model. Together with the operation contracts in
//! [`crate::allocator`] they pin down the bookkeeping:
//!
//! - every successful allocation advances the write offset by its size and
//!   re-encodes every live size field with that size added
//!   (`allocate_and_split`), and a failed allocation or rewind changes
//!   nothing (the `None` / `false` branches of those contracts);
//! - the lemmas here lift those single-step facts to whole histories:
//!   accounting over any sequence of writes, accounting across a nested
//!   frame, and rewind as the exact inverse of an allocation.

use vstd::prelude::*;
use vstd::bytes::lemma_auto_spec_u32_to_from_le_bytes;
use crate::aligned::header_body_size_at;
use crate::allocator::{frame_ok, in_size_field, size_fields_bumped, space_ok};

verus! {

/// The sum of a sequence of write sizes.
pub open spec fn sum_sizes(sizes: Seq<int>) -> int
    decreases sizes.len(),
{
    if sizes.len() == 0 {
        0
    } else {
        sum_sizes(sizes.drop_last()) + sizes.last()
    }
}

/// Header accounting: across any sequence of writes, each of which moves the
/// write offset by its own size while keeping the space consistent — which
/// is what `allocate_and_split` guarantees, with alignment padding folded
/// into the allocated size — a live frame's size field grows by exactly the
/// sum of the sizes.
///
/// `bufs[j]` and `useds[j]` are the buffer and write offset after `j`
/// writes; `sizes[j]` is the number of bytes write `j` allocated.
pub proof fn lemma_header_accounting(
    bufs: Seq<Seq<u8>>,
    useds: Seq<int>,
    sizes: Seq<int>,
    frames: Seq<int>,
    k: int,
)
    requires
        bufs.len() == sizes.len() + 1,
        useds.len() == bufs.len(),
        forall|j: int| 0 <= j < bufs.len() ==> space_ok(#[trigger] bufs[j], useds[j], frames),
        forall|j: int| 0 <= j < sizes.len() ==> useds[j + 1] == useds[j] + #[trigger] sizes[j],
        0 <= k < frames.len(),
    ensures
        header_body_size_at(bufs.last(), frames[k]) == header_body_size_at(bufs[0], frames[k])
            + sum_sizes(sizes),
    decreases sizes.len(),
{
    if sizes.len() == 0 {
        assert(bufs.last() == bufs[0]);
    } else {
        let n = sizes.len() as int;
        lemma_header_accounting(bufs.drop_last(), useds.drop_last(), sizes.drop_last(), frames, k);
        assert(bufs.drop_last().last() == bufs[n - 1]);
        assert(frame_ok(bufs[n - 1], useds[n - 1], frames[k]));
        assert(frame_ok(bufs[n], useds[n], frames[k]));
        assert(useds[n] == useds[n - 1] + sizes[n - 1]);
    }
}

/// Nested accounting: between the state just before a nested frame was
/// opened and any later state in which that frame (header offset `inner`)
/// is live on top of the same enclosing frames, an enclosing frame's size
/// field has grown by exactly the alignment padding inserted before the
/// nested header, plus the header itself, plus the nested frame's
/// accumulated body size.
pub proof fn lemma_nested_accounting(
    pre: Seq<u8>,
    pre_used: int,
    frames: Seq<int>,
    post: Seq<u8>,
    post_used: int,
    inner: int,
    k: int,
)
    requires
        space_ok(pre, pre_used, frames),
        space_ok(post, post_used, frames.push(inner)),
        pre_used <= inner,
        0 <= k < frames.len(),
    ensures
        header_body_size_at(post, frames[k]) - header_body_size_at(pre, frames[k]) == (inner
            - pre_used) + 8 + header_body_size_at(post, inner),
{
    let wfr = frames.push(inner);
    assert(wfr[k] == frames[k]);
    assert(wfr[frames.len() as int] == inner);
    assert(frame_ok(post, post_used, wfr[k]));
    assert(frame_ok(post, post_used, wfr[frames.len() as int]));
    assert(frame_ok(pre, pre_used, frames[k]));
}

/// Rewind inverse: an allocation of `n` bytes followed by a rewind of `n`
/// bytes — each consistent with the space invariant, as the contracts of
/// `allocate_and_split` and `rewind` guarantee — restores every byte the
/// pair touched, size fields included. Together with the offset arithmetic
/// in those contracts, the write offset and every header are back to their
/// pre-allocation values.
pub proof fn lemma_rewind_inverse(
    pre: Seq<u8>,
    mid: Seq<u8>,
    post: Seq<u8>,
    used: int,
    frames: Seq<int>,
    n: int,
)
    requires
        0 <= n,
        space_ok(pre, used, frames),
        space_ok(mid, used + n, frames),
        size_fields_bumped(pre, mid, frames, n),
        size_fields_bumped(mid, post, frames, -n),
    ensures
        forall|i: int| 0 <= i < pre.len() ==> #[trigger] post[i] == pre[i],
        forall|k: int|
            0 <= k < frames.len() ==> header_body_size_at(post, #[trigger] frames[k])
                == header_body_size_at(pre, frames[k]),
{
    lemma_auto_spec_u32_to_from_le_bytes();
    assert forall|k: int| 0 <= k < frames.len() implies post.subrange(
        #[trigger] frames[k],
        frames[k] + 4,
    ) == pre.subrange(frames[k], frames[k] + 4) by {
        let f = frames[k];
        assert(frame_ok(pre, used, f));
        assert(frame_ok(mid, used + n, f));
        // The two encodings cancel: mid's field holds pre's value plus n,
        // post's field re-encodes mid's value minus n — that is, pre's own
        // value, whose encoding is pre's field bytes.
        assert(header_body_size_at(mid, f) - n == header_body_size_at(pre, f));
        assert(pre.subrange(f, f + 4).len() == 4);
    }
    assert forall|i: int| 0 <= i < pre.len() implies #[trigger] post[i] == pre[i] by {
        if in_size_field(frames, i) {
            let k = choose|k: int|
                0 <= k < frames.len() && #[trigger] frames[k] <= i < frames[k] + 4;
            let f = frames[k];
            assert(post.subrange(f, f + 4) == pre.subrange(f, f + 4));
            assert(post.subrange(f, f + 4)[i - f] == post[i]);
            assert(pre.subrange(f, f + 4)[i - f] == pre[i]);
        } else {
            assert(mid[i] == pre[i]);
            assert(post[i] == mid[i]);
        }
    }
}

/// Alignment: every live frame's header starts at an 8-byte aligned offset;
/// [`crate::aligned`] rejects reads at any other offset rather than
/// correcting them.
pub proof fn lemma_frame_alignment(buf: Seq<u8>, used: int, frames: Seq<int>, k: int)
    requires
        space_ok(buf, used, frames),
        0 <= k < frames.len(),
    ensures
        frames[k] % 8 == 0,
{
    assert(frame_ok(buf, used, frames[k]));
}

} // verus!
