//! Aligned, typed access to raw byte ranges.
//!
//! This module is the single place where raw bytes are reinterpreted as typed
//! values. Every accessor validates bounds and alignment first and returns
//! `None` on a violation — a misaligned request is rejected, never silently
//! shifted to the nearest aligned position.

use vstd::prelude::*;
use vstd::bytes::{spec_u32_from_le_bytes, u32_from_le_bytes};
use vstd::slice::slice_subrange;
use crate::header::AtomHeader;

verus! {

/// The 32-bit little-endian value spelled by `s[i .. i + 4]`.
pub open spec fn u32_le_at(s: Seq<u8>, i: int) -> u32 {
    spec_u32_from_le_bytes(s.subrange(i, i + 4))
}

/// The body-size field of a header whose first byte is `s[h]`.
pub open spec fn header_body_size_at(s: Seq<u8>, h: int) -> u32 {
    u32_le_at(s, h)
}

/// The type-tag field of a header whose first byte is `s[h]`.
pub open spec fn header_type_at(s: Seq<u8>, h: int) -> u32 {
    u32_le_at(s, h + 4)
}

/// Reads the 32-bit scalar at `offset`, provided the offset satisfies the
/// scalar's 4-byte alignment and the range lies inside `bytes`.
pub fn try_read_u32(bytes: &[u8], offset: usize) -> (r: Option<u32>)
    ensures
        match r {
            Some(v) => {
                &&& offset % 4 == 0
                &&& offset + 4 <= bytes@.len()
                &&& v == u32_le_at(bytes@, offset as int)
            },
            None => offset % 4 != 0 || offset + 4 > bytes@.len(),
        },
{
    if offset % 4 == 0 && bytes.len() >= 4 && offset <= bytes.len() - 4 {
        let field = slice_subrange(bytes, offset, offset + 4);
        Some(u32_from_le_bytes(field))
    } else {
        None
    }
}

/// Reads the record header at `offset`, provided the offset satisfies the
/// header's 8-byte alignment and the full header lies inside `bytes`.
pub fn try_read_header(bytes: &[u8], offset: usize) -> (r: Option<AtomHeader>)
    ensures
        match r {
            Some(h) => {
                &&& offset % 8 == 0
                &&& offset + 8 <= bytes@.len()
                &&& h.size_of_body == header_body_size_at(bytes@, offset as int)
                &&& h.atom_type == header_type_at(bytes@, offset as int)
            },
            None => offset % 8 != 0 || offset + 8 > bytes@.len(),
        },
{
    if offset % 8 == 0 && bytes.len() >= 8 && offset <= bytes.len() - 8 {
        let size_field = slice_subrange(bytes, offset, offset + 4);
        let type_field = slice_subrange(bytes, offset + 4, offset + 8);
        Some(AtomHeader {
            size_of_body: u32_from_le_bytes(size_field),
            atom_type: u32_from_le_bytes(type_field),
        })
    } else {
        None
    }
}

} // verus!
