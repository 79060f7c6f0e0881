//! The fixed-size record header: a 32-bit type tag and a 32-bit body size.

use vstd::prelude::*;

verus! {

/// The header of one atom record, as laid out in the buffer: the body size
/// in bytes at the header's offset, the type tag four bytes after it (both
/// little-endian). `size_of_body` never counts the header itself.
///
/// The tag is an opaque identifier handed in by the caller's type-tag
/// resolver; this crate stores it and never interprets it.
#[derive(Clone, Copy, Debug, PartialEq, Eq, Structural)]
pub struct AtomHeader {
    pub size_of_body: u32,
    pub atom_type: u32,
}

impl AtomHeader {
    /// A fresh header for a record of type `atom_type` with an empty body.
    pub fn new(atom_type: u32) -> (h: AtomHeader)
        ensures
            h.size_of_body == 0,
            h.atom_type == atom_type,
    {
        AtomHeader { size_of_body: 0, atom_type }
    }
}

} // verus!
