//! A binary-layout construction engine for tagged, length-prefixed ("atom")
//! records laid out in a caller-owned byte buffer.
//!
//! The crate is organised around a single allocation contract,
//! [`allocator::SpaceAllocator`]: a root cursor owns the buffer and the write
//! offset, and a framed writer wraps any allocator, lays down one record
//! header, and keeps that header's size field equal to the number of bytes
//! written behind it — through arbitrary nesting, and with rewind support to
//! undo speculative writes.
//!
//! - [`aligned`] is the single choke point between raw bytes and typed
//!   values: little-endian 32-bit reads that validate alignment and bounds.
//! - [`header`] is the fixed-size record header (type tag + body size).
//! - [`allocator`] holds the ghost model of a buffer under construction, the
//!   `SpaceAllocator` trait, and the typed write operations built on it.
//! - [`cursor`] is the fixed-capacity root allocator, [`vec_space`] the
//!   growable one.
//! - [`atom_writer`] is the framed writer that maintains one header.
//! - [`laws`] states and proves the global accounting properties.

pub mod aligned;
pub mod allocator;
pub mod atom_writer;
pub mod cursor;
pub mod header;
pub mod laws;
pub mod vec_space;
