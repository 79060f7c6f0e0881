use atom_space::aligned::{try_read_header, try_read_u32};
use atom_space::allocator::{write_bytes, write_u32, SpaceAllocator};
use atom_space::atom_writer::AtomSpaceWriter;
use atom_space::cursor::SpaceCursor;
use atom_space::header::AtomHeader;
use atom_space::vec_space::VecSpace;

fn open_frame<A: SpaceAllocator>(parent: A, tag: u32) -> AtomSpaceWriter<A> {
    match AtomSpaceWriter::write_new(parent, tag) {
        Ok(frame) => frame,
        Err(_) => panic!("failed to open frame"),
    }
}

#[test]
fn test_padding_inside_frame() {
    let root = SpaceCursor::new(vec![0u8; 64]);
    let mut frame = open_frame(root, 1);
    write_u32(&mut frame, 42).unwrap();
    write_u32(&mut frame, 17).unwrap();

    let buf = frame.into_parent().into_inner();
    let header = try_read_header(&buf, 0).unwrap();
    assert_eq!(header.atom_type, 1);
    assert_eq!(header.size_of_body as usize, 8);
    assert_eq!(try_read_u32(&buf, 8).unwrap(), 42);
    assert_eq!(try_read_u32(&buf, 12).unwrap(), 17);
}

#[test]
fn nested_frame_accounting() {
    let root = SpaceCursor::new(vec![0u8; 64]);
    let frame_a = open_frame(root, 1);
    let mut frame_b = open_frame(frame_a, 2);
    write_u32(&mut frame_b, 7).unwrap();
    let mut frame_a = frame_b.into_parent();
    write_u32(&mut frame_a, 9).unwrap();
    assert_eq!(frame_a.atom_header().size_of_body, 16);

    let buf = frame_a.into_parent().into_inner();
    let header_a = try_read_header(&buf, 0).unwrap();
    let header_b = try_read_header(&buf, 8).unwrap();
    assert_eq!(header_b.atom_type, 2);
    assert_eq!(header_b.size_of_body, 4);
    assert_eq!(header_a.size_of_body, 16);
    assert_eq!(try_read_u32(&buf, 16).unwrap(), 7);
    assert_eq!(try_read_u32(&buf, 20).unwrap(), 9);
}

#[test]
fn three_levels_of_nesting() {
    let root = VecSpace::new();
    let frame_a = open_frame(root, 1);
    let frame_b = open_frame(frame_a, 2);
    let mut frame_c = open_frame(frame_b, 3);
    write_u32(&mut frame_c, 0xDEAD_BEEF_u32).unwrap();
    let mut frame_b = frame_c.into_parent();
    write_u32(&mut frame_b, 5).unwrap();
    let frame_a = frame_b.into_parent();
    assert_eq!(frame_a.atom_header().size_of_body, 24);

    let buf = frame_a.into_parent().into_inner();
    assert_eq!(try_read_header(&buf, 8).unwrap().size_of_body, 16);
    assert_eq!(try_read_header(&buf, 16).unwrap().size_of_body, 4);
    assert_eq!(try_read_u32(&buf, 24).unwrap(), 0xDEAD_BEEF_u32);
    assert_eq!(try_read_u32(&buf, 28).unwrap(), 5);
}

#[test]
fn allocate_fails_when_exhausted() {
    let mut root = SpaceCursor::new(vec![0xAB_u8; 10]);
    assert!(root.allocate_and_split(100).is_none());
    assert_eq!(root.allocated_len(), 0);
    let buf = root.into_inner();
    assert_eq!(buf, vec![0xAB_u8; 10]);
}

#[test]
fn failed_write_leaves_headers_untouched() {
    let root = SpaceCursor::new(vec![0u8; 10]);
    let mut frame = open_frame(root, 3);
    assert!(write_u32(&mut frame, 42).is_none());
    assert_eq!(frame.atom_header().size_of_body, 0);
    assert_eq!(frame.allocated_len(), 8);

    let buf = frame.into_parent().into_inner();
    let header = try_read_header(&buf, 0).unwrap();
    assert_eq!(header.size_of_body, 0);
    assert_eq!(header.atom_type, 3);
}

#[test]
fn rewind_undoes_an_allocation() {
    let root = SpaceCursor::new(vec![0u8; 64]);
    let mut frame = open_frame(root, 1);
    write_u32(&mut frame, 42).unwrap();
    frame.allocate_and_split(4).unwrap();
    assert_eq!(frame.atom_header().size_of_body, 8);

    assert!(frame.rewind(4));
    assert_eq!(frame.atom_header().size_of_body, 4);
    assert_eq!(frame.allocated_len(), 12);

    write_u32(&mut frame, 17).unwrap();
    let buf = frame.into_parent().into_inner();
    assert_eq!(try_read_header(&buf, 0).unwrap().size_of_body, 8);
    assert_eq!(try_read_u32(&buf, 8).unwrap(), 42);
    assert_eq!(try_read_u32(&buf, 12).unwrap(), 17);
}

#[test]
fn rewind_overrun_rejected() {
    let root = SpaceCursor::new(vec![0u8; 64]);
    let mut frame = open_frame(root, 1);
    write_u32(&mut frame, 42).unwrap();

    // The frame's own header is not retractable through the frame.
    assert!(!frame.rewind(8));
    assert_eq!(frame.atom_header().size_of_body, 4);
    assert_eq!(frame.allocated_len(), 12);

    let mut root = frame.into_parent();
    assert!(!root.rewind(13));
    assert!(root.rewind(12));
    assert_eq!(root.allocated_len(), 0);
}

#[test]
fn misaligned_access_rejected() {
    let bytes = vec![0u8; 16];
    assert!(try_read_u32(&bytes, 2).is_none());
    assert!(try_read_u32(&bytes, 14).is_none());
    assert!(try_read_u32(&bytes, 16).is_none());
    assert!(try_read_u32(&bytes, 12).is_some());
    assert!(try_read_header(&bytes, 4).is_none());
    assert!(try_read_header(&bytes, 12).is_none());
    assert!(try_read_header(&bytes, 8).is_some());
}

#[test]
fn growable_space_extends_itself() {
    let root = VecSpace::new();
    let mut frame = open_frame(root, 1);
    write_u32(&mut frame, 42).unwrap();
    write_u32(&mut frame, 17).unwrap();

    let buf = frame.into_parent().into_inner();
    assert_eq!(buf.len(), 16);
    let header = try_read_header(&buf, 0).unwrap();
    assert_eq!(header.atom_type, 1);
    assert_eq!(header.size_of_body, 8);
    assert_eq!(try_read_u32(&buf, 8).unwrap(), 42);
    assert_eq!(try_read_u32(&buf, 12).unwrap(), 17);
}

#[test]
fn zero_byte_write_succeeds() {
    let root = SpaceCursor::new(vec![0u8; 16]);
    let mut frame = open_frame(root, 1);
    let offset = write_bytes(&mut frame, &[]).unwrap();
    assert_eq!(offset, 8);
    assert_eq!(frame.atom_header().size_of_body, 0);
    assert_eq!(frame.allocated_len(), 8);
}

#[test]
fn scalar_padding_counts_toward_frame() {
    let root = SpaceCursor::new(vec![0u8; 32]);
    let mut frame = open_frame(root, 6);
    write_bytes(&mut frame, &[1, 2, 3]).unwrap();
    assert_eq!(frame.atom_header().size_of_body, 3);

    let offset = write_u32(&mut frame, 42).unwrap();
    assert_eq!(offset, 12);
    assert_eq!(frame.atom_header().size_of_body, 8);

    let buf = frame.into_parent().into_inner();
    assert_eq!(&buf[8..11], &[1, 2, 3]);
    assert_eq!(buf[11], 0);
    assert_eq!(try_read_u32(&buf, 12).unwrap(), 42);
}

#[test]
fn header_readback_without_closing() {
    let root = SpaceCursor::new(vec![0u8; 64]);
    let mut frame = open_frame(root, 5);
    assert_eq!(frame.atom_header(), AtomHeader::new(5));
    write_bytes(&mut frame, &[9u8; 6]).unwrap();
    let header = frame.atom_header();
    assert_eq!(header.atom_type, 5);
    assert_eq!(header.size_of_body, 6);
}

#[test]
fn re_borrow_keeps_the_frame() {
    let root = SpaceCursor::new(vec![0u8; 32]);
    let frame = open_frame(root, 1);
    let mut frame = frame.re_borrow();
    write_u32(&mut frame, 42).unwrap();
    assert_eq!(frame.atom_header().size_of_body, 4);
}

#[test]
fn region_views_split_the_buffer() {
    let mut root = SpaceCursor::new(vec![0u8; 16]);
    root.allocate_and_split(6).unwrap();
    assert_eq!(root.allocated_bytes().len(), 6);
    assert_eq!(root.remaining_bytes().len(), 10);

    // Opening a frame at offset 6 pads the header up to offset 8.
    let frame = open_frame(root, 2);
    assert_eq!(frame.allocated_len(), 16);
    assert_eq!(frame.allocated_bytes().len(), 16);
    assert_eq!(frame.remaining_bytes().len(), 0);
    assert_eq!(frame.atom_header().size_of_body, 0);

    let buf = frame.into_parent().into_inner();
    assert!(try_read_header(&buf, 8).is_some());
}
