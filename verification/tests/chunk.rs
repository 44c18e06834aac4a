use camel::chunk::{Chunk, Region};
use camel::layout::Layout;

#[test]
fn chunk_contains_its_offsets_only() {
    let chunk = Chunk::new(4096, 1024, &|_size: usize| 0x10000usize);
    assert!(!chunk.contains(0));
    assert!(!chunk.contains(4095));
    assert!(chunk.contains(4096));
    assert!(chunk.contains(5119));
    assert!(!chunk.contains(5120));
    assert!(!chunk.contains(usize::MAX));
}

#[test]
fn chunk_asks_the_mapper_for_its_size() {
    let chunk = Chunk::new(0, 1024, &|size: usize| 0x10000 + size);
    assert_eq!(
        chunk.try_get_slice(0, 1),
        Some(Region::Mapped { addr: 0x10000 + 1024, offset: 0, len: 1 })
    );
}

#[test]
fn slice_lies_at_the_mapped_address() {
    let chunk = Chunk::new(4096, 1024, &|_size: usize| 0x10000usize);
    assert_eq!(
        chunk.try_get_slice(4096, 16),
        Some(Region::Mapped { addr: 0x10000, offset: 4096, len: 16 })
    );
    assert_eq!(
        chunk.try_get_slice(4196, 100),
        Some(Region::Mapped { addr: 0x10000 + 100, offset: 4196, len: 100 })
    );
    assert_eq!(
        chunk.try_get_slice(4096, 0),
        Some(Region::Mapped { addr: 0x10000, offset: 4096, len: 0 })
    );
}

#[test]
fn slice_below_the_chunk_is_refused() {
    let chunk = Chunk::new(4096, 1024, &|_size: usize| 0x10000usize);
    assert_eq!(chunk.try_get_slice(4095, 1), None);
    assert_eq!(chunk.try_get_slice(0, 16), None);
}

#[test]
fn slice_that_reaches_the_last_byte_is_refused() {
    let chunk = Chunk::new(4096, 1024, &|_size: usize| 0x10000usize);
    // offset + size == chunk size: refused
    assert_eq!(chunk.try_get_slice(4096 + 1024 - 24, 24), None);
    assert_eq!(chunk.try_get_slice(4096, 1024), None);
    // one byte less is served
    assert_eq!(
        chunk.try_get_slice(4096 + 1024 - 24, 23),
        Some(Region::Mapped { addr: 0x10000 + 1000, offset: 5096, len: 23 })
    );
    assert_eq!(
        chunk.try_get_slice(4096, 1023),
        Some(Region::Mapped { addr: 0x10000, offset: 4096, len: 1023 })
    );
    // beyond the end
    assert_eq!(chunk.try_get_slice(4096 + 1000, 100), None);
    assert_eq!(chunk.try_get_slice(5120, 0), None);
    assert_eq!(chunk.try_get_slice(6000, 1), None);
    assert_eq!(chunk.try_get_slice(4096, usize::MAX), None);
}

#[test]
fn region_length() {
    assert_eq!(Region::Mapped { addr: 1, offset: 2, len: 3 }.len(), 3);
    assert_eq!(Region::Scratch { offset: 2, len: 5 }.len(), 5);
}

#[test]
fn layout_accepts_powers_of_two_only() {
    assert!(Layout::from_size_align(100, 0).is_none());
    assert!(Layout::from_size_align(100, 3).is_none());
    assert!(Layout::from_size_align(100, 24).is_none());
    let layout = Layout::from_size_align(100, 8).unwrap();
    assert_eq!(layout.size(), 100);
    assert_eq!(layout.align(), 8);
    let one = Layout::from_size_align(0, 1).unwrap();
    assert_eq!(one.size(), 0);
    assert_eq!(one.align(), 1);
}

#[test]
fn layout_size_must_fit_when_rounded_up() {
    let max = isize::MAX as usize;
    assert!(Layout::from_size_align(max, 1).is_some());
    assert!(Layout::from_size_align(max + 1, 1).is_none());
    assert!(Layout::from_size_align(max - 7, 8).is_some());
    assert!(Layout::from_size_align(max - 6, 8).is_none());
    assert!(Layout::from_size_align(0, max + 1).is_some());
    assert!(Layout::from_size_align(1, max + 1).is_none());
}

#[test]
fn layout_agrees_with_the_standard_one() {
    for (size, align) in [(0usize, 1usize), (100, 8), (100, 3), (5, 0), (usize::MAX, 2), (4096, 4096)] {
        let ours = Layout::from_size_align(size, align);
        let theirs = std::alloc::Layout::from_size_align(size, align);
        assert_eq!(ours.is_some(), theirs.is_ok());
    }
}
