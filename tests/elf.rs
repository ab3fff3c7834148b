use batch_kernel::loader::{
    check_program_headers, load_from_elf, load_segment, load_segments, ElfError, ElfImage, Memory, SegmentHeader,
    SegmentKind,
};

fn seg(offset: u64, file_size: u64, mem_size: u64, virt_addr: u64) -> SegmentHeader {
    SegmentHeader { kind: SegmentKind::Load, offset, file_size, mem_size, virt_addr }
}

#[test]
fn segment_copies_file_bytes_then_zero_fills() {
    let src: Vec<u8> = (0..0x100u32).map(|i| (i % 200) as u8 + 1).collect();
    let mut mem = Memory { base: 0x1000, bytes: vec![0xAA; 0x500] };
    assert_eq!(load_segment(&mut mem, &src, seg(0, 0x100, 0x300, 0x1100)), Ok(()));
    assert!(mem.bytes[..0x100].iter().all(|&b| b == 0xAA));
    assert_eq!(&mem.bytes[0x100..0x200], &src[..]);
    assert!(mem.bytes[0x200..0x400].iter().all(|&b| b == 0));
    assert!(mem.bytes[0x400..].iter().all(|&b| b == 0xAA));
}

#[test]
fn bad_segments_are_refused() {
    let src = vec![1u8; 0x10];
    let mut mem = Memory { base: 0x1000, bytes: vec![0xAA; 0x100] };
    assert_eq!(load_segment(&mut mem, &src, seg(0, 0x20, 0x20, 0x1000)), Err(ElfError::BadSegment));
    assert_eq!(load_segment(&mut mem, &src, seg(0, 0x10, 0x8, 0x1000)), Err(ElfError::BadSegment));
    assert_eq!(load_segment(&mut mem, &src, seg(0, 0x10, 0x10, 0xff0)), Err(ElfError::BadSegment));
    assert_eq!(load_segment(&mut mem, &src, seg(0, 0x10, 0x10, 0x10f8)), Err(ElfError::BadSegment));
    assert!(mem.bytes.iter().all(|&b| b == 0xAA));
}

#[test]
fn only_loadable_segments_are_placed() {
    let src = vec![5u8; 0x10];
    let mut mem = Memory { base: 0, bytes: vec![0xAA; 0x40] };
    let mut other = seg(0, 0x10, 0x10, 0);
    other.kind = SegmentKind::Other;
    let segs = vec![other, seg(0, 0x8, 0x10, 0x20)];
    assert_eq!(load_segments(&mut mem, &src, &segs), Ok(()));
    assert!(mem.bytes[..0x20].iter().all(|&b| b == 0xAA));
    assert!(mem.bytes[0x20..0x28].iter().all(|&b| b == 5));
    assert!(mem.bytes[0x28..0x30].iter().all(|&b| b == 0));
}

fn elf_with_one_segment() -> Vec<u8> {
    let mut e = vec![0u8; 0x200];
    e[..4].copy_from_slice(&[0x7f, b'E', b'L', b'F']);
    e[4] = 2; // 64-bit
    e[5] = 1; // little-endian
    e[6] = 1; // version
    e[16..18].copy_from_slice(&2u16.to_le_bytes()); // executable
    e[18..20].copy_from_slice(&243u16.to_le_bytes()); // RISC-V
    e[20..24].copy_from_slice(&1u32.to_le_bytes());
    e[24..32].copy_from_slice(&0x1010u64.to_le_bytes()); // entry
    e[32..40].copy_from_slice(&64u64.to_le_bytes()); // program headers
    e[52..54].copy_from_slice(&64u16.to_le_bytes());
    e[54..56].copy_from_slice(&56u16.to_le_bytes());
    e[56..58].copy_from_slice(&1u16.to_le_bytes());
    let ph = 64;
    e[ph..ph + 4].copy_from_slice(&1u32.to_le_bytes()); // loadable
    e[ph + 8..ph + 16].copy_from_slice(&0x100u64.to_le_bytes()); // offset
    e[ph + 16..ph + 24].copy_from_slice(&0x1000u64.to_le_bytes()); // virtual address
    e[ph + 32..ph + 40].copy_from_slice(&0x100u64.to_le_bytes()); // file size
    e[ph + 40..ph + 48].copy_from_slice(&0x300u64.to_le_bytes()); // memory size
    for i in 0x100..0x200 {
        e[i] = 0x5A;
    }
    e
}

#[test]
fn elf_image_is_placed_and_entry_returned() {
    let src = elf_with_one_segment();
    assert!(check_program_headers(&src));
    let mut mem = Memory { base: 0x1000, bytes: vec![0xAA; 0x400] };
    assert_eq!(load_from_elf(&ElfImage::new(src.to_vec()), &mut mem), Ok(0x1010));
    assert!(mem.bytes[..0x100].iter().all(|&b| b == 0x5A));
    assert!(mem.bytes[0x100..0x300].iter().all(|&b| b == 0));
    assert!(mem.bytes[0x300..].iter().all(|&b| b == 0xAA));
}

#[test]
fn malformed_elf_is_refused() {
    let mut mem = Memory { base: 0x1000, bytes: vec![0xAA; 0x400] };
    assert_eq!(load_from_elf(&ElfImage::new(vec![0u8; 10]), &mut mem), Err(ElfError::Malformed));
    let mut bad_magic = elf_with_one_segment();
    bad_magic[1] = b'X';
    assert_eq!(load_from_elf(&ElfImage::new(bad_magic.to_vec()), &mut mem), Err(ElfError::Malformed));
    let mut table_past_end = elf_with_one_segment();
    table_past_end[56..58].copy_from_slice(&100u16.to_le_bytes());
    assert!(!check_program_headers(&table_past_end));
    assert_eq!(load_from_elf(&ElfImage::new(table_past_end.to_vec()), &mut mem), Err(ElfError::Malformed));
    assert!(mem.bytes.iter().all(|&b| b == 0xAA));
}

#[test]
fn elf_segment_outside_memory_is_refused() {
    let src = elf_with_one_segment();
    let mut mem = Memory { base: 0x1000, bytes: vec![0xAA; 0x200] };
    assert_eq!(load_from_elf(&ElfImage::new(src.to_vec()), &mut mem), Err(ElfError::BadSegment));
}

fn elf32_with_one_segment() -> Vec<u8> {
    let mut e = vec![0u8; 0x200];
    e[..4].copy_from_slice(&[0x7f, b'E', b'L', b'F']);
    e[4] = 1; // 32-bit
    e[5] = 1; // little-endian
    e[6] = 1; // version
    e[16..18].copy_from_slice(&2u16.to_le_bytes()); // executable
    e[18..20].copy_from_slice(&243u16.to_le_bytes()); // RISC-V
    e[20..24].copy_from_slice(&1u32.to_le_bytes());
    e[24..28].copy_from_slice(&0x1020u32.to_le_bytes()); // entry
    e[28..32].copy_from_slice(&52u32.to_le_bytes()); // program headers
    e[40..42].copy_from_slice(&52u16.to_le_bytes());
    e[42..44].copy_from_slice(&32u16.to_le_bytes());
    e[44..46].copy_from_slice(&1u16.to_le_bytes());
    let ph = 52;
    e[ph..ph + 4].copy_from_slice(&1u32.to_le_bytes()); // loadable
    e[ph + 4..ph + 8].copy_from_slice(&0x100u32.to_le_bytes()); // offset
    e[ph + 8..ph + 12].copy_from_slice(&0x1000u32.to_le_bytes()); // virtual address
    e[ph + 16..ph + 20].copy_from_slice(&0x80u32.to_le_bytes()); // file size
    e[ph + 20..ph + 24].copy_from_slice(&0x100u32.to_le_bytes()); // memory size
    for i in 0x100..0x180 {
        e[i] = 0x3C;
    }
    e
}

#[test]
fn elf32_image_is_placed_and_entry_returned() {
    let src = elf32_with_one_segment();
    assert!(check_program_headers(&src));
    let mut mem = Memory { base: 0x1000, bytes: vec![0xAA; 0x200] };
    assert_eq!(load_from_elf(&ElfImage::new(src.to_vec()), &mut mem), Ok(0x1020));
    assert!(mem.bytes[..0x80].iter().all(|&b| b == 0x3C));
    assert!(mem.bytes[0x80..0x100].iter().all(|&b| b == 0));
    assert!(mem.bytes[0x100..].iter().all(|&b| b == 0xAA));
}

#[test]
fn undefined_segment_type_is_malformed() {
    let mut src = elf_with_one_segment();
    src[64..68].copy_from_slice(&8u32.to_le_bytes());
    let mut mem = Memory { base: 0x1000, bytes: vec![0xAA; 0x400] };
    assert_eq!(load_from_elf(&ElfImage::new(src.to_vec()), &mut mem), Err(ElfError::Malformed));
    assert!(mem.bytes.iter().all(|&b| b == 0xAA));
}

#[test]
fn alignment_of_the_buffer_decides_between_loading_and_refusing() {
    let image = ElfImage::new(elf_with_one_segment());
    let mut mem = Memory { base: 0x1000, bytes: vec![0xAA; 0x400] };
    let expected = if image.is_aligned() { Ok(0x1010) } else { Err(ElfError::Unaligned) };
    assert_eq!(load_from_elf(&image, &mut mem), expected);
    if !image.is_aligned() {
        assert!(mem.bytes.iter().all(|&b| b == 0xAA));
    }
}

#[test]
fn image_keeps_its_bytes() {
    let bytes = elf32_with_one_segment();
    let image = ElfImage::new(bytes.clone());
    assert_eq!(image.as_slice(), &bytes[..]);
}

#[test]
fn image_without_program_headers_places_nothing() {
    let mut src = elf_with_one_segment();
    src[32..40].copy_from_slice(&0u64.to_le_bytes());
    let mut mem = Memory { base: 0x1000, bytes: vec![0xAA; 0x400] };
    assert_eq!(load_from_elf(&ElfImage::new(src), &mut mem), Ok(0x1010));
    assert!(mem.bytes.iter().all(|&b| b == 0xAA));
}
