use lambix_boot::elf_image::{
    has_class_64, Relocation, Section, Segment, PT_LOAD, R_X86_64_RELATIVE, SHT_RELA,
};
use lambix_boot::kernel_loader::{
    apply_relocations, get_embedded_kernel, kernel_requirements, load_kernel, load_segments,
    relocate_kernel, relocate_sections, required_alignment, required_memory, requirements_of,
    segment_data, unpack_kernel, KernelRequirements, LoadError,
};

struct PlannedSegment {
    p_type: u32,
    vaddr: u64,
    file: Vec<u8>,
    memsz: u64,
    align: u64,
}

struct PlannedSection {
    sh_type: u32,
    relas: Vec<(u64, u32, i64)>,
    beyond_the_image: bool,
}

fn put_u16(image: &mut Vec<u8>, value: u16) {
    image.extend_from_slice(&value.to_le_bytes());
}

fn put_u32(image: &mut Vec<u8>, value: u32) {
    image.extend_from_slice(&value.to_le_bytes());
}

fn put_u64(image: &mut Vec<u8>, value: u64) {
    image.extend_from_slice(&value.to_le_bytes());
}

fn build_image(
    entry: u64,
    segments: &[PlannedSegment],
    sections: Option<&[PlannedSection]>,
) -> Vec<u8> {
    let phoff = if segments.is_empty() { 0 } else { 64u64 };
    let mut data_offset = 64 + 56 * segments.len() as u64;
    let mut segment_offsets = Vec::new();
    for segment in segments {
        segment_offsets.push(data_offset);
        data_offset += segment.file.len() as u64;
    }
    let mut section_offsets = Vec::new();
    if let Some(sections) = sections {
        for section in sections {
            section_offsets.push(data_offset);
            data_offset += 24 * section.relas.len() as u64;
        }
    }
    let shoff = if sections.is_some() { data_offset } else { 0 };
    let shnum = sections.map(|s| s.len() + 1).unwrap_or(0);

    let mut image = vec![0x7f, b'E', b'L', b'F', 2, 1, 1, 0, 0, 0, 0, 0, 0, 0, 0, 0];
    put_u16(&mut image, 3);
    put_u16(&mut image, 0x3e);
    put_u32(&mut image, 1);
    put_u64(&mut image, entry);
    put_u64(&mut image, phoff);
    put_u64(&mut image, shoff);
    put_u32(&mut image, 0);
    put_u16(&mut image, 64);
    put_u16(&mut image, 56);
    put_u16(&mut image, segments.len() as u16);
    put_u16(&mut image, 64);
    put_u16(&mut image, shnum as u16);
    put_u16(&mut image, 0);
    assert_eq!(image.len(), 64);

    for (segment, offset) in segments.iter().zip(&segment_offsets) {
        put_u32(&mut image, segment.p_type);
        put_u32(&mut image, 7);
        put_u64(&mut image, *offset);
        put_u64(&mut image, segment.vaddr);
        put_u64(&mut image, segment.vaddr);
        put_u64(&mut image, segment.file.len() as u64);
        put_u64(&mut image, segment.memsz);
        put_u64(&mut image, segment.align);
    }
    for segment in segments {
        image.extend_from_slice(&segment.file);
    }
    if let Some(sections) = sections {
        for section in sections {
            for (offset, typ, addend) in &section.relas {
                put_u64(&mut image, *offset);
                put_u64(&mut image, *typ as u64);
                image.extend_from_slice(&addend.to_le_bytes());
            }
        }
        image.extend_from_slice(&[0; 64]);
        for (section, offset) in sections.iter().zip(&section_offsets) {
            put_u32(&mut image, 0);
            put_u32(&mut image, section.sh_type);
            put_u64(&mut image, 0);
            put_u64(&mut image, 0);
            if section.beyond_the_image {
                put_u64(&mut image, 0x1000_0000);
            } else {
                put_u64(&mut image, *offset);
            }
            put_u64(&mut image, 24 * section.relas.len() as u64);
            put_u32(&mut image, 0);
            put_u32(&mut image, 0);
            put_u64(&mut image, 8);
            put_u64(&mut image, 24);
        }
    }
    image
}

fn load(vaddr: u64, file: &[u8], memsz: u64, align: u64) -> PlannedSegment {
    PlannedSegment { p_type: PT_LOAD, vaddr, file: file.to_vec(), memsz, align }
}

fn relas(entries: &[(u64, u32, i64)]) -> PlannedSection {
    PlannedSection { sh_type: SHT_RELA, relas: entries.to_vec(), beyond_the_image: false }
}

fn segment(p_type: u32, offset: u64, vaddr: u64, filesz: u64, memsz: u64, align: u64) -> Segment {
    Segment {
        p_type,
        p_offset: offset,
        p_vaddr: vaddr,
        p_paddr: vaddr,
        p_filesz: filesz,
        p_memsz: memsz,
        p_flags: 0,
        p_align: align,
    }
}

fn relative(offset: u64, addend: i64) -> Relocation {
    Relocation { r_offset: offset, r_sym: 0, r_type: R_X86_64_RELATIVE, r_addend: addend }
}

fn sample_image() -> Vec<u8> {
    build_image(
        0x1040,
        &[
            load(0, &[1, 2, 3, 4, 5, 6, 7, 8, 9, 10], 20, 0x1000),
            PlannedSegment { p_type: 2, vaddr: 0x9000, file: vec![0xcc; 4], memsz: 4, align: 8 },
            load(0x1000, &[0xa1, 0xa2, 0xa3, 0xa4, 0xa5], 5, 0x200000),
        ],
        Some(&[
            PlannedSection { sh_type: 1, relas: vec![(0, 99, 0)], beyond_the_image: false },
            relas(&[(8, R_X86_64_RELATIVE, 0x40), (0x1008, R_X86_64_RELATIVE, -16)]),
            relas(&[(0x20, R_X86_64_RELATIVE, 0x1000)]),
        ]),
    )
}

#[test]
fn get_embedded_kernel_checks_magic_and_length() {
    let mut payload = b"lamb".to_vec();
    payload.extend_from_slice(&5u32.to_le_bytes());
    payload.extend_from_slice(&[1, 2, 3, 4, 5, 6, 7]);
    assert_eq!(get_embedded_kernel(&payload), Some(&[1u8, 2, 3, 4, 5][..]));

    let mut wrong = payload.clone();
    wrong[0] = b'L';
    assert_eq!(get_embedded_kernel(&wrong), None);

    let mut long = payload.clone();
    long[4] = 8;
    assert_eq!(get_embedded_kernel(&long), None);
    long[4] = 7;
    assert_eq!(get_embedded_kernel(&long), Some(&[1u8, 2, 3, 4, 5, 6, 7][..]));

    assert_eq!(get_embedded_kernel(b"lamb"), None);
    assert_eq!(get_embedded_kernel(&[]), None);
    let mut empty = b"lamb".to_vec();
    empty.extend_from_slice(&0u32.to_le_bytes());
    assert_eq!(get_embedded_kernel(&empty), Some(&[][..]));
}

#[test]
fn required_memory_is_the_highest_end_of_a_loadable_segment() {
    let segments = [
        segment(PT_LOAD, 0, 0, 10, 20, 0x1000),
        segment(PT_LOAD, 0, 0x1000, 5, 5, 0x1000),
        segment(2, 0, 0x9000, 4, 0x1000, 8),
        segment(PT_LOAD, 0, 0x800, 0x100, 0x200, 0x1000),
    ];
    assert_eq!(required_memory(&segments), Some(0x1005));
    assert_eq!(required_memory(&segments[..1]), Some(20));
    assert_eq!(required_memory(&segments[2..3]), None);
    assert_eq!(required_memory(&[]), None);
}

#[test]
fn required_memory_gives_up_beyond_the_address_space() {
    let segments = [
        segment(PT_LOAD, 0, 0x1000, 0, 0x10, 0x1000),
        segment(PT_LOAD, 0, u64::MAX, 0, 1, 0x1000),
    ];
    assert_eq!(required_memory(&segments), None);
    let segments = [segment(PT_LOAD, 0, u64::MAX - 1, 0, 1, 0x1000)];
    assert_eq!(required_memory(&segments), usize::try_from(u64::MAX).ok());
}

#[test]
fn required_alignment_is_the_highest_and_a_page_at_least() {
    let segments = [
        segment(PT_LOAD, 0, 0, 10, 20, 0x10),
        segment(2, 0, 0x9000, 4, 0x1000, 0x40_0000),
        segment(PT_LOAD, 0, 0x1000, 5, 5, 0x20_0000),
        segment(PT_LOAD, 0, 0x2000, 5, 5, 0x2000),
    ];
    assert_eq!(required_alignment(&segments), 0x20_0000);
    assert_eq!(required_alignment(&segments[..2]), 4096);
    assert_eq!(required_alignment(&segments[3..]), 0x2000);
    assert_eq!(required_alignment(&[]), 4096);
}

#[test]
fn requirements_of_names_what_is_missing() {
    let segments = [segment(PT_LOAD, 0, 0x100, 10, 0x20, 0x4000)];
    assert_eq!(
        requirements_of(Some(0x42), Some(&segments)),
        Ok(KernelRequirements { needed_memory: 0x120, alignment: 0x4000, entry: 0x42 })
    );
    assert_eq!(requirements_of(None, Some(&segments)), Err(LoadError::BadImage));
    assert_eq!(requirements_of(None, None), Err(LoadError::BadImage));
    assert_eq!(requirements_of(Some(0x42), None), Err(LoadError::NoSegments));
    assert_eq!(requirements_of(Some(0x42), Some(&[])), Err(LoadError::NoFootprint));
}

#[test]
fn kernel_requirements_reads_the_image() {
    assert_eq!(
        kernel_requirements(&sample_image()),
        Ok(KernelRequirements { needed_memory: 0x1005, alignment: 0x200000, entry: 0x1040 })
    );
}

#[test]
fn kernel_requirements_rejects_what_is_no_elf_image() {
    assert_eq!(kernel_requirements(b"not an elf image at all"), Err(LoadError::BadImage));
    assert_eq!(kernel_requirements(&[]), Err(LoadError::BadImage));
    let mut big_endian = sample_image();
    big_endian[5] = 2;
    assert_eq!(kernel_requirements(&big_endian), Err(LoadError::BadImage));
    let image = sample_image();
    assert_eq!(kernel_requirements(&image[..63]), Err(LoadError::BadImage));
}

#[test]
fn a_32_bit_image_is_rejected() {
    let mut narrow = sample_image();
    narrow[4] = 1;
    let mut buffer = vec![0u8; 0x2000];
    assert_eq!(kernel_requirements(&narrow), Err(LoadError::BadImage));
    assert_eq!(unpack_kernel(&narrow, &mut buffer), Err(LoadError::BadImage));
    assert_eq!(relocate_kernel(&narrow, &mut buffer, 0), Err(LoadError::BadImage));
    assert_eq!(load_kernel(&narrow, &mut buffer, 0), Err(LoadError::BadImage));
    assert_eq!(buffer, vec![0u8; 0x2000]);
    assert!(has_class_64(&sample_image()));
    assert!(!has_class_64(&narrow));
    assert!(!has_class_64(&[0x7f, b'E', b'L', b'F']));
}

#[test]
fn kernel_requirements_needs_segments_to_load() {
    let image = build_image(0, &[], None);
    assert_eq!(kernel_requirements(&image), Err(LoadError::NoSegments));
    let image = build_image(
        0,
        &[PlannedSegment { p_type: 6, vaddr: 0, file: vec![], memsz: 0x100, align: 8 }],
        None,
    );
    assert_eq!(kernel_requirements(&image), Err(LoadError::NoFootprint));
}

#[test]
fn segment_data_is_the_part_of_the_file_that_the_header_names() {
    let image = [10u8, 11, 12, 13, 14, 15, 16, 17];
    assert_eq!(
        segment_data(&image, &segment(PT_LOAD, 2, 0, 3, 3, 1)),
        Some(&[12u8, 13, 14][..])
    );
    assert_eq!(segment_data(&image, &segment(PT_LOAD, 8, 0, 0, 0, 1)), Some(&[][..]));
    assert_eq!(segment_data(&image, &segment(PT_LOAD, 6, 0, 3, 3, 1)), None);
    assert_eq!(segment_data(&image, &segment(PT_LOAD, 9, 0, 0, 0, 1)), None);
    assert_eq!(segment_data(&image, &segment(PT_LOAD, u64::MAX, 0, 2, 2, 1)), None);
}

#[test]
fn load_segments_copies_the_file_bytes_and_clears_the_rest() {
    let mut image = vec![0u8; 0x40];
    image[0x10..0x1a].copy_from_slice(&[1, 2, 3, 4, 5, 6, 7, 8, 9, 10]);
    image[0x20..0x25].copy_from_slice(&[0xb1, 0xb2, 0xb3, 0xb4, 0xb5]);
    let segments =
        [segment(PT_LOAD, 0x10, 0, 10, 20, 0x1000), segment(PT_LOAD, 0x20, 0x1000, 5, 5, 0x1000)];

    let mut buffer = vec![0u8; 0x2000];
    assert_eq!(load_segments(&mut buffer, &image, &segments), Ok(()));
    assert_eq!(&buffer[0..10], &[1, 2, 3, 4, 5, 6, 7, 8, 9, 10]);
    assert_eq!(&buffer[10..20], &[0; 10]);
    assert_eq!(&buffer[0x1000..0x1005], &[0xb1, 0xb2, 0xb3, 0xb4, 0xb5]);

    let mut buffer = vec![0xeeu8; 0x2000];
    assert_eq!(load_segments(&mut buffer, &image, &segments), Ok(()));
    assert_eq!(&buffer[0..10], &[1, 2, 3, 4, 5, 6, 7, 8, 9, 10]);
    assert_eq!(&buffer[10..20], &[0; 10]);
    assert_eq!(&buffer[20..0x1000], &vec![0xee; 0x1000 - 20][..]);
    assert_eq!(&buffer[0x1000..0x1005], &[0xb1, 0xb2, 0xb3, 0xb4, 0xb5]);
    assert_eq!(&buffer[0x1005..], &vec![0xee; 0x2000 - 0x1005][..]);
}

#[test]
fn load_segments_leaves_other_segments_alone() {
    let image = [9u8; 16];
    let segments = [segment(2, 0, 0, 8, 8, 1), segment(0, 0x1000, 0, 0x1000, 1, 1)];
    let mut buffer = vec![0x55u8; 16];
    assert_eq!(load_segments(&mut buffer, &image, &segments), Ok(()));
    assert_eq!(buffer, vec![0x55u8; 16]);
}

#[test]
fn a_later_segment_overwrites_an_earlier_one() {
    let image = [1u8, 1, 1, 1, 2, 2];
    let segments = [segment(PT_LOAD, 0, 0, 4, 8, 1), segment(PT_LOAD, 4, 2, 2, 3, 1)];
    let mut buffer = vec![0x77u8; 10];
    assert_eq!(load_segments(&mut buffer, &image, &segments), Ok(()));
    assert_eq!(buffer, vec![1, 1, 2, 2, 0, 0, 0, 0, 0x77, 0x77]);
}

#[test]
fn load_segments_rejects_a_segment_larger_in_the_file_than_in_memory() {
    let image = [3u8; 32];
    let segments = [segment(PT_LOAD, 0, 0, 4, 4, 1), segment(PT_LOAD, 0, 8, 6, 5, 1)];
    let mut buffer = vec![0u8; 32];
    assert_eq!(load_segments(&mut buffer, &image, &segments), Err(LoadError::InvalidSegment));
    assert_eq!(&buffer[..4], &[3; 4]);
    assert_eq!(&buffer[4..], &[0; 28]);
}

#[test]
fn load_segments_rejects_bytes_outside_the_image() {
    let image = [3u8; 8];
    let mut buffer = vec![0u8; 32];
    let segments = [segment(PT_LOAD, 4, 0, 5, 5, 1)];
    assert_eq!(load_segments(&mut buffer, &image, &segments), Err(LoadError::SegmentData));
    assert_eq!(buffer, vec![0u8; 32]);
}

#[test]
fn load_segments_rejects_a_segment_that_does_not_fit() {
    let image = [3u8; 8];
    let mut buffer = vec![0u8; 32];
    let segments = [segment(PT_LOAD, 0, 30, 2, 3, 1)];
    assert_eq!(load_segments(&mut buffer, &image, &segments), Err(LoadError::SegmentOutOfBounds));
    assert_eq!(buffer, vec![0u8; 32]);
    let segments = [segment(PT_LOAD, 0, 30, 2, 2, 1)];
    assert_eq!(load_segments(&mut buffer, &image, &segments), Ok(()));
    assert_eq!(&buffer[30..], &[3, 3]);
    let segments = [segment(PT_LOAD, 0, u64::MAX, 0, 1, 1)];
    assert_eq!(load_segments(&mut buffer, &image, &segments), Err(LoadError::SegmentOutOfBounds));
}

#[test]
fn a_relative_relocation_adds_the_load_address() {
    let mut buffer = vec![0u8; 32];
    assert_eq!(apply_relocations(&mut buffer, &[relative(8, 0x40)], 0x200000), Ok(()));
    assert_eq!(u64::from_le_bytes(buffer[8..16].try_into().unwrap()), 0x200040);
    assert_eq!(&buffer[..8], &[0; 8]);
    assert_eq!(&buffer[16..], &[0; 16]);
}

#[test]
fn relocations_are_applied_in_order() {
    let mut buffer = vec![0xffu8; 24];
    let relocations = [relative(0, 1), relative(4, 2), relative(16, -1)];
    assert_eq!(apply_relocations(&mut buffer, &relocations, 0x1_0000_0000), Ok(()));
    assert_eq!(u32::from_le_bytes(buffer[0..4].try_into().unwrap()), 1);
    assert_eq!(u64::from_le_bytes(buffer[4..12].try_into().unwrap()), 0x1_0000_0002);
    assert_eq!(&buffer[12..16], &[0xff; 4]);
    assert_eq!(u64::from_le_bytes(buffer[16..24].try_into().unwrap()), 0xffff_ffff);
}

#[test]
fn the_relocated_value_wraps_around() {
    let mut buffer = vec![0u8; 16];
    let relocations = [relative(0, 0x40), relative(8, -1)];
    assert_eq!(apply_relocations(&mut buffer, &relocations, 0xffff_ffff_ffff_ffe0), Ok(()));
    assert_eq!(u64::from_le_bytes(buffer[0..8].try_into().unwrap()), 0x20);
    assert_eq!(u64::from_le_bytes(buffer[8..16].try_into().unwrap()), 0xffff_ffff_ffff_ffdf);
    assert_eq!(apply_relocations(&mut buffer, &[relative(0, -1)], 0), Ok(()));
    assert_eq!(u64::from_le_bytes(buffer[0..8].try_into().unwrap()), u64::MAX);
    assert_eq!(apply_relocations(&mut buffer, &[relative(0, 0x40)], 0xffff_ffff_c000_0000), Ok(()));
    assert_eq!(u64::from_le_bytes(buffer[0..8].try_into().unwrap()), 0xffff_ffff_c000_0040);
}

#[test]
fn another_kind_of_relocation_is_refused_with_its_kind() {
    let mut buffer = vec![0u8; 32];
    let relocations = [
        relative(0, 0x10),
        Relocation { r_offset: 8, r_sym: 3, r_type: 1, r_addend: 0 },
        relative(16, 0x20),
    ];
    assert_eq!(
        apply_relocations(&mut buffer, &relocations, 0x1000),
        Err(LoadError::UnsupportedRelocation(1))
    );
    assert_eq!(u64::from_le_bytes(buffer[0..8].try_into().unwrap()), 0x1010);
    assert_eq!(&buffer[8..], &[0; 24]);
}

#[test]
fn a_relocation_outside_the_image_is_refused_with_its_offset() {
    let mut buffer = vec![0u8; 32];
    assert_eq!(
        apply_relocations(&mut buffer, &[relative(25, 0)], 0x1000),
        Err(LoadError::RelocationOutOfBounds(25))
    );
    assert_eq!(
        apply_relocations(&mut buffer, &[relative(u64::MAX, 0)], 0x1000),
        Err(LoadError::RelocationOutOfBounds(u64::MAX))
    );
    assert_eq!(buffer, vec![0u8; 32]);
    assert_eq!(apply_relocations(&mut buffer, &[relative(24, 1)], 0x1000), Ok(()));
    assert_eq!(u64::from_le_bytes(buffer[24..32].try_into().unwrap()), 0x1001);
    let mut short = vec![0u8; 7];
    assert_eq!(
        apply_relocations(&mut short, &[relative(0, 0)], 0x1000),
        Err(LoadError::RelocationOutOfBounds(0))
    );
}

#[test]
fn unpack_kernel_places_the_segments_of_the_image() {
    let image = sample_image();
    let mut buffer = vec![0x33u8; 0x1100];
    assert_eq!(unpack_kernel(&image, &mut buffer), Ok(()));
    assert_eq!(&buffer[0..10], &[1, 2, 3, 4, 5, 6, 7, 8, 9, 10]);
    assert_eq!(&buffer[10..20], &[0; 10]);
    assert_eq!(&buffer[20..0x1000], &vec![0x33; 0x1000 - 20][..]);
    assert_eq!(&buffer[0x1000..0x1005], &[0xa1, 0xa2, 0xa3, 0xa4, 0xa5]);
    assert_eq!(&buffer[0x1005..], &vec![0x33; 0x1100 - 0x1005][..]);
}

#[test]
fn unpack_kernel_reports_what_stops_it() {
    let mut buffer = vec![0u8; 0x1000];
    assert_eq!(unpack_kernel(b"\x7fELF", &mut buffer), Err(LoadError::BadImage));
    assert_eq!(unpack_kernel(&build_image(0, &[], None), &mut buffer), Err(LoadError::NoSegments));
    assert_eq!(unpack_kernel(&sample_image(), &mut buffer), Err(LoadError::SegmentOutOfBounds));
    assert_eq!(&buffer[0..10], &[1, 2, 3, 4, 5, 6, 7, 8, 9, 10]);
    let image = build_image(0, &[load(0, &[1, 2, 3, 4], 3, 1)], None);
    assert_eq!(unpack_kernel(&image, &mut buffer), Err(LoadError::InvalidSegment));
    let mut cut = build_image(0, &[load(0, &[1, 2, 3, 4], 4, 1)], None);
    cut.pop();
    assert_eq!(unpack_kernel(&cut, &mut buffer), Err(LoadError::SegmentData));
}

#[test]
fn relocate_kernel_applies_the_relocations_of_every_section() {
    let image = sample_image();
    let mut buffer = vec![0u8; 0x1100];
    assert_eq!(relocate_kernel(&image, &mut buffer, 0xffff_ffff_c000_0000), Ok(()));
    assert_eq!(u64::from_le_bytes(buffer[8..16].try_into().unwrap()), 0xffff_ffff_c000_0040);
    assert_eq!(u64::from_le_bytes(buffer[0x1008..0x1010].try_into().unwrap()), 0xffff_ffff_bfff_fff0);
    assert_eq!(u64::from_le_bytes(buffer[0x20..0x28].try_into().unwrap()), 0xffff_ffff_c000_1000);
    assert_eq!(&buffer[0..8], &[0; 8]);
    assert_eq!(&buffer[16..0x20], &[0; 16]);
}

#[test]
fn relocate_kernel_reports_what_stops_it() {
    let mut buffer = vec![0u8; 0x100];
    let segments = [load(0, &[1, 2, 3, 4], 4, 1)];
    assert_eq!(
        relocate_kernel(&build_image(0, &segments, None), &mut buffer, 0),
        Err(LoadError::NoSections)
    );
    assert_eq!(relocate_kernel(b"garbage", &mut buffer, 0), Err(LoadError::BadImage));
    let image = build_image(
        0,
        &segments,
        Some(&[relas(&[(0, R_X86_64_RELATIVE, 5)]), relas(&[(8, 7, 0), (16, 8, 0)])]),
    );
    assert_eq!(relocate_kernel(&image, &mut buffer, 0x100), Err(LoadError::UnsupportedRelocation(7)));
    assert_eq!(u64::from_le_bytes(buffer[0..8].try_into().unwrap()), 0x105);
    assert_eq!(&buffer[8..], &vec![0; 0x100 - 8][..]);
    let image = build_image(0, &segments, Some(&[relas(&[(0xf9, R_X86_64_RELATIVE, 5)])]));
    assert_eq!(
        relocate_kernel(&image, &mut buffer, 0x100),
        Err(LoadError::RelocationOutOfBounds(0xf9))
    );
    let image = build_image(
        0,
        &segments,
        Some(&[PlannedSection {
            sh_type: SHT_RELA,
            relas: vec![(0, R_X86_64_RELATIVE, 5)],
            beyond_the_image: true,
        }]),
    );
    assert_eq!(relocate_kernel(&image, &mut buffer, 0x100), Err(LoadError::BadRelocations));
}

#[test]
fn relocate_kernel_passes_over_other_sections() {
    let image = build_image(
        0,
        &[load(0, &[1, 2, 3, 4], 4, 1)],
        Some(&[PlannedSection { sh_type: 9, relas: vec![(0, 1, 5)], beyond_the_image: false }]),
    );
    let mut buffer = vec![0u8; 0x100];
    assert_eq!(relocate_kernel(&image, &mut buffer, 0x100), Ok(()));
    assert_eq!(buffer, vec![0u8; 0x100]);
}

#[test]
fn load_kernel_unpacks_and_then_relocates() {
    let image = build_image(
        0x10,
        &[load(0, &[0xaa; 24], 32, 0x1000)],
        Some(&[relas(&[(8, R_X86_64_RELATIVE, 0x40)])]),
    );
    let mut buffer = vec![0x11u8; 40];
    assert_eq!(load_kernel(&image, &mut buffer, 0x200000), Ok(()));
    assert_eq!(&buffer[0..8], &[0xaa; 8]);
    assert_eq!(u64::from_le_bytes(buffer[8..16].try_into().unwrap()), 0x200040);
    assert_eq!(&buffer[16..24], &[0xaa; 8]);
    assert_eq!(&buffer[24..32], &[0; 8]);
    assert_eq!(&buffer[32..], &[0x11; 8]);
}

#[test]
fn load_kernel_stops_at_the_first_fault() {
    let image = build_image(
        0x10,
        &[load(0, &[0xaa; 24], 8, 0x1000)],
        Some(&[relas(&[(8, R_X86_64_RELATIVE, 0x40)])]),
    );
    let mut buffer = vec![0x11u8; 40];
    assert_eq!(load_kernel(&image, &mut buffer, 0x200000), Err(LoadError::InvalidSegment));
    assert_eq!(buffer, vec![0x11u8; 40]);
    let image = build_image(0x10, &[load(0, &[0xaa; 24], 24, 0x1000)], None);
    assert_eq!(load_kernel(&image, &mut buffer, 0x200000), Err(LoadError::NoSections));
    assert_eq!(&buffer[..24], &[0xaa; 24]);
    assert_eq!(load_kernel(&[], &mut buffer, 0x200000), Err(LoadError::BadImage));
}

fn section(sh_type: u32) -> Section {
    Section {
        sh_name: 0,
        sh_type,
        sh_flags: 0,
        sh_addr: 0,
        sh_offset: 0,
        sh_size: 0,
        sh_link: 0,
        sh_info: 0,
        sh_addralign: 8,
        sh_entsize: 24,
    }
}

fn word(buffer: &[u8], at: usize) -> u64 {
    u64::from_le_bytes(buffer[at..at + 8].try_into().unwrap())
}

#[test]
fn relocate_sections_applies_sections_of_relocations_in_order() {
    let sections = [section(0), section(SHT_RELA), section(1), section(SHT_RELA)];
    let read = [
        None,
        Some(vec![relative(0, 0x10), relative(8, 0x20)]),
        None,
        Some(vec![relative(8, 0x30), relative(16, -1)]),
    ];
    let mut buffer = vec![0xeeu8; 32];
    assert_eq!(relocate_sections(&mut buffer, &sections, &read, 0x1000), Ok(()));
    assert_eq!(word(&buffer, 0), 0x1010);
    assert_eq!(word(&buffer, 8), 0x1030);
    assert_eq!(word(&buffer, 16), 0xfff);
    assert_eq!(&buffer[24..], &[0xee; 8]);
}

#[test]
fn relocate_sections_passes_over_sections_of_another_kind() {
    let foreign = Relocation { r_offset: 0, r_sym: 1, r_type: 7, r_addend: 0 };
    let sections = [section(9), section(0), section(8), section(SHT_RELA)];
    let read = [Some(vec![foreign]), Some(vec![relative(1000, 0)]), None, Some(vec![])];
    let mut buffer = vec![0x11u8; 16];
    assert_eq!(relocate_sections(&mut buffer, &sections, &read, 0x1000), Ok(()));
    assert_eq!(buffer, vec![0x11u8; 16]);
    assert_eq!(relocate_sections(&mut buffer, &[], &[], 0x1000), Ok(()));
    assert_eq!(buffer, vec![0x11u8; 16]);
}

#[test]
fn a_section_that_was_not_read_stops_the_run() {
    let sections = [section(SHT_RELA), section(SHT_RELA), section(SHT_RELA)];
    let read = [Some(vec![relative(0, 1)]), None, Some(vec![relative(8, 2)])];
    let mut buffer = vec![0u8; 16];
    assert_eq!(
        relocate_sections(&mut buffer, &sections, &read, 0x1000),
        Err(LoadError::BadRelocations)
    );
    assert_eq!(word(&buffer, 0), 0x1001);
    assert_eq!(word(&buffer, 8), 0);
}

#[test]
fn the_first_fault_of_a_section_stops_the_run() {
    let foreign = Relocation { r_offset: 8, r_sym: 1, r_type: 7, r_addend: 0 };
    let sections = [section(SHT_RELA), section(SHT_RELA), section(SHT_RELA)];
    let read = [
        Some(vec![relative(0, 1)]),
        Some(vec![relative(8, 2), foreign, relative(16, 3)]),
        None,
    ];
    let mut buffer = vec![0u8; 24];
    assert_eq!(
        relocate_sections(&mut buffer, &sections, &read, 0x1000),
        Err(LoadError::UnsupportedRelocation(7))
    );
    assert_eq!(word(&buffer, 0), 0x1001);
    assert_eq!(word(&buffer, 8), 0x1002);
    assert_eq!(word(&buffer, 16), 0);
    let read = [Some(vec![relative(17, 1)]), Some(vec![relative(0, 2)]), None];
    let mut buffer = vec![0u8; 24];
    assert_eq!(
        relocate_sections(&mut buffer, &sections, &read, 0x1000),
        Err(LoadError::RelocationOutOfBounds(17))
    );
    assert_eq!(buffer, vec![0u8; 24]);
}
