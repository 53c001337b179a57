use lambix_boot::multiboot2::{
    bytes_until_nul, is_aligned, BootInformation, MemoryInfo, MemoryMap, MemoryRange, Tag,
    BOOT_MAGIC,
};

fn push_u32(buffer: &mut Vec<u8>, value: u32) {
    buffer.extend_from_slice(&value.to_le_bytes());
}

fn push_u64(buffer: &mut Vec<u8>, value: u64) {
    buffer.extend_from_slice(&value.to_le_bytes());
}

fn push_tag(buffer: &mut Vec<u8>, typ: u32, payload: &[u8]) {
    push_u32(buffer, typ);
    push_u32(buffer, 8 + payload.len() as u32);
    buffer.extend_from_slice(payload);
    while buffer.len() % 8 != 0 {
        buffer.push(0);
    }
}

fn map_payload(entry_size: u32, entries: &[(u64, u64, u32)]) -> Vec<u8> {
    let mut payload = Vec::new();
    push_u32(&mut payload, entry_size);
    push_u32(&mut payload, 0);
    for (base, size, typ) in entries {
        let start = payload.len();
        push_u64(&mut payload, *base);
        push_u64(&mut payload, *size);
        push_u32(&mut payload, *typ);
        while payload.len() - start < entry_size as usize {
            payload.push(0);
        }
    }
    payload
}

fn finish(mut tags: Vec<u8>) -> Vec<u8> {
    push_tag(&mut tags, 0, &[]);
    let mut block = Vec::new();
    push_u32(&mut block, 8 + tags.len() as u32);
    push_u32(&mut block, 0);
    block.extend_from_slice(&tags);
    block
}

fn sample_block() -> Vec<u8> {
    let mut tags = Vec::new();
    push_tag(&mut tags, 1, b"quiet\0");
    push_tag(&mut tags, 2, b"loader\0");
    push_tag(
        &mut tags,
        6,
        &map_payload(
            24,
            &[
                (0, 0x9fc00, 1),
                (0x9fc00, 0x400, 2),
                (0x100000, 0x7ee0000, 1),
                (0x7fe0000, 0x20000, 3),
                (0xfffc0000, 0x40000, 77),
            ],
        ),
    );
    finish(tags)
}

#[test]
fn is_aligned_tells_multiples() {
    assert!(is_aligned(0, 8));
    assert!(is_aligned(64, 8));
    assert!(!is_aligned(65, 8));
    assert!(!is_aligned(4, 8));
    assert!(is_aligned(4, 4));
}

#[test]
fn from_ptr_accepts_a_valid_block() {
    let block = sample_block();
    let info = BootInformation::from_ptr(0x10000, BOOT_MAGIC, &block).unwrap();
    assert_eq!(info.size(), block.len());
    assert_eq!(info.address(), 0x10000);
    assert_eq!(info.as_bytes(), &block[..]);
    assert_eq!(info.as_ptr_range(), 0x10000..0x10000 + block.len());
}

#[test]
fn from_ptr_rejects_a_wrong_magic() {
    let block = sample_block();
    assert!(BootInformation::from_ptr(0x10000, 0x2BADB002, &block).is_none());
    assert!(!BootInformation::pointer_is_valid(0x10000, 0x2BADB002));
}

#[test]
fn from_ptr_rejects_a_null_pointer() {
    let block = sample_block();
    assert!(BootInformation::from_ptr(0, BOOT_MAGIC, &block).is_none());
    assert!(!BootInformation::pointer_is_valid(0, BOOT_MAGIC));
}

#[test]
fn from_ptr_rejects_an_unaligned_pointer() {
    let block = sample_block();
    assert!(BootInformation::from_ptr(0x10004, BOOT_MAGIC, &block).is_none());
    assert!(!BootInformation::pointer_is_valid(0x10004, BOOT_MAGIC));
    assert!(BootInformation::pointer_is_valid(0x10008, BOOT_MAGIC));
}

#[test]
fn from_ptr_rejects_a_size_below_the_header() {
    let mut block = Vec::new();
    push_u32(&mut block, 7);
    push_u32(&mut block, 0);
    assert!(BootInformation::from_ptr(0x10000, BOOT_MAGIC, &block).is_none());
    assert!(BootInformation::from_ptr(0x10000, BOOT_MAGIC, &block[..4]).is_none());
    assert!(BootInformation::from_ptr(0x10000, BOOT_MAGIC, &[]).is_none());
}

#[test]
fn from_ptr_rejects_a_size_beyond_the_memory() {
    let block = sample_block();
    assert!(BootInformation::from_ptr(0x10000, BOOT_MAGIC, &block[..block.len() - 1]).is_none());
}

#[test]
fn from_ptr_rejects_a_block_that_wraps_the_address_space() {
    let block = sample_block();
    assert!(BootInformation::from_ptr(usize::MAX - 7, BOOT_MAGIC, &block).is_none());
}

#[test]
fn from_ptr_cuts_the_block_to_its_declared_size() {
    let mut block = sample_block();
    let declared = block.len();
    block.extend_from_slice(&[0xee; 32]);
    let info = BootInformation::from_ptr(0x10000, BOOT_MAGIC, &block).unwrap();
    assert_eq!(info.size(), declared);
    assert_eq!(info.as_bytes(), &block[..declared]);
}

#[test]
fn a_header_alone_has_no_tags() {
    let mut block = Vec::new();
    push_u32(&mut block, 8);
    push_u32(&mut block, 0);
    let info = BootInformation::from_ptr(0x10000, BOOT_MAGIC, &block).unwrap();
    let mut tags = info.tags();
    assert!(tags.next().is_none());
    assert_eq!(tags.cursor(), 8);
    assert!(info.memory_map().is_none());
}

#[test]
fn tags_come_in_order_and_stop_at_the_end_tag() {
    let block = sample_block();
    let info = BootInformation::from_ptr(0x10000, BOOT_MAGIC, &block).unwrap();
    let mut tags = info.tags();
    assert_eq!(tags.cursor(), 8);
    match tags.next() {
        Some(Tag::CommandLine(line)) => assert_eq!(line, b"quiet"),
        other => panic!("unexpected tag {:?}", other),
    }
    assert_eq!(tags.cursor(), 24);
    match tags.next() {
        Some(Tag::Unknown(typ)) => assert_eq!(typ, 2),
        other => panic!("unexpected tag {:?}", other),
    }
    assert_eq!(tags.cursor(), 40);
    match tags.next() {
        Some(Tag::MemoryMap(map)) => {
            assert_eq!(map.entry_size(), 24);
            assert_eq!(map.entry_version(), 0);
            assert_eq!(map.entries().len(), 5);
        }
        other => panic!("unexpected tag {:?}", other),
    }
    assert_eq!(tags.cursor(), 40 + 16 + 5 * 24);
    assert!(tags.next().is_none());
    assert_eq!(tags.cursor(), 40 + 16 + 5 * 24);
    assert!(tags.next().is_none());
}

#[test]
fn iter_walks_the_same_tags_as_tags() {
    let block = sample_block();
    let info = BootInformation::from_ptr(0x10000, BOOT_MAGIC, &block).unwrap();
    let mut first = info.tags();
    let mut second = info.iter();
    loop {
        let a = first.next();
        let b = second.next();
        assert_eq!(first.cursor(), second.cursor());
        assert_eq!(a.is_some(), b.is_some());
        if a.is_none() {
            break;
        }
    }
}

#[test]
fn the_cursor_stays_aligned_and_inside_the_block() {
    let block = sample_block();
    let info = BootInformation::from_ptr(0x10000, BOOT_MAGIC, &block).unwrap();
    let mut tags = info.tags();
    let mut count = 0;
    let mut last = tags.cursor();
    while tags.next().is_some() {
        count += 1;
        assert!(tags.cursor() >= last + 8);
        assert!(tags.cursor() <= info.size());
        assert_eq!(tags.cursor() % 8, 0);
        last = tags.cursor();
        assert!(count <= info.size() / 8);
    }
    assert_eq!(count, 3);
}

#[test]
fn a_tag_of_size_zero_still_moves_the_cursor() {
    let mut block = Vec::new();
    push_u32(&mut block, 32);
    push_u32(&mut block, 0);
    push_u32(&mut block, 9);
    push_u32(&mut block, 0);
    push_u32(&mut block, 5);
    push_u32(&mut block, 3);
    push_u32(&mut block, 0);
    push_u32(&mut block, 8);
    let info = BootInformation::from_ptr(0x10000, BOOT_MAGIC, &block).unwrap();
    let mut tags = info.tags();
    assert!(matches!(tags.next(), Some(Tag::Unknown(9))));
    assert_eq!(tags.cursor(), 16);
    assert!(matches!(tags.next(), Some(Tag::Unknown(5))));
    assert_eq!(tags.cursor(), 24);
    assert!(tags.next().is_none());
    assert_eq!(tags.cursor(), 24);
}

#[test]
fn a_tag_that_claims_too_much_ends_the_walk_inside_the_block() {
    let mut block = Vec::new();
    push_u32(&mut block, 28);
    push_u32(&mut block, 0);
    push_u32(&mut block, 6);
    push_u32(&mut block, 0xffff_fff9);
    push_u32(&mut block, 24);
    push_u32(&mut block, 0);
    push_u32(&mut block, 0);
    let info = BootInformation::from_ptr(0x10000, BOOT_MAGIC, &block).unwrap();
    let mut tags = info.tags();
    assert!(matches!(tags.next(), Some(Tag::Unknown(6))));
    assert_eq!(tags.cursor(), 24);
    assert!(tags.next().is_none());
    assert_eq!(tags.cursor(), 24);
    assert!(info.memory_map().is_none());
}

#[test]
fn a_block_without_end_tag_stops_where_no_header_fits() {
    let mut tags = Vec::new();
    push_tag(&mut tags, 4, &[1, 2, 3, 4, 5, 6, 7, 8]);
    push_tag(&mut tags, 5, &[]);
    let mut block = Vec::new();
    push_u32(&mut block, 8 + tags.len() as u32);
    push_u32(&mut block, 0);
    block.extend_from_slice(&tags);
    let info = BootInformation::from_ptr(0x10000, BOOT_MAGIC, &block).unwrap();
    let mut walk = info.tags();
    assert!(matches!(walk.next(), Some(Tag::Unknown(4))));
    assert!(matches!(walk.next(), Some(Tag::Unknown(5))));
    assert_eq!(walk.cursor(), block.len());
    assert!(walk.next().is_none());
}

#[test]
fn a_command_line_without_nul_is_reported_by_type_only() {
    let mut tags = Vec::new();
    push_tag(&mut tags, 1, b"abcdefgh");
    let block = finish(tags);
    let info = BootInformation::from_ptr(0x10000, BOOT_MAGIC, &block).unwrap();
    let mut walk = info.tags();
    assert!(matches!(walk.next(), Some(Tag::Unknown(1))));
    assert_eq!(walk.cursor(), 24);
    assert!(walk.next().is_none());
}

#[test]
fn a_payload_ends_where_its_tag_ends() {
    let mut tags = Vec::new();
    push_tag(&mut tags, 1, b"ab\0cd");
    push_tag(&mut tags, 1, b"efgh");
    push_tag(&mut tags, 1, b"\0");
    let block = finish(tags);
    let info = BootInformation::from_ptr(0x10000, BOOT_MAGIC, &block).unwrap();
    let mut walk = info.tags();
    match walk.next() {
        Some(Tag::CommandLine(line)) => assert_eq!(line, b"ab"),
        other => panic!("unexpected tag {:?}", other),
    }
    assert!(matches!(walk.next(), Some(Tag::Unknown(1))));
    match walk.next() {
        Some(Tag::CommandLine(line)) => assert_eq!(line, b""),
        other => panic!("unexpected tag {:?}", other),
    }
    assert!(walk.next().is_none());
}

#[test]
fn spare_bytes_behind_the_last_entry_give_no_entry() {
    let mut payload = map_payload(24, &[(0x10_0000, 0x20_0000, 1)]);
    payload.extend_from_slice(&[0xff; 12]);
    let mut tags = Vec::new();
    push_tag(&mut tags, 6, &payload);
    push_tag(&mut tags, 1, b"x\0");
    let block = finish(tags);
    let info = BootInformation::from_ptr(0x10000, BOOT_MAGIC, &block).unwrap();
    let map = info.memory_map().unwrap();
    assert_eq!(
        map.entries(),
        vec![MemoryInfo::Available(MemoryRange { base: 0x10_0000, size: 0x20_0000 })]
    );
    let mut walk = info.tags();
    assert!(matches!(walk.next(), Some(Tag::MemoryMap(_))));
    assert_eq!(walk.cursor(), 8 + 56);
    match walk.next() {
        Some(Tag::CommandLine(line)) => assert_eq!(line, b"x"),
        other => panic!("unexpected tag {:?}", other),
    }
}

#[test]
fn a_map_holds_the_bytes_of_its_own_tag_only() {
    let mut tags = Vec::new();
    push_tag(&mut tags, 6, &map_payload(24, &[(0x1000, 0x2000, 1), (0x3000, 0x4000, 2)]));
    push_tag(&mut tags, 1, &[1u8; 24]);
    let block = finish(tags);
    let info = BootInformation::from_ptr(0x10000, BOOT_MAGIC, &block).unwrap();
    let map = info.memory_map().unwrap();
    let mut cursor = map.iter();
    assert_eq!(
        cursor.next(),
        Some(MemoryInfo::Available(MemoryRange { base: 0x1000, size: 0x2000 }))
    );
    assert_eq!(
        cursor.next(),
        Some(MemoryInfo::Reserved(MemoryRange { base: 0x3000, size: 0x4000 }))
    );
    assert_eq!(cursor.next(), None);
    assert_eq!(map.entries().len(), 2);
}

#[test]
fn the_last_tag_is_read_where_no_end_tag_follows() {
    let mut tags = Vec::new();
    push_tag(&mut tags, 6, &map_payload(24, &[(0x1000, 0x2000, 1)]));
    let mut block = Vec::new();
    push_u32(&mut block, 8 + tags.len() as u32);
    push_u32(&mut block, 0);
    block.extend_from_slice(&tags);
    let info = BootInformation::from_ptr(0x10000, BOOT_MAGIC, &block).unwrap();
    let map = info.memory_map().unwrap();
    assert_eq!(
        map.entries(),
        vec![MemoryInfo::Available(MemoryRange { base: 0x1000, size: 0x2000 })]
    );
    let mut walk = info.tags();
    assert!(matches!(walk.next(), Some(Tag::MemoryMap(_))));
    assert_eq!(walk.cursor(), block.len());
    assert!(walk.next().is_none());
}

#[test]
fn a_size_below_the_header_leaves_only_the_type() {
    let mut block = Vec::new();
    push_u32(&mut block, 40);
    push_u32(&mut block, 0);
    push_u32(&mut block, 6);
    push_u32(&mut block, 7);
    push_u32(&mut block, 24);
    push_u32(&mut block, 0);
    push_u32(&mut block, 1);
    push_u32(&mut block, 8);
    push_u32(&mut block, 0);
    push_u32(&mut block, 8);
    let info = BootInformation::from_ptr(0x10000, BOOT_MAGIC, &block).unwrap();
    let mut walk = info.tags();
    assert!(matches!(walk.next(), Some(Tag::Unknown(6))));
    assert_eq!(walk.cursor(), 16);
    assert!(matches!(walk.next(), Some(Tag::Unknown(24))));
    assert_eq!(walk.cursor(), 24);
    assert!(matches!(walk.next(), Some(Tag::Unknown(1))));
    assert_eq!(walk.cursor(), 32);
    assert!(walk.next().is_none());
    assert!(info.memory_map().is_none());
}

#[test]
fn a_map_tag_of_header_and_two_words_has_no_entries() {
    let mut tags = Vec::new();
    push_tag(&mut tags, 6, &map_payload(24, &[]));
    push_tag(&mut tags, 6, &map_payload(24, &[(0x1000, 0x2000, 1)]));
    let block = finish(tags);
    let info = BootInformation::from_ptr(0x10000, BOOT_MAGIC, &block).unwrap();
    let map = info.memory_map().unwrap();
    assert_eq!(map.entry_size(), 24);
    assert!(map.entries().is_empty());
}

#[test]
fn bytes_until_nul_stops_at_the_first_nul() {
    assert_eq!(bytes_until_nul(b"root=/dev/sda\0debug\0"), Some(&b"root=/dev/sda"[..]));
    assert_eq!(bytes_until_nul(b"\0"), Some(&b""[..]));
    assert_eq!(bytes_until_nul(b"no end"), None);
    assert_eq!(bytes_until_nul(b""), None);
}

#[test]
fn memory_map_finds_the_first_map() {
    let mut tags = Vec::new();
    push_tag(&mut tags, 8, &[0; 16]);
    push_tag(&mut tags, 6, &map_payload(24, &[(0x1000, 0x2000, 1)]));
    push_tag(&mut tags, 6, &map_payload(24, &[(0x9000, 0x1000, 2)]));
    let block = finish(tags);
    let info = BootInformation::from_ptr(0x10000, BOOT_MAGIC, &block).unwrap();
    let map = info.memory_map().unwrap();
    assert_eq!(
        map.entries(),
        vec![MemoryInfo::Available(MemoryRange { base: 0x1000, size: 0x2000 })]
    );
}

#[test]
fn memory_map_is_missing_without_a_map_tag() {
    let mut tags = Vec::new();
    push_tag(&mut tags, 1, b"x\0");
    let block = finish(tags);
    let info = BootInformation::from_ptr(0x10000, BOOT_MAGIC, &block).unwrap();
    assert!(info.memory_map().is_none());
}

#[test]
fn entries_decode_every_type() {
    let block = sample_block();
    let info = BootInformation::from_ptr(0x10000, BOOT_MAGIC, &block).unwrap();
    let map = info.memory_map().unwrap();
    assert_eq!(
        map.entries(),
        vec![
            MemoryInfo::Available(MemoryRange { base: 0, size: 0x9fc00 }),
            MemoryInfo::Reserved(MemoryRange { base: 0x9fc00, size: 0x400 }),
            MemoryInfo::Available(MemoryRange { base: 0x100000, size: 0x7ee0000 }),
            MemoryInfo::ACPIReclaimable(MemoryRange { base: 0x7fe0000, size: 0x20000 }),
            MemoryInfo::Unknown(MemoryRange { base: 0xfffc0000, size: 0x40000 }, 77),
        ]
    );
}

#[test]
fn the_cursor_over_entries_hands_them_out_one_by_one() {
    let payload = map_payload(24, &[(0x1000, 0x10, 4), (0x2000, 0x20, 5)]);
    let map = MemoryMap::from_slice(&payload).unwrap();
    let mut cursor = map.iter();
    assert_eq!(cursor.next(), Some(MemoryInfo::NVS(MemoryRange { base: 0x1000, size: 0x10 })));
    assert_eq!(cursor.next(), Some(MemoryInfo::BadRam(MemoryRange { base: 0x2000, size: 0x20 })));
    assert_eq!(cursor.next(), None);
    assert_eq!(cursor.next(), None);
}

#[test]
fn unknown_type_codes_are_kept() {
    let info = MemoryInfo::new(MemoryRange { base: 1, size: 2 }, 0xdead_beef);
    assert_eq!(info, MemoryInfo::Unknown(MemoryRange { base: 1, size: 2 }, 0xdead_beef));
    assert_eq!(info.type_code(), 0xdead_beef);
    assert_eq!(MemoryInfo::new(MemoryRange { base: 1, size: 2 }, 0).type_code(), 0);
    for code in 1..=5u32 {
        assert_eq!(MemoryInfo::new(MemoryRange { base: 1, size: 2 }, code).type_code(), code);
    }
    assert_eq!(
        MemoryInfo::new(MemoryRange { base: 1, size: 2 }, 3),
        MemoryInfo::ACPIReclaimable(MemoryRange { base: 1, size: 2 })
    );
}

#[test]
fn from_slice_needs_both_words() {
    assert!(MemoryMap::from_slice(&[24, 0, 0, 0, 0, 0, 0]).is_none());
    assert!(MemoryMap::from_slice(&[]).is_none());
    let map = MemoryMap::from_slice(&[24, 0, 0, 0, 1, 0, 0, 0]).unwrap();
    assert_eq!(map.entry_size(), 24);
    assert_eq!(map.entry_version(), 1);
    assert!(map.entries().is_empty());
}

#[test]
fn a_map_with_entries_of_no_size_has_no_entries() {
    let mut payload = map_payload(0, &[]);
    payload.extend_from_slice(&[0xff; 48]);
    let map = MemoryMap::from_slice(&payload).unwrap();
    assert_eq!(map.entry_size(), 0);
    assert!(map.entries().is_empty());
    assert_eq!(map.iter().next(), None);
}

#[test]
fn entries_too_small_to_decode_give_nothing() {
    let mut payload = map_payload(16, &[]);
    payload.extend_from_slice(&[1; 64]);
    let map = MemoryMap::from_slice(&payload).unwrap();
    assert!(map.entries().is_empty());
}

#[test]
fn larger_entries_are_read_by_their_declared_size() {
    let payload = map_payload(32, &[(0x10, 0x20, 1), (0x30, 0x40, 2)]);
    let map = MemoryMap::from_slice(&payload).unwrap();
    assert_eq!(
        map.entries(),
        vec![
            MemoryInfo::Available(MemoryRange { base: 0x10, size: 0x20 }),
            MemoryInfo::Reserved(MemoryRange { base: 0x30, size: 0x40 }),
        ]
    );
}

#[test]
fn a_short_last_chunk_is_left_out() {
    let mut payload = map_payload(24, &[(0x10, 0x20, 1)]);
    payload.extend_from_slice(&[7; 19]);
    let map = MemoryMap::from_slice(&payload).unwrap();
    assert_eq!(map.entries(), vec![MemoryInfo::Available(MemoryRange { base: 0x10, size: 0x20 })]);
    let mut payload = map_payload(24, &[(0x10, 0x20, 1)]);
    payload.extend_from_slice(&[0; 20]);
    let map = MemoryMap::from_slice(&payload).unwrap();
    assert_eq!(map.entries().len(), 2);
}

#[test]
fn memory_range_end_is_checked() {
    assert_eq!(MemoryRange { base: 0x1000, size: 0x234 }.end(), Some(0x1234));
    assert_eq!(MemoryRange { base: u64::MAX, size: 0 }.end(), Some(u64::MAX));
    assert_eq!(MemoryRange { base: u64::MAX, size: 1 }.end(), None);
}

#[test]
fn memory_range_contains_and_overlaps() {
    let range = MemoryRange { base: 0x1000, size: 0x1000 };
    assert!(range.contains(0x1000));
    assert!(range.contains(0x1fff));
    assert!(!range.contains(0x2000));
    assert!(!range.contains(0xfff));
    assert!(range.overlaps(&MemoryRange { base: 0x1fff, size: 1 }));
    assert!(range.overlaps(&MemoryRange { base: 0, size: 0x1001 }));
    assert!(range.overlaps(&MemoryRange { base: 0, size: u64::MAX }));
    assert!(!range.overlaps(&MemoryRange { base: 0x2000, size: 0x1000 }));
    assert!(!range.overlaps(&MemoryRange { base: 0, size: 0x1000 }));
    assert!(!range.overlaps(&MemoryRange { base: 0x1800, size: 0 }));
    assert!(!MemoryRange { base: 0x1800, size: 0 }.overlaps(&range));
}

#[test]
fn memory_range_as_range_gives_both_bounds() {
    assert_eq!(MemoryRange { base: 0x100000, size: 0x100000 }.as_range(), 0x100000..0x200000);
}

#[test]
fn memory_range_as_ptr_range_needs_addresses_of_this_machine() {
    assert_eq!(
        MemoryRange { base: 0x100000, size: 0x100000 }.as_ptr_range(),
        Some(0x100000..0x200000)
    );
    assert_eq!(MemoryRange { base: 0x100000, size: 0x100000 }.base_as_ptr(), Some(0x100000));
    assert_eq!(MemoryRange { base: u64::MAX, size: 1 }.as_ptr_range(), None);
    assert_eq!(MemoryRange { base: 1, size: u64::MAX }.as_ptr_range(), None);
    assert_eq!(
        MemoryRange { base: 0, size: usize::MAX as u64 }.as_ptr_range(),
        Some(0..usize::MAX)
    );
}

#[test]
fn memory_info_gives_its_range() {
    let range = MemoryRange { base: 0x5000, size: 0x600 };
    assert_eq!(MemoryInfo::BadRam(range).range(), range);
    assert_eq!(MemoryInfo::Unknown(range, 9).range(), range);
    assert_eq!(MemoryInfo::Available(range).base, 0x5000);
    assert_eq!(MemoryInfo::Reserved(range).size, 0x600);
}
