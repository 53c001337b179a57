use lambix_boot::bytes::{read_u32, read_u64, u32_to_le, u64_from_le, u64_to_le, write_u64};

#[test]
fn read_u32_is_little_endian() {
    let buffer = [0x78u8, 0x56, 0x34, 0x12, 0xff];
    assert_eq!(read_u32(&buffer, 0), Some(0x1234_5678));
    assert_eq!(read_u32(&buffer, 1), Some(0xff12_3456));
    assert_eq!(read_u32(&buffer, 2), None);
}

#[test]
fn read_u64_is_little_endian() {
    let buffer = [1u8, 2, 3, 4, 5, 6, 7, 8, 9];
    assert_eq!(read_u64(&buffer, 0), Some(0x0807_0605_0403_0201));
    assert_eq!(read_u64(&buffer, 1), Some(0x0908_0706_0504_0302));
    assert_eq!(read_u64(&buffer, 2), None);
    assert_eq!(read_u64(&buffer, usize::MAX), None);
}

#[test]
fn u64_round_trip() {
    let bytes = u64_to_le(0x0123_4567_89ab_cdef);
    assert_eq!(bytes, [0xef, 0xcd, 0xab, 0x89, 0x67, 0x45, 0x23, 0x01]);
    assert_eq!(u64_from_le(&bytes), 0x0123_4567_89ab_cdef);
    assert_eq!(u64_from_le(&u64_to_le(u64::MAX)), u64::MAX);
    assert_eq!(u64_from_le(&u64_to_le(0)), 0);
}

#[test]
fn write_u64_patches_eight_bytes_only() {
    let mut buffer = [0xaau8; 12];
    write_u64(&mut buffer, 2, 0x1122_3344_5566_7788);
    assert_eq!(
        buffer,
        [0xaa, 0xaa, 0x88, 0x77, 0x66, 0x55, 0x44, 0x33, 0x22, 0x11, 0xaa, 0xaa]
    );
    assert_eq!(read_u64(&buffer, 2), Some(0x1122_3344_5566_7788));
}

#[test]
fn u32_to_le_puts_the_lowest_byte_first() {
    assert_eq!(u32_to_le(0x1234_5678), [0x78, 0x56, 0x34, 0x12]);
    assert_eq!(u32_to_le(0), [0; 4]);
    assert_eq!(u32_to_le(u32::MAX), [0xff; 4]);
    assert_eq!(read_u32(&u32_to_le(0xdead_beef), 0), Some(0xdead_beef));
}
