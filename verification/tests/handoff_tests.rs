use lambix_boot::handoff::{KernelInformation, HANDOFF_SIZE};
use lambix_boot::multiboot2::{BootInformation, BOOT_MAGIC};

fn empty_block() -> Vec<u8> {
    let mut block = Vec::new();
    block.extend_from_slice(&16u32.to_le_bytes());
    block.extend_from_slice(&0u32.to_le_bytes());
    block.extend_from_slice(&0u32.to_le_bytes());
    block.extend_from_slice(&8u32.to_le_bytes());
    block
}

#[test]
fn the_handoff_gives_back_what_it_was_built_from() {
    let block = empty_block();
    let info = BootInformation::from_ptr(0x9_f000, BOOT_MAGIC, &block).unwrap();
    let handoff = KernelInformation::new(
        &info,
        0x20_0000..0x23_4567,
        0x40_0000..0x40_1000,
        0xffff_ffff_c000_0000..0xffff_ffff_c003_4567,
        0xffff_ffff_4000_0000..0xffff_ffff_4000_1000,
    );
    assert_eq!(handoff.boot_info(), 0x9_f000);
    assert_eq!(handoff.kernel_phy_range(), 0x20_0000..0x23_4567);
    assert_eq!(handoff.stack_phy_range(), 0x40_0000..0x40_1000);
    assert_eq!(handoff.kernel_vrange(), 0xffff_ffff_c000_0000..0xffff_ffff_c003_4567);
    assert_eq!(handoff.stack_vrange(), 0xffff_ffff_4000_0000..0xffff_ffff_4000_1000);
}

#[test]
fn the_handoff_holds_the_widest_addresses() {
    let block = empty_block();
    let info = BootInformation::from_ptr(0xffff_ffe8, BOOT_MAGIC, &block).unwrap();
    let handoff = KernelInformation::new(
        &info,
        0..0xffff_ffff,
        0xffff_ffff..0xffff_ffff,
        0..u64::MAX,
        0x0123_4567_89ab_cdef..0xfedc_ba98_7654_3210,
    );
    assert_eq!(handoff.boot_info(), 0xffff_ffe8);
    assert_eq!(handoff.kernel_phy_range(), 0..0xffff_ffff);
    assert_eq!(handoff.stack_phy_range(), 0xffff_ffff..0xffff_ffff);
    assert_eq!(handoff.kernel_vrange(), 0..u64::MAX);
    assert_eq!(handoff.stack_vrange(), 0x0123_4567_89ab_cdef..0xfedc_ba98_7654_3210);
}

#[test]
fn the_handoff_lies_in_memory_field_by_field() {
    let block = empty_block();
    let info = BootInformation::from_ptr(0x0009_f000, BOOT_MAGIC, &block).unwrap();
    let handoff = KernelInformation::new(
        &info,
        0x20_0000..0x23_4567,
        0x40_0000..0x40_1000,
        0xffff_ffff_c000_0000..0xffff_ffff_c003_4567,
        0xffff_ffff_4000_0000..0xffff_ffff_4000_1000,
    );
    let bytes = handoff.to_bytes();
    let mut expected = Vec::new();
    expected.extend_from_slice(&0x0009_f000u32.to_le_bytes());
    expected.extend_from_slice(&0x20_0000u32.to_le_bytes());
    expected.extend_from_slice(&0x23_4567u32.to_le_bytes());
    expected.extend_from_slice(&0x40_0000u32.to_le_bytes());
    expected.extend_from_slice(&0x40_1000u32.to_le_bytes());
    expected.extend_from_slice(&0xffff_ffff_c000_0000u64.to_le_bytes());
    expected.extend_from_slice(&0xffff_ffff_c003_4567u64.to_le_bytes());
    expected.extend_from_slice(&0xffff_ffff_4000_0000u64.to_le_bytes());
    expected.extend_from_slice(&0xffff_ffff_4000_1000u64.to_le_bytes());
    assert_eq!(HANDOFF_SIZE, 52);
    assert_eq!(&bytes[..], &expected[..]);
    assert_eq!(&bytes[..8], &[0x00, 0xf0, 0x09, 0x00, 0x00, 0x00, 0x20, 0x00]);
}

#[test]
fn the_kernel_reads_what_the_loader_wrote() {
    let block = empty_block();
    let info = BootInformation::from_ptr(0xffff_ffe8, BOOT_MAGIC, &block).unwrap();
    let written = KernelInformation::new(
        &info,
        0x1234..0xffff_ffff,
        0..0x5678,
        0x0123_4567_89ab_cdef..u64::MAX,
        0..0xfedc_ba98_7654_3210,
    );
    let read = KernelInformation::from_bytes(&written.to_bytes());
    assert_eq!(read.boot_info(), 0xffff_ffe8);
    assert_eq!(read.kernel_phy_range(), 0x1234..0xffff_ffff);
    assert_eq!(read.stack_phy_range(), 0..0x5678);
    assert_eq!(read.kernel_vrange(), 0x0123_4567_89ab_cdef..u64::MAX);
    assert_eq!(read.stack_vrange(), 0..0xfedc_ba98_7654_3210);
    assert_eq!(read.to_bytes(), written.to_bytes());

    let mut bytes = [0u8; 52];
    for (i, byte) in bytes.iter_mut().enumerate() {
        *byte = i as u8 + 1;
    }
    let read = KernelInformation::from_bytes(&bytes);
    assert_eq!(read.boot_info(), 0x0403_0201);
    assert_eq!(read.kernel_phy_range(), 0x0807_0605..0x0c0b_0a09);
    assert_eq!(read.stack_phy_range(), 0x100f_0e0d..0x1413_1211);
    assert_eq!(read.kernel_vrange(), 0x1c1b_1a19_1817_1615..0x2423_2221_201f_1e1d);
    assert_eq!(read.stack_vrange(), 0x2c2b_2a29_2827_2625..0x3433_3231_302f_2e2d);
    assert_eq!(read.to_bytes(), bytes);
}
