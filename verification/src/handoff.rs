//! What the loader hands to the kernel.
//!
//! The kernel is entered with the address of one structure, built once
//! and never changed afterwards. It tells the kernel where the boot
//! information lies, where in physical memory the image and the stack
//! are, and at which virtual addresses the kernel sees them. The fields
//! have fixed widths, so that the 32-bit loader and the 64-bit kernel read
//! the same bytes: physical addresses take 32 bits, virtual addresses
//! eight bytes in little-endian order.

use crate::bytes::{
    le_u32, le_u64, lemma_le_u32_of_bytes, lemma_le_u64_of_bytes, u32_to_le, u64_from_le,
    u64_to_le,
};
use crate::multiboot2::{BootInformation, MemoryInfo};
use crate::paging::{
    lemma_physical_ranges_apart, lemma_virtual_ranges_apart, setup_outcome, KernelMemoryAlloc,
    PagingError, ALIGN_2MB, HIGHER_HALF,
};
use crate::region::ranges_disjoint;
use std::ops::Range;
use vstd::prelude::*;

verus! {

/// A 64-bit address as the handoff structure stores it.
pub type Address64 = [u8; 8];

/// Bytes that the handoff structure takes in memory.
pub const HANDOFF_SIZE: usize = 52;

/// The handoff structure.
#[derive(Debug)]
pub struct KernelInformation {
    boot_info: u32,
    kernel_range: Range<u32>,
    initial_stack_range: Range<u32>,
    kernel_range_up: (Address64, Address64),
    initial_stack_range_up: (Address64, Address64),
}

impl KernelInformation {
    /// The address of the boot information block.
    pub closed spec fn spec_boot_info(&self) -> u32 {
        self.boot_info
    }

    /// The physical addresses of the kernel image.
    pub closed spec fn spec_kernel_phy_range(&self) -> Range<usize> {
        Range { start: self.kernel_range.start as usize, end: self.kernel_range.end as usize }
    }

    /// The physical addresses of the stack.
    pub closed spec fn spec_stack_phy_range(&self) -> Range<usize> {
        Range {
            start: self.initial_stack_range.start as usize,
            end: self.initial_stack_range.end as usize,
        }
    }

    /// The virtual addresses of the kernel image.
    pub closed spec fn spec_kernel_vrange(&self) -> Range<u64> {
        Range {
            start: le_u64(self.kernel_range_up.0@, 0),
            end: le_u64(self.kernel_range_up.1@, 0),
        }
    }

    /// The virtual addresses of the stack.
    pub closed spec fn spec_stack_vrange(&self) -> Range<u64> {
        Range {
            start: le_u64(self.initial_stack_range_up.0@, 0),
            end: le_u64(self.initial_stack_range_up.1@, 0),
        }
    }

    /// The physical addresses that the structure holds fit into 32 bits.
    pub proof fn lemma_physical_ranges_fit(&self)
        ensures
            self.spec_kernel_phy_range().start <= u32::MAX,
            self.spec_kernel_phy_range().end <= u32::MAX,
            self.spec_stack_phy_range().start <= u32::MAX,
            self.spec_stack_phy_range().end <= u32::MAX,
    {
    }

    /// Builds the handoff structure. The physical addresses have to fit
    /// into 32 bits.
    pub fn new(
        boot_info: &BootInformation<'_>,
        kernel_range: Range<usize>,
        stack_range: Range<usize>,
        kernel_range_up: Range<u64>,
        stack_range_up: Range<u64>,
    ) -> (r: KernelInformation)
        requires
            boot_info.spec_address() <= u32::MAX,
            kernel_range.start <= u32::MAX,
            kernel_range.end <= u32::MAX,
            stack_range.start <= u32::MAX,
            stack_range.end <= u32::MAX,
        ensures
            r.spec_boot_info() == boot_info.spec_address(),
            r.spec_kernel_phy_range() == kernel_range,
            r.spec_stack_phy_range() == stack_range,
            r.spec_kernel_vrange() == kernel_range_up,
            r.spec_stack_vrange() == stack_range_up,
    {
        proof {
            lemma_le_u64_of_bytes(kernel_range_up.start);
            lemma_le_u64_of_bytes(kernel_range_up.end);
            lemma_le_u64_of_bytes(stack_range_up.start);
            lemma_le_u64_of_bytes(stack_range_up.end);
        }
        KernelInformation {
            boot_info: boot_info.address() as u32,
            kernel_range: Range { start: kernel_range.start as u32, end: kernel_range.end as u32 },
            initial_stack_range: Range {
                start: stack_range.start as u32,
                end: stack_range.end as u32,
            },
            kernel_range_up: (u64_to_le(kernel_range_up.start), u64_to_le(kernel_range_up.end)),
            initial_stack_range_up: (
                u64_to_le(stack_range_up.start),
                u64_to_le(stack_range_up.end),
            ),
        }
    }

    /// The virtual addresses of the kernel image.
    pub fn kernel_vrange(&self) -> (r: Range<u64>)
        ensures
            r == self.spec_kernel_vrange(),
    {
        Range {
            start: u64_from_le(&self.kernel_range_up.0),
            end: u64_from_le(&self.kernel_range_up.1),
        }
    }

    /// The virtual addresses of the stack.
    pub fn stack_vrange(&self) -> (r: Range<u64>)
        ensures
            r == self.spec_stack_vrange(),
    {
        Range {
            start: u64_from_le(&self.initial_stack_range_up.0),
            end: u64_from_le(&self.initial_stack_range_up.1),
        }
    }

    /// The physical addresses of the kernel image.
    pub fn kernel_phy_range(&self) -> (r: Range<usize>)
        ensures
            r == self.spec_kernel_phy_range(),
    {
        Range { start: self.kernel_range.start as usize, end: self.kernel_range.end as usize }
    }

    /// The physical addresses of the stack.
    pub fn stack_phy_range(&self) -> (r: Range<usize>)
        ensures
            r == self.spec_stack_phy_range(),
    {
        Range {
            start: self.initial_stack_range.start as usize,
            end: self.initial_stack_range.end as usize,
        }
    }

    /// The address of the boot information block.
    pub fn boot_info(&self) -> (r: u32)
        ensures
            r == self.spec_boot_info(),
    {
        self.boot_info
    }

    /// Whether `bytes` are the structure as it lies in memory: the address
    /// of the boot information, then start and end of the kernel image and
    /// of the stack in physical memory, each a little-endian word of 32
    /// bits, then start and end of the kernel image and of the stack in
    /// virtual memory, each of eight bytes.
    pub open spec fn encoded_as(&self, bytes: Seq<u8>) -> bool {
        &&& bytes.len() == HANDOFF_SIZE
        &&& le_u32(bytes, 0) == self.spec_boot_info()
        &&& le_u32(bytes, 4) == self.spec_kernel_phy_range().start
        &&& le_u32(bytes, 8) == self.spec_kernel_phy_range().end
        &&& le_u32(bytes, 12) == self.spec_stack_phy_range().start
        &&& le_u32(bytes, 16) == self.spec_stack_phy_range().end
        &&& le_u64(bytes, 20) == self.spec_kernel_vrange().start
        &&& le_u64(bytes, 28) == self.spec_kernel_vrange().end
        &&& le_u64(bytes, 36) == self.spec_stack_vrange().start
        &&& le_u64(bytes, 44) == self.spec_stack_vrange().end
    }

    /// The structure as it lies in memory.
    pub fn to_bytes(&self) -> (r: [u8; 52])
        ensures
            self.encoded_as(r@),
    {
        let b = u32_to_le(self.boot_info);
        let k0 = u32_to_le(self.kernel_range.start);
        let k1 = u32_to_le(self.kernel_range.end);
        let s0 = u32_to_le(self.initial_stack_range.start);
        let s1 = u32_to_le(self.initial_stack_range.end);
        let kv0 = self.kernel_range_up.0;
        let kv1 = self.kernel_range_up.1;
        let sv0 = self.initial_stack_range_up.0;
        let sv1 = self.initial_stack_range_up.1;
        let r: [u8; 52] = [
            b[0], b[1], b[2], b[3],
            k0[0], k0[1], k0[2], k0[3],
            k1[0], k1[1], k1[2], k1[3],
            s0[0], s0[1], s0[2], s0[3],
            s1[0], s1[1], s1[2], s1[3],
            kv0[0], kv0[1], kv0[2], kv0[3], kv0[4], kv0[5], kv0[6], kv0[7],
            kv1[0], kv1[1], kv1[2], kv1[3], kv1[4], kv1[5], kv1[6], kv1[7],
            sv0[0], sv0[1], sv0[2], sv0[3], sv0[4], sv0[5], sv0[6], sv0[7],
            sv1[0], sv1[1], sv1[2], sv1[3], sv1[4], sv1[5], sv1[6], sv1[7],
        ];
        proof {
            lemma_le_u32_of_bytes(self.boot_info);
            lemma_le_u32_of_bytes(self.kernel_range.start);
            lemma_le_u32_of_bytes(self.kernel_range.end);
            lemma_le_u32_of_bytes(self.initial_stack_range.start);
            lemma_le_u32_of_bytes(self.initial_stack_range.end);
            assert(le_u32(r@, 0) == le_u32(b@, 0));
            assert(le_u32(r@, 4) == le_u32(k0@, 0));
            assert(le_u32(r@, 8) == le_u32(k1@, 0));
            assert(le_u32(r@, 12) == le_u32(s0@, 0));
            assert(le_u32(r@, 16) == le_u32(s1@, 0));
            assert(le_u32(r@, 20) == le_u32(kv0@, 0) && le_u32(r@, 24) == le_u32(kv0@, 4));
            assert(le_u32(r@, 28) == le_u32(kv1@, 0) && le_u32(r@, 32) == le_u32(kv1@, 4));
            assert(le_u32(r@, 36) == le_u32(sv0@, 0) && le_u32(r@, 40) == le_u32(sv0@, 4));
            assert(le_u32(r@, 44) == le_u32(sv1@, 0) && le_u32(r@, 48) == le_u32(sv1@, 4));
        }
        r
    }

    /// Reads the structure from where it lies in memory.
    pub fn from_bytes(bytes: &[u8; 52]) -> (r: KernelInformation)
        ensures
            r.encoded_as(bytes@),
    {
        let boot_info = word_at(bytes, 0);
        let kernel_range = Range { start: word_at(bytes, 4), end: word_at(bytes, 8) };
        let initial_stack_range = Range { start: word_at(bytes, 12), end: word_at(bytes, 16) };
        let kv0: [u8; 8] = [
            bytes[20], bytes[21], bytes[22], bytes[23], bytes[24], bytes[25], bytes[26], bytes[27],
        ];
        let kv1: [u8; 8] = [
            bytes[28], bytes[29], bytes[30], bytes[31], bytes[32], bytes[33], bytes[34], bytes[35],
        ];
        let sv0: [u8; 8] = [
            bytes[36], bytes[37], bytes[38], bytes[39], bytes[40], bytes[41], bytes[42], bytes[43],
        ];
        let sv1: [u8; 8] = [
            bytes[44], bytes[45], bytes[46], bytes[47], bytes[48], bytes[49], bytes[50], bytes[51],
        ];
        proof {
            assert(le_u32(bytes@, 20) == le_u32(kv0@, 0) && le_u32(bytes@, 24) == le_u32(kv0@, 4));
            assert(le_u32(bytes@, 28) == le_u32(kv1@, 0) && le_u32(bytes@, 32) == le_u32(kv1@, 4));
            assert(le_u32(bytes@, 36) == le_u32(sv0@, 0) && le_u32(bytes@, 40) == le_u32(sv0@, 4));
            assert(le_u32(bytes@, 44) == le_u32(sv1@, 0) && le_u32(bytes@, 48) == le_u32(sv1@, 4));
        }
        KernelInformation {
            boot_info,
            kernel_range,
            initial_stack_range,
            kernel_range_up: (kv0, kv1),
            initial_stack_range_up: (sv0, sv1),
        }
    }
}

/// The 32-bit word at `at` in the bytes of a handoff structure.
fn word_at(bytes: &[u8; 52], at: usize) -> (r: u32)
    requires
        at + 4 <= HANDOFF_SIZE,
    ensures
        r == le_u32(bytes@, at as int),
{
    let b0: u32 = bytes[at] as u32;
    let b1: u32 = bytes[at + 1] as u32;
    let b2: u32 = bytes[at + 2] as u32;
    let b3: u32 = bytes[at + 3] as u32;
    b0 + b1 * 0x100 + b2 * 0x1_0000 + b3 * 0x100_0000
}

/// What is read from memory is what was written there: two structures
/// with the same bytes hold the same addresses.
pub proof fn lemma_handoff_survives(
    written: KernelInformation,
    read: KernelInformation,
    bytes: Seq<u8>,
)
    requires
        written.encoded_as(bytes),
        read.encoded_as(bytes),
    ensures
        read.spec_boot_info() == written.spec_boot_info(),
        read.spec_kernel_phy_range() == written.spec_kernel_phy_range(),
        read.spec_stack_phy_range() == written.spec_stack_phy_range(),
        read.spec_kernel_vrange() == written.spec_kernel_vrange(),
        read.spec_stack_vrange() == written.spec_stack_vrange(),
{
    written.lemma_physical_ranges_fit();
    read.lemma_physical_ranges_fit();
}

/// The four ranges of a handoff built from what `setup_kernel_memory`
/// set aside share no address with one another, where the physical
/// ranges fit into 32 bits, the image fits into one 2 MiB page, and its
/// alignment divides 2 MiB or is a multiple of it.
pub proof fn lemma_handoff_ranges_apart(
    entries: Option<Seq<MemoryInfo>>,
    kernel_size: usize,
    kernel_align: usize,
    loader_image: Range<usize>,
    boot_info: Range<usize>,
    alloc: KernelMemoryAlloc,
)
    requires
        kernel_align > 0,
        setup_outcome(entries, kernel_size, kernel_align, loader_image, boot_info) == Ok::<
            KernelMemoryAlloc,
            PagingError,
        >(alloc),
        kernel_size <= ALIGN_2MB,
        kernel_align <= ALIGN_2MB || kernel_align % ALIGN_2MB == 0,
        alloc.kernel.end <= u32::MAX,
        alloc.stack.end <= u32::MAX,
    ensures
        ranges_disjoint(alloc.kernel, alloc.stack),
        alloc.stack_virt.end <= alloc.kernel_virt.start,
        alloc.kernel.end <= alloc.stack_virt.start,
        alloc.stack.end <= alloc.stack_virt.start,
{
    lemma_physical_ranges_apart(entries, kernel_size, kernel_align, loader_image, boot_info, alloc);
    lemma_virtual_ranges_apart(entries, kernel_size, kernel_align, loader_image, boot_info, alloc);
}

} // verus!
