//! Page tables for the switch to long mode.
//!
//! The loader works with five tables of 512 entries each: the root, one
//! leaf that maps low memory onto itself with 1 GiB pages, one table for
//! the upper half of the address space, and under it one leaf each for the
//! kernel image and for the kernel's stack, filled with 2 MiB pages. The
//! tables are owned values here. Each knows the physical address at which
//! it is to be installed, and that address is what goes into the entry of
//! the table above it.

use crate::multiboot2::{first_memory_map, BootInformation, MemoryInfo, TagView};
use crate::region::{get_available_memory, ranges_disjoint, search};
use std::ops::Range;
use vstd::prelude::*;

verus! {

/// Number of entries in a table.
pub const PAGING_TABLE_SIZE: usize = 512;

/// Boundary on which a table lies.
pub const TABLE_ALIGNMENT: u64 = 4096;

/// Bytes that one entry of a 2 MiB leaf covers.
pub const ALIGN_2MB: usize = 0x20_0000;

/// Bytes that one entry of the upper table, or of the identity leaf,
/// covers.
pub const WINDOW_SIZE: u64 = 0x4000_0000;

/// Index in the upper table of the window that holds the stack.
pub const STACK_TOP_INDEX: usize = 509;

/// Index in the upper table of the window that holds the kernel image.
pub const KERNEL_TOP_INDEX: usize = 511;

/// The entry is in use.
pub const PRESENT_FLAG: u64 = 1;

/// The memory behind the entry may be written.
pub const RW_FLAG: u64 = 0x2;

/// The entry maps a large page itself and points to no further table.
pub const PAGE_SIZE_FLAG: u64 = 0x80;

/// No instruction may be fetched from the memory behind the entry.
pub const NX_FLAG: u64 = 0x8000_0000_0000_0000;

/// The bits of an entry that hold the physical address.
pub const ADDRESS_MASK: u64 = 0x000f_ffff_ffff_f000;

/// The lowest address of the upper half that the upper table covers: bits
/// 39 and up all set.
pub const HIGHER_HALF: u64 = 0xffff_ff80_0000_0000;

/// A table of 512 entries, and the physical address that it is installed
/// at.
pub struct PagingTable {
    address: u64,
    inner: [u64; 512],
}

impl PagingTable {
    /// The highest index of a table.
    pub const MAX_INDEX: usize = 511;

    /// The highest index of a table.
    pub const MAX_INDEX_U64: u64 = 511;

    #[verifier::type_invariant]
    spec fn wf(&self) -> bool {
        self.address % TABLE_ALIGNMENT == 0
    }

    /// Entry `idx` of the table.
    pub closed spec fn spec_fetch(&self, idx: int) -> u64 {
        self.inner@[idx]
    }

    /// The 512 entries of the table, lowest index first.
    pub open spec fn entries(&self) -> Seq<u64> {
        Seq::new(PAGING_TABLE_SIZE as nat, |i: int| self.spec_fetch(i))
    }

    /// The physical address of the table.
    pub closed spec fn spec_address(&self) -> u64 {
        self.address
    }

    /// An empty table for the given physical address, which has to be a
    /// multiple of 4096.
    pub fn new(address: u64) -> (r: Option<PagingTable>)
        ensures
            r is Some <==> address % TABLE_ALIGNMENT == 0,
            r matches Some(table) ==> {
                &&& table.spec_address() == address
                &&& table.entries() == Seq::new(PAGING_TABLE_SIZE as nat, |i: int| 0u64)
            },
    {
        if address % TABLE_ALIGNMENT == 0 {
            let table = PagingTable { address, inner: [0u64; 512] };
            assert(table.entries() =~= Seq::new(PAGING_TABLE_SIZE as nat, |i: int| 0u64));
            Some(table)
        } else {
            None
        }
    }

    /// The physical address of the table, a multiple of 4096.
    pub fn address(&self) -> (r: u64)
        ensures
            r == self.spec_address(),
            r % TABLE_ALIGNMENT == 0,
    {
        proof {
            use_type_invariant(self);
        }
        self.address
    }

    /// Puts `value` into entry `idx` and leaves the others as they are.
    pub fn store(&mut self, idx: usize, value: u64)
        requires
            idx <= Self::MAX_INDEX,
        ensures
            final(self).entries() == old(self).entries().update(idx as int, value),
            final(self).spec_address() == old(self).spec_address(),
    {
        proof {
            use_type_invariant(&*self);
        }
        self.inner[idx] = value;
        assert(self.entries() =~= old(self).entries().update(idx as int, value));
    }

    /// Entry `idx` of the table.
    pub fn fetch(&self, idx: usize) -> (r: u64)
        requires
            idx <= Self::MAX_INDEX,
        ensures
            r == self.entries()[idx as int],
    {
        self.inner[idx]
    }
}

/// Why memory for the kernel could not be set up.
#[derive(Clone, Copy, Debug, PartialEq, Eq, Structural)]
pub enum PagingError {
    /// The boot information holds no memory map.
    NoMemoryMap,
    /// No available memory is large enough for the kernel image.
    NoKernelMemory,
    /// No available memory is large enough for the stack.
    NoStackMemory,
    /// A region takes more 2 MiB pages than a leaf has entries, or runs
    /// over the end of its window of virtual addresses.
    KernelTooLarge,
}

/// The number of bytes in `region`; none where its end is not above its
/// start.
pub open spec fn region_len(region: Range<usize>) -> int {
    if region.end >= region.start {
        region.end - region.start
    } else {
        0
    }
}

/// The number of 2 MiB pages that cover `len` bytes.
pub open spec fn pages_needed(len: int) -> int {
    if len % (ALIGN_2MB as int) == 0 {
        len / (ALIGN_2MB as int)
    } else {
        len / (ALIGN_2MB as int) + 1
    }
}

/// The leaf entry for page number `i` of a region that starts at `base`:
/// the address of the page, marked present and large, with `flags` added.
pub open spec fn leaf_entry(base: usize, i: int, flags: u64) -> u64 {
    ((base + ALIGN_2MB * i) as u64) | PRESENT_FLAG | PAGE_SIZE_FLAG | flags
}

/// The entry that points to the table at `address`: present and writable.
pub open spec fn table_entry(address: u64) -> u64 {
    address | PRESENT_FLAG | RW_FLAG
}

/// The entries of a leaf once the first `pages` of them map the region
/// that starts at `base`.
pub open spec fn mapped_leaf(before: Seq<u64>, base: usize, pages: int, flags: u64) -> Seq<u64> {
    Seq::new(
        before.len(),
        |i: int|
            if i < pages {
                leaf_entry(base, i, flags)
            } else {
                before[i]
            },
    )
}

/// The lowest virtual address of window `high_index` of the upper table.
pub open spec fn higher_half_base(high_index: int) -> int {
    HIGHER_HALF + high_index * WINDOW_SIZE
}

/// The base of a window is the top of the address space, sign-extended
/// from bit 39 on, with the index of the window laid in from bit 30 on.
pub proof fn lemma_window_base_bits(high_index: u64)
    requires
        high_index <= PagingTable::MAX_INDEX_U64,
    ensures
        higher_half_base(high_index as int) == (0xffff_ffff_ffff_ffffu64 << 39) | (high_index << 30),
{
    assert(0xffff_ff80_0000_0000u64 + high_index * 0x4000_0000u64 == (0xffff_ffff_ffff_ffffu64
        << 39) | (high_index << 30)) by (bit_vector)
        requires
            high_index <= 511,
    ;
}

/// Two different windows of the upper table share no address.
pub proof fn lemma_windows_apart(a: int, b: int)
    requires
        0 <= a <= PagingTable::MAX_INDEX,
        0 <= b <= PagingTable::MAX_INDEX,
        a != b,
    ensures
        higher_half_base(a) + WINDOW_SIZE <= higher_half_base(b) || higher_half_base(b)
            + WINDOW_SIZE <= higher_half_base(a),
        higher_half_base(a) + WINDOW_SIZE <= u64::MAX + 1,
{
}

/// The pages that cover a region are those that it needs and no more: one
/// page less would leave a byte uncovered. A region of exactly one page
/// needs one, a byte more needs two, and a leaf is full at 512 pages of
/// 2 MiB.
pub proof fn lemma_pages_needed(len: int)
    requires
        len >= 0,
    ensures
        (pages_needed(len) - 1) * ALIGN_2MB < len <= pages_needed(len) * ALIGN_2MB,
        pages_needed(len) <= PAGING_TABLE_SIZE <==> len <= PAGING_TABLE_SIZE * ALIGN_2MB,
        pages_needed(ALIGN_2MB as int) == 1,
        pages_needed(ALIGN_2MB + 1) == 2,
{
}

/// The number of 2 MiB pages that cover `len` bytes.
pub fn count_pages(len: usize) -> (r: usize)
    ensures
        r == pages_needed(len as int),
        (r - 1) * ALIGN_2MB < len <= r * ALIGN_2MB,
{
    if len % ALIGN_2MB == 0 {
        len / ALIGN_2MB
    } else {
        len / ALIGN_2MB + 1
    }
}

/// Maps `memory` through `leaf` with 2 MiB pages: page `i` of the region
/// goes into entry `i` of the leaf, marked present and large, with `flags`
/// added. The leaf is then entered into the upper table at `high_index`,
/// and the upper table into the top entry of the root. The result is the
/// virtual address at which the region is seen afterwards. A region of
/// more pages than a leaf has entries is refused, and all three tables
/// stay as they are.
pub fn setup_mapping(
    leaf: &mut PagingTable,
    high: &mut PagingTable,
    root: &mut PagingTable,
    high_index: usize,
    memory: &Range<usize>,
    flags: u64,
) -> (r: Result<u64, PagingError>)
    requires
        high_index <= PagingTable::MAX_INDEX,
    ensures
        final(leaf).spec_address() == old(leaf).spec_address(),
        final(high).spec_address() == old(high).spec_address(),
        final(root).spec_address() == old(root).spec_address(),
        r is Err <==> pages_needed(region_len(*memory)) > PAGING_TABLE_SIZE,
        r is Err ==> {
            &&& r == Err::<u64, PagingError>(PagingError::KernelTooLarge)
            &&& final(leaf).entries() == old(leaf).entries()
            &&& final(high).entries() == old(high).entries()
            &&& final(root).entries() == old(root).entries()
        },
        r matches Ok(base) ==> {
            &&& base == higher_half_base(high_index as int)
            &&& final(leaf).entries() == mapped_leaf(
                old(leaf).entries(),
                memory.start,
                pages_needed(region_len(*memory)),
                flags,
            )
            &&& final(high).entries() == old(high).entries().update(
                high_index as int,
                table_entry(old(leaf).spec_address()),
            )
            &&& final(root).entries() == old(root).entries().update(
                PagingTable::MAX_INDEX as int,
                table_entry(old(high).spec_address()),
            )
        },
{
    let len = if memory.end >= memory.start {
        memory.end - memory.start
    } else {
        0
    };
    let needed_allocations = count_pages(len);
    if needed_allocations > PAGING_TABLE_SIZE {
        return Err(PagingError::KernelTooLarge);
    }
    let base = memory.start;
    let ghost before = leaf.entries();
    let mut i: usize = 0;
    while i < needed_allocations
        invariant
            i <= needed_allocations <= PAGING_TABLE_SIZE,
            base == memory.start,
            (needed_allocations - 1) * ALIGN_2MB < len,
            base + len <= usize::MAX,
            leaf.spec_address() == old(leaf).spec_address(),
            before == old(leaf).entries(),
            leaf.entries() == mapped_leaf(before, base, i as int, flags),
        decreases needed_allocations - i,
    {
        let address = (base + ALIGN_2MB * i) as u64;
        leaf.store(i, address | PRESENT_FLAG | PAGE_SIZE_FLAG | flags);
        i += 1;
        assert(leaf.entries() =~= mapped_leaf(before, base, i as int, flags));
    }
    high.store(high_index, leaf.address() | PRESENT_FLAG | RW_FLAG);
    root.store(PagingTable::MAX_INDEX, high.address() | PRESENT_FLAG | RW_FLAG);
    Ok(HIGHER_HALF + (high_index as u64) * WINDOW_SIZE)
}

/// The entry of the identity leaf for the 1 GiB page number `i`: the
/// address of the page, marked present, writable and large.
pub open spec fn identity_entry(i: int) -> u64 {
    ((i as u64) << 30) | PRESENT_FLAG | RW_FLAG | PAGE_SIZE_FLAG
}

/// The entries of the identity leaf: one 1 GiB page for each index.
pub open spec fn identity_entries() -> Seq<u64> {
    Seq::new(PAGING_TABLE_SIZE as nat, |i: int| identity_entry(i))
}

/// The entries of the root once the identity leaf at `identity_address` is
/// entered at its bottom.
pub open spec fn identity_root(before: Seq<u64>, identity_address: u64) -> Seq<u64> {
    before.update(0, table_entry(identity_address))
}

/// Fills `identity` so that the low 512 GiB are mapped onto themselves with
/// 1 GiB pages, and enters it into the bottom entry of the root.
pub fn setup_identity_paging(identity: &mut PagingTable, root: &mut PagingTable)
    ensures
        final(identity).spec_address() == old(identity).spec_address(),
        final(root).spec_address() == old(root).spec_address(),
        final(identity).entries() == identity_entries(),
        final(root).entries() == identity_root(old(root).entries(), old(identity).spec_address()),
{
    let mut idx: usize = 0;
    while idx < PAGING_TABLE_SIZE
        invariant
            idx <= PAGING_TABLE_SIZE,
            identity.spec_address() == old(identity).spec_address(),
            identity.entries().len() == PAGING_TABLE_SIZE,
            forall|i: int| 0 <= i < idx ==> identity.entries()[i] == identity_entry(i),
        decreases PAGING_TABLE_SIZE - idx,
    {
        let addr = (idx as u64) << 30;
        identity.store(idx, addr | PRESENT_FLAG | RW_FLAG | PAGE_SIZE_FLAG);
        idx += 1;
    }
    assert(identity.entries() =~= identity_entries());
    root.store(0, identity.address() | PRESENT_FLAG | RW_FLAG);
}

/// Setting up the identity mapping a second time changes nothing. The
/// leaf is filled with the same entries whatever it held, and the root,
/// which gets the same bottom entry again, is after two runs what it is
/// after one.
pub proof fn lemma_identity_paging_idempotent(root: Seq<u64>, identity_address: u64)
    requires
        root.len() == PAGING_TABLE_SIZE,
    ensures
        identity_root(identity_root(root, identity_address), identity_address) == identity_root(
            root,
            identity_address,
        ),
{
    assert(identity_root(identity_root(root, identity_address), identity_address) =~= identity_root(
        root,
        identity_address,
    ));
}

/// The five tables that the loader builds.
pub struct PageTables {
    /// The table that the processor starts every walk from.
    pub root: PagingTable,
    /// The leaf that maps low memory onto itself.
    pub identity: PagingTable,
    /// The table for the upper half of the address space.
    pub high: PagingTable,
    /// The leaf that maps the kernel image.
    pub kernel: PagingTable,
    /// The leaf that maps the kernel's stack.
    pub stack: PagingTable,
}

impl PageTables {
    /// Whether the tables lie where those of `other` lie.
    pub open spec fn same_places(&self, other: PageTables) -> bool {
        &&& self.root.spec_address() == other.root.spec_address()
        &&& self.identity.spec_address() == other.identity.spec_address()
        &&& self.high.spec_address() == other.high.spec_address()
        &&& self.kernel.spec_address() == other.kernel.spec_address()
        &&& self.stack.spec_address() == other.stack.spec_address()
    }

    /// Whether the tables hold what those of `other` hold.
    pub open spec fn same_entries(&self, other: PageTables) -> bool {
        &&& self.root.entries() == other.root.entries()
        &&& self.identity.entries() == other.identity.entries()
        &&& self.high.entries() == other.high.entries()
        &&& self.kernel.entries() == other.kernel.entries()
        &&& self.stack.entries() == other.stack.entries()
    }

    /// Whether the tables are those of `before` with the memory of `alloc`
    /// mapped: the two leaves map the image and the stack, writable, with
    /// 2 MiB pages; the upper table points to the two leaves at the
    /// indices of their windows; the identity leaf maps low memory onto
    /// itself; and the root points to the identity leaf at its bottom and
    /// to the upper table at its top.
    pub open spec fn built_from(&self, before: PageTables, alloc: KernelMemoryAlloc) -> bool {
        &&& self.kernel.entries() == mapped_leaf(
            before.kernel.entries(),
            alloc.kernel.start,
            pages_needed(region_len(alloc.kernel)),
            RW_FLAG,
        )
        &&& self.stack.entries() == mapped_leaf(
            before.stack.entries(),
            alloc.stack.start,
            pages_needed(region_len(alloc.stack)),
            RW_FLAG,
        )
        &&& self.high.entries() == before.high.entries().update(
            KERNEL_TOP_INDEX as int,
            table_entry(before.kernel.spec_address()),
        ).update(STACK_TOP_INDEX as int, table_entry(before.stack.spec_address()))
        &&& self.root.entries() == identity_root(
            before.root.entries().update(
                PagingTable::MAX_INDEX as int,
                table_entry(before.high.spec_address()),
            ),
            before.identity.spec_address(),
        )
        &&& self.identity.entries() == identity_entries()
    }
}

/// The memory that the loader has set aside for the kernel: where the
/// image and the stack lie in physical memory, and where the kernel will
/// see them once paging is on.
#[derive(Debug, PartialEq, Eq)]
pub struct KernelMemoryAlloc {
    pub kernel: Range<usize>,
    pub stack: Range<usize>,
    pub kernel_virt: Range<u64>,
    pub stack_virt: Range<u64>,
}

/// The alignment that the kernel image is placed on: the one it asks for,
/// and that of a 2 MiB page at the least.
pub open spec fn kernel_alignment(kernel_align: usize) -> usize {
    if kernel_align > ALIGN_2MB {
        kernel_align
    } else {
        ALIGN_2MB
    }
}

/// The entries of the first memory map among `tags`.
pub open spec fn map_entries(tags: Seq<TagView>) -> Option<Seq<MemoryInfo>> {
    match first_memory_map(tags) {
        Some(map) => Some(map.entries()),
        None => None,
    }
}

/// Whether `size` bytes fit into window `high_index` of the upper table:
/// a leaf has entries enough for them, and the window has addresses
/// enough.
pub open spec fn window_holds(high_index: int, size: int) -> bool {
    pages_needed(size) <= PAGING_TABLE_SIZE && higher_half_base(high_index) + size <= u64::MAX
}

/// The virtual addresses of `size` bytes at the bottom of window
/// `high_index`.
pub open spec fn virtual_range(high_index: int, size: int) -> Range<u64> {
    Range {
        start: higher_half_base(high_index) as u64,
        end: (higher_half_base(high_index) + size) as u64,
    }
}

/// Where the kernel image goes: the first fit of `kernel_size` bytes that
/// keeps off the loader's image and the boot information.
pub open spec fn kernel_region(
    entries: Seq<MemoryInfo>,
    kernel_size: usize,
    kernel_align: usize,
    loader_image: Range<usize>,
    boot_info: Range<usize>,
) -> Option<Range<usize>> {
    search(
        entries,
        kernel_size as int,
        kernel_alignment(kernel_align) as int,
        seq![loader_image, boot_info],
    )
}

/// Where the stack goes: the first fit of `kernel_align` bytes on a 2 MiB
/// boundary that keeps off the loader's image, the boot information and
/// the kernel image.
pub open spec fn stack_region(
    entries: Seq<MemoryInfo>,
    kernel_align: usize,
    loader_image: Range<usize>,
    boot_info: Range<usize>,
    kernel: Range<usize>,
) -> Option<Range<usize>> {
    search(entries, kernel_align as int, ALIGN_2MB as int, seq![loader_image, boot_info, kernel])
}

/// What setting up the kernel's memory comes to, from the entries of the
/// memory map if there is one.
pub open spec fn setup_outcome(
    entries: Option<Seq<MemoryInfo>>,
    kernel_size: usize,
    kernel_align: usize,
    loader_image: Range<usize>,
    boot_info: Range<usize>,
) -> Result<KernelMemoryAlloc, PagingError> {
    if entries is None {
        Err(PagingError::NoMemoryMap)
    } else {
        let kernel = kernel_region(entries->0, kernel_size, kernel_align, loader_image, boot_info);
        if kernel is None {
            Err(PagingError::NoKernelMemory)
        } else {
            let stack = stack_region(entries->0, kernel_align, loader_image, boot_info, kernel->0);
            if stack is None {
                Err(PagingError::NoStackMemory)
            } else if !window_holds(KERNEL_TOP_INDEX as int, kernel_size as int) || !window_holds(
                STACK_TOP_INDEX as int,
                kernel_align as int,
            ) {
                Err(PagingError::KernelTooLarge)
            } else {
                Ok(
                    KernelMemoryAlloc {
                        kernel: kernel->0,
                        stack: stack->0,
                        kernel_virt: virtual_range(KERNEL_TOP_INDEX as int, kernel_size as int),
                        stack_virt: virtual_range(STACK_TOP_INDEX as int, kernel_align as int),
                    },
                )
            }
        }
    }
}

/// The addresses that a boot information block takes up.
pub open spec fn boot_info_range(boot_info: &BootInformation<'_>) -> Range<usize> {
    Range {
        start: boot_info.spec_address(),
        end: (boot_info.spec_address() + boot_info.bytes().len()) as usize,
    }
}

/// Sets aside memory for the kernel image and for its stack, and builds
/// the tables that map both into the upper half and low memory onto
/// itself.
///
/// The image gets `kernel_size` bytes on the alignment it asks for, 2 MiB
/// at the least; the stack gets `kernel_align` bytes on a 2 MiB boundary.
/// Both are first fits in the memory map of `boot_info`, and both keep off
/// the loader's own image and the boot information; the stack keeps off
/// the kernel image as well. Where anything is amiss the tables are left
/// as they were.
pub fn setup_kernel_memory(
    boot_info: &BootInformation<'_>,
    kernel_size: usize,
    kernel_align: usize,
    loader_image: &Range<usize>,
    tables: &mut PageTables,
) -> (r: Result<KernelMemoryAlloc, PagingError>)
    requires
        kernel_align > 0,
    ensures
        r == setup_outcome(
            map_entries(boot_info.spec_tags()),
            kernel_size,
            kernel_align,
            *loader_image,
            boot_info_range(boot_info),
        ),
        final(tables).same_places(*old(tables)),
        r is Err ==> final(tables).same_entries(*old(tables)),
        r matches Ok(alloc) ==> final(tables).built_from(*old(tables), alloc),
{
    let memory_map = match boot_info.memory_map() {
        Some(memory_map) => memory_map,
        None => {
            return Err(PagingError::NoMemoryMap);
        },
    };
    let info_range = boot_info.as_ptr_range();
    assert(info_range == boot_info_range(boot_info));
    let kernel_alignment = if kernel_align > ALIGN_2MB {
        kernel_align
    } else {
        ALIGN_2MB
    };
    let mut excluded: Vec<Range<usize>> = Vec::new();
    excluded.push(Range { start: info_range.start, end: info_range.end });
    assert(seq![*loader_image] + excluded@ =~= seq![*loader_image, info_range]);
    let kernel_memory = match get_available_memory(
        memory_map.iter(),
        kernel_size,
        kernel_alignment,
        loader_image,
        excluded.as_slice(),
    ) {
        Some(kernel_memory) => kernel_memory,
        None => {
            return Err(PagingError::NoKernelMemory);
        },
    };
    excluded.push(Range { start: kernel_memory.start, end: kernel_memory.end });
    assert(seq![*loader_image] + excluded@ =~= seq![*loader_image, info_range, kernel_memory]);
    let stack_memory = match get_available_memory(
        memory_map.iter(),
        kernel_align,
        ALIGN_2MB,
        loader_image,
        excluded.as_slice(),
    ) {
        Some(stack_memory) => stack_memory,
        None => {
            return Err(PagingError::NoStackMemory);
        },
    };
    proof {
        crate::region::lemma_region_properties(
            memory_map@.entries(),
            kernel_size as int,
            kernel_alignment as int,
            seq![*loader_image, info_range],
            kernel_memory,
        );
        crate::region::lemma_region_properties(
            memory_map@.entries(),
            kernel_align as int,
            ALIGN_2MB as int,
            seq![*loader_image, info_range, kernel_memory],
            stack_memory,
        );
    }
    let kernel_base = HIGHER_HALF + (KERNEL_TOP_INDEX as u64) * WINDOW_SIZE;
    let stack_base = HIGHER_HALF + (STACK_TOP_INDEX as u64) * WINDOW_SIZE;
    if count_pages(kernel_size) > PAGING_TABLE_SIZE || count_pages(kernel_align)
        > PAGING_TABLE_SIZE || kernel_size as u64 > u64::MAX - kernel_base || kernel_align as u64
        > u64::MAX - stack_base {
        return Err(PagingError::KernelTooLarge);
    }
    let kernel_address = match setup_mapping(
        &mut tables.kernel,
        &mut tables.high,
        &mut tables.root,
        KERNEL_TOP_INDEX,
        &kernel_memory,
        RW_FLAG,
    ) {
        Ok(kernel_address) => kernel_address,
        Err(error) => {
            return Err(error);
        },
    };
    let stack_address = match setup_mapping(
        &mut tables.stack,
        &mut tables.high,
        &mut tables.root,
        STACK_TOP_INDEX,
        &stack_memory,
        RW_FLAG,
    ) {
        Ok(stack_address) => stack_address,
        Err(error) => {
            return Err(error);
        },
    };
    setup_identity_paging(&mut tables.identity, &mut tables.root);
    proof {
        let top = PagingTable::MAX_INDEX as int;
        let entry = table_entry(old(tables).high.spec_address());
        assert(old(tables).root.entries().update(top, entry).update(top, entry) =~= old(
            tables,
        ).root.entries().update(top, entry));
    }
    let kernel_vrange = Range { start: kernel_address, end: kernel_address + kernel_size as u64 };
    let stack_vrange = Range { start: stack_address, end: stack_address + kernel_align as u64 };
    Ok(
        KernelMemoryAlloc {
            kernel: kernel_memory,
            stack: stack_memory,
            kernel_virt: kernel_vrange,
            stack_virt: stack_vrange,
        },
    )
}

/// The kernel and its stack are seen at different virtual addresses, the
/// stack below the kernel, and each range is as long as what it maps.
pub proof fn lemma_virtual_ranges_apart(
    entries: Option<Seq<MemoryInfo>>,
    kernel_size: usize,
    kernel_align: usize,
    loader_image: Range<usize>,
    boot_info: Range<usize>,
    alloc: KernelMemoryAlloc,
)
    requires
        setup_outcome(entries, kernel_size, kernel_align, loader_image, boot_info) == Ok::<
            KernelMemoryAlloc,
            PagingError,
        >(alloc),
    ensures
        alloc.stack_virt.end - alloc.stack_virt.start == kernel_align,
        alloc.kernel_virt.end - alloc.kernel_virt.start == kernel_size,
        alloc.stack_virt.end <= alloc.kernel_virt.start,
        alloc.stack_virt.start >= HIGHER_HALF,
{
}

/// The kernel image and its stack share no physical memory, where the
/// image fits into one 2 MiB page and asks for an alignment that divides
/// 2 MiB or is a multiple of it: both then start on a 2 MiB boundary, and
/// the stack, which holds neither end of the image, cannot lie inside it.
pub proof fn lemma_physical_ranges_apart(
    entries: Option<Seq<MemoryInfo>>,
    kernel_size: usize,
    kernel_align: usize,
    loader_image: Range<usize>,
    boot_info: Range<usize>,
    alloc: KernelMemoryAlloc,
)
    requires
        kernel_align > 0,
        setup_outcome(entries, kernel_size, kernel_align, loader_image, boot_info) == Ok::<
            KernelMemoryAlloc,
            PagingError,
        >(alloc),
        kernel_size <= ALIGN_2MB,
        kernel_align <= ALIGN_2MB || kernel_align % ALIGN_2MB == 0,
    ensures
        alloc.kernel.end - alloc.kernel.start == kernel_size,
        alloc.stack.end - alloc.stack.start == kernel_align,
        ranges_disjoint(alloc.kernel, alloc.stack),
{
    let map = entries->0;
    let align = kernel_alignment(kernel_align) as int;
    let page = ALIGN_2MB as int;
    let excluded = seq![loader_image, boot_info, alloc.kernel];
    crate::region::lemma_search_found(
        map,
        kernel_size as int,
        align,
        seq![loader_image, boot_info],
    );
    crate::region::lemma_search_found(map, kernel_align as int, page, excluded);
    crate::region::lemma_region_properties(
        map,
        kernel_size as int,
        align,
        seq![loader_image, boot_info],
        alloc.kernel,
    );
    crate::region::lemma_region_properties(map, kernel_align as int, page, excluded, alloc.stack);
    assert(excluded[2] == alloc.kernel);
    let ks = alloc.kernel.start as int;
    let ss = alloc.stack.start as int;
    vstd::arithmetic::div_mod::lemma_fundamental_div_mod(ks, align);
    vstd::arithmetic::div_mod::lemma_fundamental_div_mod(align, page);
    let q = (align / page) * (ks / align);
    assert(ks == q * page) by (nonlinear_arith)
        requires
            ks == align * (ks / align),
            align == page * (align / page),
            q == (align / page) * (ks / align),
    ;
    vstd::arithmetic::div_mod::lemma_fundamental_div_mod(ss, page);
    if ks < ss {
        let p = ss / page;
        assert(p > q) by (nonlinear_arith)
            requires
                q * page < p * page,
                page > 0,
        ;
        assert(p * page >= q * page + page) by (nonlinear_arith)
            requires
                p >= q + 1,
                page > 0,
        ;
    }
}

/// What an entry built from an address and flags decodes to: where the
/// address takes up address bits only and the flags none of them, the
/// address bits of the entry are the address, and every flag that was
/// given is set.
pub proof fn lemma_entry_decodes(address: u64, flags: u64)
    requires
        address & ADDRESS_MASK == address,
        flags & ADDRESS_MASK == 0,
    ensures
        (address | flags) & ADDRESS_MASK == address,
        (address | flags) & !ADDRESS_MASK == flags,
{
    assert((address | flags) & 0x000f_ffff_ffff_f000u64 == address) by (bit_vector)
        requires
            address & 0x000f_ffff_ffff_f000u64 == address,
            flags & 0x000f_ffff_ffff_f000u64 == 0,
    ;
    assert((address | flags) & !0x000f_ffff_ffff_f000u64 == flags) by (bit_vector)
        requires
            address & 0x000f_ffff_ffff_f000u64 == address,
            flags & 0x000f_ffff_ffff_f000u64 == 0,
    ;
}

} // verus!
