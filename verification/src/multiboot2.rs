//! The Multiboot2 boot information block.
//!
//! A boot manager hands the loader the address of a block of memory: eight
//! bytes of header (`total_size`, then a reserved word) followed by a
//! stream of tags, each `{type: u32, size: u32, payload}` and each starting
//! on an eight-byte boundary. This module validates such a block, walks its
//! tags, and decodes the memory map that one of the tags carries.

use crate::bytes::{le_u32, le_u64, read_u32, read_u64};
use std::ops::Range;
use vstd::prelude::*;

verus! {

/// Bytes taken by the header of the block and by the header of each tag.
pub const HEADER_SIZE: usize = 8;

/// Boundary on which the block and each of its tags start.
pub const TAG_ALIGNMENT: usize = 8;

/// Type of the tag that ends the stream.
pub const END_TAG: u32 = 0;

/// Type of the tag that holds the kernel command line.
pub const COMMAND_LINE: u32 = 1;

/// Type of the tag that holds the boot manager's name.
pub const BOOTLOADER_NAME: u32 = 2;

/// Type of the tag that describes a boot module.
pub const MODULES: u32 = 3;

/// Type of the tag that gives the amount of lower and upper memory.
pub const MEMORY_INFORMATION: u32 = 4;

/// Type of the tag that names the BIOS boot device.
pub const BIOS_BOOT_DEVICE: u32 = 5;

/// Type of the tag that holds the memory map.
pub const MEMORY_MAP: u32 = 6;

/// Type of the tag that describes the framebuffer.
pub const FRAMEBUFFER_INFO: u32 = 8;

/// Type of the tag that holds the ELF symbols of the loaded image.
pub const ELF_SYMBOLS: u32 = 9;

/// Bytes of a memory map entry that are decoded: base, length and type.
pub const ENTRY_DECODED_SIZE: usize = 20;

/// Tells whether `ptr` is a multiple of `align`.
pub fn is_aligned(ptr: usize, align: usize) -> (r: bool)
    requires
        align > 0,
    ensures
        r == (ptr as int % align as int == 0),
{
    ptr % align == 0
}

/// A run of physical memory: `size` bytes that start at `base`.
#[derive(Clone, Copy, Debug, PartialEq, Eq, Structural)]
pub struct MemoryRange {
    pub base: u64,
    pub size: u64,
}

impl MemoryRange {
    /// The address one past the last byte of the range.
    pub open spec fn spec_end(&self) -> int {
        self.base + self.size
    }

    /// Whether `address` lies in the range.
    pub open spec fn spec_contains(&self, address: int) -> bool {
        self.base <= address < self.spec_end()
    }

    /// Whether the two ranges share an address.
    pub open spec fn spec_overlaps(&self, other: MemoryRange) -> bool {
        exists|address: int| self.spec_contains(address) && other.spec_contains(address)
    }

    /// The end of the range, unless it lies beyond what a `u64` can hold.
    pub fn end(&self) -> (r: Option<u64>)
        ensures
            r == (if self.spec_end() <= u64::MAX {
                Some(self.spec_end() as u64)
            } else {
                None
            }),
    {
        self.base.checked_add(self.size)
    }

    /// Whether `address` lies in the range.
    pub fn contains(&self, address: u64) -> (r: bool)
        ensures
            r == self.spec_contains(address as int),
    {
        self.base <= address && address - self.base < self.size
    }

    /// Whether the two ranges share an address.
    pub fn overlaps(&self, other: &MemoryRange) -> (r: bool)
        ensures
            r == self.spec_overlaps(*other),
    {
        if self.base <= other.base {
            let r = other.base - self.base < self.size && other.size > 0;
            assert(r ==> self.spec_contains(other.base as int) && other.spec_contains(
                other.base as int,
            ));
            r
        } else {
            let r = self.base - other.base < other.size && self.size > 0;
            assert(r ==> self.spec_contains(self.base as int) && other.spec_contains(
                self.base as int,
            ));
            r
        }
    }

    /// The range as a pair of bounds.
    pub fn as_range(&self) -> (r: Range<u64>)
        requires
            self.spec_end() <= u64::MAX,
        ensures
            r.start == self.base,
            r.end == self.spec_end(),
    {
        Range { start: self.base, end: self.base + self.size }
    }

    /// The base of the range as an address of this machine, where it is
    /// one.
    pub fn base_as_ptr(&self) -> (r: Option<usize>)
        ensures
            r == (if self.base <= usize::MAX {
                Some(self.base as usize)
            } else {
                None
            }),
    {
        if self.base <= usize::MAX as u64 {
            Some(self.base as usize)
        } else {
            None
        }
    }

    /// Whether base, size and end are all addresses of this machine.
    pub open spec fn addressable(&self) -> bool {
        self.spec_end() <= usize::MAX
    }

    /// The range as a pair of addresses of this machine; nothing where the
    /// base, the size or the end is out of the machine's reach.
    pub fn as_ptr_range(&self) -> (r: Option<Range<usize>>)
        ensures
            r is Some <==> self.addressable(),
            r matches Some(range) ==> range.start == self.base && range.end == self.spec_end(),
    {
        if self.base > usize::MAX as u64 || self.size > usize::MAX as u64 {
            return None;
        }
        let base = self.base as usize;
        let size = self.size as usize;
        match base.checked_add(size) {
            Some(end) => Some(Range { start: base, end }),
            None => None,
        }
    }
}

/// One entry of the memory map: a range and what the firmware says of it.
#[derive(Clone, Copy, Debug, PartialEq, Eq, Structural)]
pub enum MemoryInfo {
    Available(MemoryRange),
    Reserved(MemoryRange),
    ACPIReclaimable(MemoryRange),
    NVS(MemoryRange),
    BadRam(MemoryRange),
    Unknown(MemoryRange, u32),
}

/// Entry type of memory that is free to use.
pub const AVAILABLE: u32 = 1;

/// Entry type of memory that must be left alone.
pub const RESERVED: u32 = 2;

/// Entry type of memory that holds ACPI tables.
pub const ACPI_RECLAIMABLE: u32 = 3;

/// Entry type of memory that must be kept over hibernation.
pub const MEMORY_NVS: u32 = 4;

/// Entry type of defective memory.
pub const BAD_RAM: u32 = 5;

impl MemoryInfo {
    /// The entry with the given range and type code. A code that has no
    /// variant of its own is kept in `Unknown`.
    pub open spec fn spec_new(range: MemoryRange, code: u32) -> MemoryInfo {
        if code == AVAILABLE {
            MemoryInfo::Available(range)
        } else if code == RESERVED {
            MemoryInfo::Reserved(range)
        } else if code == ACPI_RECLAIMABLE {
            MemoryInfo::ACPIReclaimable(range)
        } else if code == MEMORY_NVS {
            MemoryInfo::NVS(range)
        } else if code == BAD_RAM {
            MemoryInfo::BadRam(range)
        } else {
            MemoryInfo::Unknown(range, code)
        }
    }

    /// The range that the entry speaks of.
    pub open spec fn spec_range(&self) -> MemoryRange {
        match *self {
            MemoryInfo::Available(e) => e,
            MemoryInfo::Reserved(e) => e,
            MemoryInfo::ACPIReclaimable(e) => e,
            MemoryInfo::NVS(e) => e,
            MemoryInfo::BadRam(e) => e,
            MemoryInfo::Unknown(e, _) => e,
        }
    }

    /// The type code that the entry was decoded from.
    pub open spec fn spec_type_code(&self) -> u32 {
        match *self {
            MemoryInfo::Available(_) => AVAILABLE,
            MemoryInfo::Reserved(_) => RESERVED,
            MemoryInfo::ACPIReclaimable(_) => ACPI_RECLAIMABLE,
            MemoryInfo::NVS(_) => MEMORY_NVS,
            MemoryInfo::BadRam(_) => BAD_RAM,
            MemoryInfo::Unknown(_, code) => code,
        }
    }

    /// The entry with the given range and type code.
    pub fn new(range: MemoryRange, code: u32) -> (r: MemoryInfo)
        ensures
            r == Self::spec_new(range, code),
            r.spec_range() == range,
            r.spec_type_code() == code,
    {
        if code == AVAILABLE {
            MemoryInfo::Available(range)
        } else if code == RESERVED {
            MemoryInfo::Reserved(range)
        } else if code == ACPI_RECLAIMABLE {
            MemoryInfo::ACPIReclaimable(range)
        } else if code == MEMORY_NVS {
            MemoryInfo::NVS(range)
        } else if code == BAD_RAM {
            MemoryInfo::BadRam(range)
        } else {
            MemoryInfo::Unknown(range, code)
        }
    }

    /// The range that the entry speaks of.
    pub fn range(&self) -> (r: MemoryRange)
        ensures
            r == self.spec_range(),
    {
        match self {
            MemoryInfo::Available(e) => *e,
            MemoryInfo::Reserved(e) => *e,
            MemoryInfo::ACPIReclaimable(e) => *e,
            MemoryInfo::NVS(e) => *e,
            MemoryInfo::BadRam(e) => *e,
            MemoryInfo::Unknown(e, _) => *e,
        }
    }

    /// The type code that the entry was decoded from.
    pub fn type_code(&self) -> (r: u32)
        ensures
            r == self.spec_type_code(),
    {
        match self {
            MemoryInfo::Available(_) => AVAILABLE,
            MemoryInfo::Reserved(_) => RESERVED,
            MemoryInfo::ACPIReclaimable(_) => ACPI_RECLAIMABLE,
            MemoryInfo::NVS(_) => MEMORY_NVS,
            MemoryInfo::BadRam(_) => BAD_RAM,
            MemoryInfo::Unknown(_, code) => *code,
        }
    }
}

impl std::ops::Deref for MemoryInfo {
    type Target = MemoryRange;

    fn deref(&self) -> (r: &MemoryRange)
        ensures
            *r == self.spec_range(),
    {
        match self {
            MemoryInfo::Available(e) => e,
            MemoryInfo::Reserved(e) => e,
            MemoryInfo::ACPIReclaimable(e) => e,
            MemoryInfo::NVS(e) => e,
            MemoryInfo::BadRam(e) => e,
            MemoryInfo::Unknown(e, _) => e,
        }
    }
}

/// What one chunk of the memory map decodes to: base and length as
/// little-endian `u64`, then the type as a little-endian `u32`. A chunk too
/// short to hold the three decodes to nothing.
pub open spec fn parse_entry(chunk: Seq<u8>) -> Option<MemoryInfo> {
    if chunk.len() >= ENTRY_DECODED_SIZE {
        Some(
            MemoryInfo::spec_new(
                MemoryRange { base: le_u64(chunk, 0), size: le_u64(chunk, 8) },
                le_u32(chunk, 16),
            ),
        )
    } else {
        None
    }
}

/// The chunk of `data` that starts at `position`: `entry_size` bytes, or
/// what is left of `data` where that is less.
pub open spec fn chunk_at(data: Seq<u8>, entry_size: int, position: int) -> Seq<u8> {
    if position + entry_size <= data.len() {
        data.subrange(position, position + entry_size)
    } else {
        data.subrange(position, data.len() as int)
    }
}

/// The entries that `data` holds from `position` on, read chunk by chunk
/// up to the end of `data` or to the first chunk that does not decode.
pub open spec fn entries_from(data: Seq<u8>, entry_size: int, position: int) -> Seq<MemoryInfo>
    decreases
        (if position < data.len() {
            data.len() - position
        } else {
            0
        }),
{
    if entry_size <= 0 || position < 0 || position >= data.len() {
        Seq::empty()
    } else if parse_entry(chunk_at(data, entry_size, position)) is None {
        Seq::empty()
    } else {
        seq![parse_entry(chunk_at(data, entry_size, position))->0] + entries_from(
            data,
            entry_size,
            position + entry_size,
        )
    }
}

/// The memory map as a tag carries it: the size of one entry, the version
/// of the entry format, and the bytes of the entries.
#[derive(Debug)]
pub struct MemoryMap<'a> {
    entry_size: usize,
    entry_version: u32,
    data: &'a [u8],
}

/// What a memory map holds, as plain values.
pub struct MemoryMapView {
    pub entry_size: nat,
    pub entry_version: u32,
    pub data: Seq<u8>,
}

impl MemoryMapView {
    /// The entries of the map, in the order of the bytes.
    pub open spec fn entries(&self) -> Seq<MemoryInfo> {
        entries_from(self.data, self.entry_size as int, 0)
    }
}

/// What the payload of a memory map tag decodes to: two little-endian
/// `u32`, the entry size and the entry version, and after them the
/// entries. A payload too short for the two words decodes to nothing.
pub open spec fn parse_memory_map(payload: Seq<u8>) -> Option<MemoryMapView> {
    if payload.len() >= 8 {
        Some(
            MemoryMapView {
                entry_size: le_u32(payload, 0) as nat,
                entry_version: le_u32(payload, 4),
                data: payload.subrange(8, payload.len() as int),
            },
        )
    } else {
        None
    }
}

impl<'a> View for MemoryMap<'a> {
    type V = MemoryMapView;

    closed spec fn view(&self) -> MemoryMapView {
        MemoryMapView {
            entry_size: self.entry_size as nat,
            entry_version: self.entry_version,
            data: self.data@,
        }
    }
}

impl<'a> MemoryMap<'a> {
    /// Decodes the payload of a memory map tag.
    pub fn from_slice(buffer: &'a [u8]) -> (r: Option<MemoryMap<'a>>)
        ensures
            match r {
                Some(map) => parse_memory_map(buffer@) == Some(map@),
                None => parse_memory_map(buffer@) is None,
            },
    {
        let entry_size = read_u32(buffer, 0);
        let entry_version = read_u32(buffer, 4);
        match (entry_size, entry_version) {
            (Some(entry_size), Some(entry_version)) => {
                let data = vstd::slice::slice_subrange(buffer, 8, buffer.len());
                Some(MemoryMap { entry_size: entry_size as usize, entry_version, data })
            },
            _ => None,
        }
    }

    /// The size in bytes of one entry.
    pub fn entry_size(&self) -> (r: usize)
        ensures
            r == self@.entry_size,
    {
        self.entry_size
    }

    /// The version of the entry format.
    pub fn entry_version(&self) -> (r: u32)
        ensures
            r == self@.entry_version,
    {
        self.entry_version
    }

    /// A cursor at the first entry of the map.
    pub fn iter(&self) -> (r: MemoryInfoIter<'a>)
        ensures
            r.remaining() == self@.entries(),
    {
        MemoryInfoIter { data: self.data, entry_size: self.entry_size, position: 0 }
    }

    /// All entries of the map, in the order of the bytes.
    pub fn entries(&self) -> (r: Vec<MemoryInfo>)
        ensures
            r@ == self@.entries(),
    {
        let mut result: Vec<MemoryInfo> = Vec::new();
        let mut cursor = self.iter();
        let ghost all = self@.entries();
        loop
            invariant
                all == result@ + cursor.remaining(),
            ensures
                all == result@,
            decreases cursor.remaining().len(),
        {
            match cursor.next() {
                Some(entry) => {
                    proof {
                        assert(all =~= result@.push(entry) + cursor.remaining());
                    }
                    result.push(entry);
                },
                None => {
                    proof {
                        assert(all =~= result@);
                    }
                    break ;
                },
            }
        }
        result
    }
}

/// A cursor over the entries of a memory map.
#[derive(Debug)]
pub struct MemoryInfoIter<'a> {
    data: &'a [u8],
    entry_size: usize,
    position: usize,
}

impl<'a> MemoryInfoIter<'a> {
    #[verifier::type_invariant]
    spec fn wf(&self) -> bool {
        self.position <= self.data@.len()
    }

    /// The entries that the cursor has yet to hand out.
    pub closed spec fn remaining(&self) -> Seq<MemoryInfo> {
        entries_from(self.data@, self.entry_size as int, self.position as int)
    }

    /// Hands out the next entry and moves past it. Once the map is used up,
    /// or holds a chunk that does not decode, the cursor stays where it is
    /// and hands out nothing.
    pub fn next(&mut self) -> (r: Option<MemoryInfo>)
        ensures
            match r {
                Some(entry) => old(self).remaining() == seq![entry] + final(self).remaining(),
                None => old(self).remaining() == Seq::<MemoryInfo>::empty() && *final(self) == *old(
                    self,
                ),
            },
    {
        proof {
            use_type_invariant(&*self);
        }
        let len = self.data.len();
        if self.entry_size == 0 || self.position >= len {
            return None;
        }
        let end = if self.entry_size <= len - self.position {
            self.position + self.entry_size
        } else {
            len
        };
        let chunk = vstd::slice::slice_subrange(self.data, self.position, end);
        assert(chunk@ == chunk_at(self.data@, self.entry_size as int, self.position as int));
        let base = read_u64(chunk, 0);
        let size = read_u64(chunk, 8);
        let code = read_u32(chunk, 16);
        match (base, size, code) {
            (Some(base), Some(size), Some(code)) => {
                let entry = MemoryInfo::new(MemoryRange { base, size }, code);
                self.position = end;
                proof {
                    if end as int != old(self).position + self.entry_size {
                        assert(end == len);
                        assert(entries_from(self.data@, self.entry_size as int, end as int)
                            == Seq::<MemoryInfo>::empty());
                        assert(entries_from(
                            self.data@,
                            self.entry_size as int,
                            old(self).position + self.entry_size,
                        ) == Seq::<MemoryInfo>::empty());
                    }
                }
                Some(entry)
            },
            _ => None,
        }
    }
}

/// One tag of the boot information block.
#[derive(Debug)]
pub enum Tag<'a> {
    /// The kernel command line: the bytes in front of the first NUL.
    CommandLine(&'a [u8]),
    /// The memory map.
    MemoryMap(MemoryMap<'a>),
    /// A tag of another type, or one whose payload does not decode.
    Unknown(u32),
}

/// What a tag holds, as plain values.
pub enum TagView {
    CommandLine(Seq<u8>),
    MemoryMap(MemoryMapView),
    Unknown(u32),
}

impl<'a> View for Tag<'a> {
    type V = TagView;

    open spec fn view(&self) -> TagView {
        match *self {
            Tag::CommandLine(line) => TagView::CommandLine(line@),
            Tag::MemoryMap(map) => TagView::MemoryMap(map@),
            Tag::Unknown(typ) => TagView::Unknown(typ),
        }
    }
}

/// Whether a tag header can be read at `cursor`.
pub open spec fn header_fits(buffer: Seq<u8>, cursor: int) -> bool {
    0 <= cursor && cursor + HEADER_SIZE <= buffer.len()
}

/// The type of the tag whose header is at `cursor`.
pub open spec fn tag_type(buffer: Seq<u8>, cursor: int) -> u32 {
    le_u32(buffer, cursor)
}

/// The size that the tag at `cursor` declares.
pub open spec fn tag_size(buffer: Seq<u8>, cursor: int) -> u32 {
    le_u32(buffer, cursor + 4)
}

/// Whether a tag is to be read at `cursor`: a header fits there and does
/// not end the stream.
pub open spec fn has_tag(buffer: Seq<u8>, cursor: int) -> bool {
    header_fits(buffer, cursor) && tag_type(buffer, cursor) != END_TAG
}

/// The payload of the tag at `cursor`. The tag is the bytes from the
/// cursor on, as many as its size says, header included; the payload is
/// what of them lies behind the header. There is none where the size does
/// not cover the header, or where the buffer ends before the tag does.
pub open spec fn tag_payload(buffer: Seq<u8>, cursor: int) -> Option<Seq<u8>> {
    let size = tag_size(buffer, cursor);
    if HEADER_SIZE <= size && cursor + size <= buffer.len() {
        Some(buffer.subrange(cursor + HEADER_SIZE, cursor + size))
    } else {
        None
    }
}

/// Whether `n` is the place of the first NUL in `payload`.
pub open spec fn first_nul(payload: Seq<u8>, n: int) -> bool {
    &&& 0 <= n < payload.len()
    &&& payload[n] == 0
    &&& forall|i: int| 0 <= i < n ==> payload[i] != 0
}

/// The command line in `payload`: the bytes in front of its first NUL, or
/// nothing where it holds no NUL.
pub open spec fn command_line(payload: Seq<u8>) -> Option<Seq<u8>> {
    if exists|n: int| first_nul(payload, n) {
        Some(payload.subrange(0, choose|n: int| first_nul(payload, n)))
    } else {
        None
    }
}

/// The tag whose header is at `cursor`. A command line without its NUL, a
/// memory map too short for its two words, a size that does not cover the
/// header, and a tag that runs over the end of the buffer all leave only
/// the type to report.
pub open spec fn tag_at(buffer: Seq<u8>, cursor: int) -> TagView {
    let typ = tag_type(buffer, cursor);
    match tag_payload(buffer, cursor) {
        Some(payload) => {
            if typ == COMMAND_LINE {
                match command_line(payload) {
                    Some(line) => TagView::CommandLine(line),
                    None => TagView::Unknown(typ),
                }
            } else if typ == MEMORY_MAP {
                match parse_memory_map(payload) {
                    Some(map) => TagView::MemoryMap(map),
                    None => TagView::Unknown(typ),
                }
            } else {
                TagView::Unknown(typ)
            }
        },
        None => TagView::Unknown(typ),
    }
}

/// `x` rounded up to the next multiple of the tag alignment.
pub open spec fn align_up(x: int) -> int {
    if x % (TAG_ALIGNMENT as int) == 0 {
        x
    } else {
        x - x % (TAG_ALIGNMENT as int) + TAG_ALIGNMENT
    }
}

/// `x` rounded down to a multiple of the tag alignment.
pub open spec fn align_down(x: int) -> int {
    x - x % (TAG_ALIGNMENT as int)
}

/// Where the cursor stands once the tag at `cursor` is read: past the
/// tag's size rounded up to the alignment, past one header at the least,
/// and at the last aligned place of the buffer at the most.
pub open spec fn next_cursor(buffer: Seq<u8>, cursor: int) -> int {
    let size = align_up(tag_size(buffer, cursor) as int);
    let step = if size < HEADER_SIZE {
        HEADER_SIZE as int
    } else {
        size
    };
    if cursor + step <= align_down(buffer.len() as int) {
        cursor + step
    } else {
        align_down(buffer.len() as int)
    }
}

/// The tags of `buffer` from `cursor` on, up to the tag that ends the
/// stream or to the place where no further header fits.
pub open spec fn tags_from(buffer: Seq<u8>, cursor: int) -> Seq<TagView>
    decreases
        (if cursor < buffer.len() {
            buffer.len() - cursor
        } else {
            0
        }),
{
    if has_tag(buffer, cursor) && cursor % (TAG_ALIGNMENT as int) == 0 {
        seq![tag_at(buffer, cursor)] + tags_from(buffer, next_cursor(buffer, cursor))
    } else {
        Seq::empty()
    }
}

/// The first memory map among `tags`.
pub open spec fn first_memory_map(tags: Seq<TagView>) -> Option<MemoryMapView>
    decreases tags.len(),
{
    if tags.len() == 0 {
        None
    } else {
        match tags[0] {
            TagView::MemoryMap(map) => Some(map),
            _ => first_memory_map(tags.drop_first()),
        }
    }
}

/// Reading a tag moves an aligned cursor forward by a header at least, and
/// leaves it aligned and inside the buffer.
pub proof fn lemma_next_cursor(buffer: Seq<u8>, cursor: int)
    requires
        header_fits(buffer, cursor),
        cursor % (TAG_ALIGNMENT as int) == 0,
    ensures
        cursor + HEADER_SIZE <= next_cursor(buffer, cursor) <= buffer.len(),
        next_cursor(buffer, cursor) % (TAG_ALIGNMENT as int) == 0,
{
}

/// Past a tag that lies inside the buffer together with its padding, the
/// cursor stands at the end of the tag, rounded up to the alignment.
pub proof fn lemma_next_cursor_rounds(buffer: Seq<u8>, cursor: int)
    requires
        header_fits(buffer, cursor),
        cursor % (TAG_ALIGNMENT as int) == 0,
        tag_size(buffer, cursor) >= HEADER_SIZE,
        cursor + align_up(tag_size(buffer, cursor) as int) <= buffer.len(),
    ensures
        next_cursor(buffer, cursor) == align_up(cursor + tag_size(buffer, cursor)),
        next_cursor(buffer, cursor) == (cursor + tag_size(buffer, cursor) + 7) / 8 * 8,
{
}

/// A payload stays inside its tag: it has the size of the tag less the
/// header, starts behind the header, and ends where the tag ends. The
/// next tag, if one follows, starts at or behind that place, so no
/// payload holds a byte of the header that follows it.
pub proof fn lemma_payload_inside_tag(buffer: Seq<u8>, cursor: int)
    requires
        header_fits(buffer, cursor),
        cursor % (TAG_ALIGNMENT as int) == 0,
        tag_payload(buffer, cursor) is Some,
    ensures
        tag_payload(buffer, cursor)->0.len() == tag_size(buffer, cursor) - HEADER_SIZE,
        forall|i: int|
            0 <= i < tag_payload(buffer, cursor)->0.len() ==> tag_payload(buffer, cursor)->0[i]
                == buffer[cursor + HEADER_SIZE + i],
        cursor + tag_size(buffer, cursor) <= next_cursor(buffer, cursor) || !header_fits(
            buffer,
            next_cursor(buffer, cursor),
        ),
{
}

/// The tag stream is finite: from an aligned cursor inside the buffer, each
/// tag takes eight bytes or more of what is left, so no more tags follow
/// than the rest of the buffer has room for.
pub proof fn lemma_tags_bounded(buffer: Seq<u8>, cursor: int)
    requires
        0 <= cursor <= buffer.len(),
        cursor % (TAG_ALIGNMENT as int) == 0,
    ensures
        cursor + HEADER_SIZE * tags_from(buffer, cursor).len() <= buffer.len(),
    decreases buffer.len() - cursor,
{
    if has_tag(buffer, cursor) {
        lemma_next_cursor(buffer, cursor);
        lemma_tags_bounded(buffer, next_cursor(buffer, cursor));
    }
}

/// A cursor over the tags of a boot information block.
#[derive(Debug)]
pub struct TagIter<'a> {
    cursor: usize,
    buffer: &'a [u8],
}

impl<'a> TagIter<'a> {
    #[verifier::type_invariant]
    spec fn wf(&self) -> bool {
        &&& self.cursor <= self.buffer@.len()
        &&& self.cursor % TAG_ALIGNMENT == 0
    }

    /// Where the cursor stands, as an offset into the block.
    pub closed spec fn position(&self) -> int {
        self.cursor as int
    }

    /// The bytes of the block that the cursor walks.
    pub closed spec fn bytes(&self) -> Seq<u8> {
        self.buffer@
    }

    /// The tags that the cursor has yet to hand out.
    pub open spec fn remaining(&self) -> Seq<TagView> {
        tags_from(self.bytes(), self.position())
    }

    /// Where the cursor stands, as an offset into the block. It is a
    /// multiple of the alignment and never beyond the end of the block.
    pub fn cursor(&self) -> (r: usize)
        ensures
            r == self.position(),
            r <= self.bytes().len(),
            r % TAG_ALIGNMENT == 0,
    {
        proof {
            use_type_invariant(self);
        }
        self.cursor
    }

    /// Decodes the tag of type `typ` and size `size` whose header is at the
    /// cursor.
    fn current_tag(&self, typ: u32, size: u32) -> (r: Tag<'a>)
        requires
            header_fits(self.bytes(), self.position()),
            typ == tag_type(self.bytes(), self.position()),
            size == tag_size(self.bytes(), self.position()),
        ensures
            r@ == tag_at(self.bytes(), self.position()),
    {
        let buffer: &'a [u8] = self.buffer;
        let len = buffer.len();
        let size = size as usize;
        if size < HEADER_SIZE || size > len - self.cursor {
            return Tag::Unknown(typ);
        }
        let tag_start = self.cursor + HEADER_SIZE;
        let tag_end = self.cursor + size;
        let payload = vstd::slice::slice_subrange(buffer, tag_start, tag_end);
        if typ == COMMAND_LINE {
            match bytes_until_nul(payload) {
                Some(line) => Tag::CommandLine(line),
                None => Tag::Unknown(typ),
            }
        } else if typ == MEMORY_MAP {
            match MemoryMap::from_slice(payload) {
                Some(map) => Tag::MemoryMap(map),
                None => Tag::Unknown(typ),
            }
        } else {
            Tag::Unknown(typ)
        }
    }

    /// Hands out the tag at the cursor and moves past it. At the tag that
    /// ends the stream, and where no header fits in what is left of the
    /// block, the cursor stays where it is and hands out nothing.
    pub fn next(&mut self) -> (r: Option<Tag<'a>>)
        ensures
            final(self).bytes() == old(self).bytes(),
            final(self).position() <= final(self).bytes().len(),
            final(self).position() % (TAG_ALIGNMENT as int) == 0,
            match r {
                Some(tag) => {
                    &&& has_tag(old(self).bytes(), old(self).position())
                    &&& tag@ == tag_at(old(self).bytes(), old(self).position())
                    &&& final(self).position() == next_cursor(
                        old(self).bytes(),
                        old(self).position(),
                    )
                    &&& final(self).position() >= old(self).position() + HEADER_SIZE
                    &&& old(self).remaining() == seq![tag@] + final(self).remaining()
                },
                None => {
                    &&& !has_tag(old(self).bytes(), old(self).position())
                    &&& final(self).position() == old(self).position()
                    &&& old(self).remaining() == Seq::<TagView>::empty()
                },
            },
    {
        proof {
            use_type_invariant(&*self);
        }
        let typ = read_u32(self.buffer, self.cursor);
        let size = read_u32(self.buffer, self.cursor + 4);
        match (typ, size) {
            (Some(typ), Some(size)) => {
                if typ == END_TAG {
                    return None;
                }
                let tag = self.current_tag(typ, size);
                proof {
                    lemma_next_cursor(self.buffer@, self.cursor as int);
                }
                let limit = self.buffer.len() - self.buffer.len() % TAG_ALIGNMENT;
                let size = size as usize;
                let rounded = if size % TAG_ALIGNMENT == 0 {
                    Some(size)
                } else {
                    (size - size % TAG_ALIGNMENT).checked_add(TAG_ALIGNMENT)
                };
                let step = match rounded {
                    Some(rounded) => if rounded < HEADER_SIZE {
                        HEADER_SIZE
                    } else {
                        rounded
                    },
                    None => limit,
                };
                self.cursor = if step <= limit - self.cursor {
                    self.cursor + step
                } else {
                    limit
                };
                Some(tag)
            },
            _ => None,
        }
    }
}

/// The bytes of `payload` in front of its first NUL, or nothing where it
/// holds no NUL.
pub fn bytes_until_nul<'a>(payload: &'a [u8]) -> (r: Option<&'a [u8]>)
    ensures
        match r {
            Some(line) => command_line(payload@) == Some(line@),
            None => command_line(payload@) is None,
        },
{
    let mut n: usize = 0;
    while n < payload.len()
        invariant
            n <= payload@.len(),
            forall|i: int| 0 <= i < n ==> payload@[i] != 0,
        decreases payload@.len() - n,
    {
        if payload[n] == 0 {
            proof {
                assert(first_nul(payload@, n as int));
                let m = choose|m: int| first_nul(payload@, m);
                assert(m == n) by {
                    if m < n {
                        assert(payload@[m] != 0);
                    }
                    if n < m {
                        assert(payload@[n as int] != 0);
                    }
                }
            }
            return Some(vstd::slice::slice_subrange(payload, 0, n));
        }
        n += 1;
    }
    proof {
        assert forall|m: int| !first_nul(payload@, m) by {
            if first_nul(payload@, m) {
                assert(payload@[m] != 0);
            }
        }
    }
    None
}

/// The magic number that a Multiboot2 boot manager passes along with the
/// address of the block.
pub const BOOT_MAGIC: u32 = 0x36d76289;

/// Whether a pointer to a boot information block may be read at all: the
/// magic number is the boot manager's, and the address is neither null nor
/// off the alignment.
pub open spec fn pointer_accepted(address: usize, magic: u32) -> bool {
    &&& magic == BOOT_MAGIC
    &&& address != 0
    &&& address as int % (TAG_ALIGNMENT as int) == 0
}

/// Whether `memory`, read at `address`, starts with a boot information
/// block: the pointer is accepted, and the size that the block declares
/// covers its own header, stays inside `memory`, and ends at an address of
/// this machine.
pub open spec fn block_accepted(address: usize, magic: u32, memory: Seq<u8>) -> bool {
    &&& pointer_accepted(address, magic)
    &&& memory.len() >= HEADER_SIZE
    &&& HEADER_SIZE <= le_u32(memory, 0) <= memory.len()
    &&& address + le_u32(memory, 0) <= usize::MAX
}

/// A validated boot information block: where it lies, and its bytes.
#[derive(Debug)]
pub struct BootInformation<'a> {
    address: usize,
    buffer: &'a [u8],
}

impl<'a> BootInformation<'a> {
    #[verifier::type_invariant]
    spec fn wf(&self) -> bool {
        &&& self.address != 0
        &&& self.address as int % (TAG_ALIGNMENT as int) == 0
        &&& self.buffer@.len() >= HEADER_SIZE
        &&& le_u32(self.buffer@, 0) == self.buffer@.len()
        &&& self.address + self.buffer@.len() <= usize::MAX
    }

    /// The address of the block.
    pub closed spec fn spec_address(&self) -> usize {
        self.address
    }

    /// The bytes of the block, header included.
    pub closed spec fn bytes(&self) -> Seq<u8> {
        self.buffer@
    }

    /// The tags of the block.
    pub open spec fn spec_tags(&self) -> Seq<TagView> {
        tags_from(self.bytes(), HEADER_SIZE as int)
    }

    /// Tells whether a pointer handed over by the boot manager may be read.
    pub fn pointer_is_valid(address: usize, magic: u32) -> (r: bool)
        ensures
            r == pointer_accepted(address, magic),
    {
        magic == BOOT_MAGIC && address != 0 && is_aligned(address, TAG_ALIGNMENT)
    }

    /// Validates the block that `memory` starts with, `memory` being what
    /// lies at `address`. The block is cut to the size it declares.
    pub fn from_ptr(address: usize, magic: u32, memory: &'a [u8]) -> (r: Option<
        BootInformation<'a>,
    >)
        ensures
            r is Some <==> block_accepted(address, magic, memory@),
            r matches Some(info) ==> {
                &&& info.spec_address() == address
                &&& info.bytes() == memory@.subrange(0, le_u32(memory@, 0) as int)
            },
    {
        if !Self::pointer_is_valid(address, magic) {
            return None;
        }
        let total_size = match read_u32(memory, 0) {
            Some(total_size) => total_size as usize,
            None => {
                return None;
            },
        };
        if memory.len() < HEADER_SIZE || total_size < HEADER_SIZE || total_size > memory.len()
            || total_size > usize::MAX - address {
            return None;
        }
        let buffer = vstd::slice::slice_subrange(memory, 0, total_size);
        proof {
            assert(le_u32(buffer@, 0) == le_u32(memory@, 0));
        }
        Some(BootInformation { address, buffer })
    }

    /// The size of the block in bytes, as its header declares it.
    pub fn size(&self) -> (r: usize)
        ensures
            r == self.bytes().len(),
            r == le_u32(self.bytes(), 0),
            r >= HEADER_SIZE,
    {
        proof {
            use_type_invariant(self);
        }
        self.buffer.len()
    }

    /// The address of the block: never null, and a multiple of the
    /// alignment.
    pub fn address(&self) -> (r: usize)
        ensures
            r == self.spec_address(),
            r != 0,
            r as int % (TAG_ALIGNMENT as int) == 0,
    {
        proof {
            use_type_invariant(self);
        }
        self.address
    }

    /// The bytes of the block, header included.
    pub fn as_bytes(&self) -> (r: &'a [u8])
        ensures
            r@ == self.bytes(),
    {
        self.buffer
    }

    /// The addresses that the block takes up.
    pub fn as_ptr_range(&self) -> (r: Range<usize>)
        ensures
            r.start == self.spec_address(),
            r.end == self.spec_address() + self.bytes().len(),
    {
        proof {
            use_type_invariant(self);
        }
        Range { start: self.address, end: self.address + self.buffer.len() }
    }

    /// A cursor at the first tag of the block.
    pub fn tags(&self) -> (r: TagIter<'a>)
        ensures
            r.bytes() == self.bytes(),
            r.position() == HEADER_SIZE,
            r.remaining() == self.spec_tags(),
    {
        proof {
            use_type_invariant(self);
        }
        TagIter { buffer: self.buffer, cursor: HEADER_SIZE }
    }

    /// A cursor at the first tag of the block.
    pub fn iter(&self) -> (r: TagIter<'a>)
        ensures
            r.bytes() == self.bytes(),
            r.position() == HEADER_SIZE,
            r.remaining() == self.spec_tags(),
    {
        self.tags()
    }

    /// The first memory map among the tags of the block.
    pub fn memory_map(&self) -> (r: Option<MemoryMap<'a>>)
        ensures
            match r {
                Some(map) => first_memory_map(self.spec_tags()) == Some(map@),
                None => first_memory_map(self.spec_tags()) is None,
            },
    {
        let mut tags = self.tags();
        let ghost all = self.spec_tags();
        loop
            invariant
                all == self.spec_tags(),
                first_memory_map(all) == first_memory_map(tags.remaining()),
            decreases tags.remaining().len(),
        {
            let ghost before = tags.remaining();
            match tags.next() {
                Some(Tag::MemoryMap(map)) => {
                    proof {
                        assert(before[0] == TagView::MemoryMap(map@));
                    }
                    return Some(map);
                },
                Some(tag) => {
                    proof {
                        assert(before[0] == tag@);
                        assert(before.drop_first() =~= tags.remaining());
                    }
                },
                None => {
                    return None;
                },
            }
        }
    }
}

} // verus!
