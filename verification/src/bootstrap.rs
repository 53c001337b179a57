//! The header by which a boot manager recognises the loader.
//!
//! A Multiboot2 boot manager scans the start of the loader's image for a
//! header: a magic number, the architecture, the length of the header and
//! a checksum that makes the four add up to zero, followed by tags. The
//! loader's header asks for one thing, the memory map, and ends.

use vstd::prelude::*;

verus! {

/// The magic number of a Multiboot2 header.
pub const MAGIC: u32 = 0xE85250D6;

/// The architecture of protected mode on a 32-bit x86 processor.
pub const ARCHITECTURE: u32 = 0;

/// Bytes that the whole header takes.
pub const HEADER_SIZE: u32 = 40;

/// Bytes that the header of a tag takes.
pub const TAG_HEADER_SIZE: u32 = 8;

/// Type of the tag that asks for information.
pub const INFORMATION_REQUEST: u16 = 1;

/// Type of the tag that ends the header.
pub const END: u16 = 0;

/// The information that the loader asks for: the memory map.
pub const MEMORY_MAP_REQUEST: u32 = 6;

/// The header of a tag.
#[derive(Clone, Copy, Debug, PartialEq, Eq, Structural)]
pub struct TagHeader {
    pub typ: u16,
    pub flags: u16,
    pub size: u32,
}

/// The tag that asks the boot manager for information.
#[derive(Clone, Copy, Debug, PartialEq, Eq)]
pub struct InformationRequest {
    pub header: TagHeader,
    pub requests: [u32; 1],
}

/// The tag that ends the header.
#[derive(Clone, Copy, Debug, PartialEq, Eq, Structural)]
pub struct EndTag(pub TagHeader);

/// The header of the loader.
#[derive(Clone, Copy, Debug, PartialEq, Eq)]
pub struct MultibootHeader {
    pub magic: u32,
    pub architecture: u32,
    pub header_length: u32,
    pub checksum: u32,
    pub info_req: InformationRequest,
    pub end_tag: EndTag,
}

/// The checksum of a header: what has to be added to magic number,
/// architecture and length to reach a multiple of 2^32.
pub open spec fn checksum_of(magic: u32, architecture: u32, header_length: u32) -> u32 {
    ((0x1_0000_0000 - (magic + architecture + header_length) % 0x1_0000_0000) % 0x1_0000_0000) as u32
}

impl MultibootHeader {
    /// Whether the first four words add up to a multiple of 2^32, as a
    /// boot manager checks.
    pub open spec fn checks(&self) -> bool {
        (self.magic + self.architecture + self.header_length + self.checksum) % 0x1_0000_0000 == 0
    }

    /// The header of the loader: it asks for the memory map, and its
    /// checksum is right.
    pub fn new() -> (r: MultibootHeader)
        ensures
            r.magic == MAGIC,
            r.architecture == ARCHITECTURE,
            r.header_length == HEADER_SIZE,
            r.checksum == checksum_of(MAGIC, ARCHITECTURE, HEADER_SIZE),
            r.checks(),
            r.info_req.header == (TagHeader { typ: INFORMATION_REQUEST, flags: 0, size: 12 }),
            r.info_req.requests@ == seq![MEMORY_MAP_REQUEST],
            r.end_tag == EndTag(TagHeader { typ: END, flags: 0, size: TAG_HEADER_SIZE }),
    {
        let requests: [u32; 1] = [MEMORY_MAP_REQUEST];
        assert(requests@ =~= seq![MEMORY_MAP_REQUEST]);
        let sum: u32 = MAGIC + ARCHITECTURE + HEADER_SIZE;
        MultibootHeader {
            magic: MAGIC,
            architecture: ARCHITECTURE,
            header_length: HEADER_SIZE,
            checksum: 0u32.wrapping_sub(sum),
            info_req: InformationRequest {
                header: TagHeader {
                    typ: INFORMATION_REQUEST,
                    flags: 0,
                    size: TAG_HEADER_SIZE + 4 * 1,
                },
                requests,
            },
            end_tag: EndTag(TagHeader { typ: END, flags: 0, size: TAG_HEADER_SIZE }),
        }
    }

    /// The header as the ten words that lie in the image.
    pub fn words(&self) -> (r: [u32; 10])
        ensures
            r@ == seq![
                self.magic,
                self.architecture,
                self.header_length,
                self.checksum,
                (self.info_req.header.typ as int + self.info_req.header.flags as int * 0x1_0000)
                    as u32,
                self.info_req.header.size,
                self.info_req.requests@[0],
                0u32,
                (self.end_tag.0.typ as int + self.end_tag.0.flags as int * 0x1_0000) as u32,
                self.end_tag.0.size,
            ],
    {
        let r = [
            self.magic,
            self.architecture,
            self.header_length,
            self.checksum,
            self.info_req.header.typ as u32 + self.info_req.header.flags as u32 * 0x1_0000,
            self.info_req.header.size,
            self.info_req.requests[0],
            0u32,
            self.end_tag.0.typ as u32 + self.end_tag.0.flags as u32 * 0x1_0000,
            self.end_tag.0.size,
        ];
        assert(r@ =~= seq![
            self.magic,
            self.architecture,
            self.header_length,
            self.checksum,
            (self.info_req.header.typ as int + self.info_req.header.flags as int * 0x1_0000)
                as u32,
            self.info_req.header.size,
            self.info_req.requests@[0],
            0u32,
            (self.end_tag.0.typ as int + self.end_tag.0.flags as int * 0x1_0000) as u32,
            self.end_tag.0.size,
        ]);
        r
    }
}

} // verus!
