//! What the loader reads out of the kernel's ELF image.
//!
//! The image itself is parsed by the `elf` crate. This module holds the
//! plain values that the loader works with afterwards (program headers,
//! section headers, relocations with addend), the calls that fetch them,
//! and what the loader computes from the program headers before it has any
//! memory for the image: how much it needs, and on which alignment.

use elf::endian::LittleEndian;
use elf::section::SectionHeader;
use elf::ElfBytes;
use vstd::prelude::*;

verus! {

/// Type of a segment that is to be loaded into memory.
pub const PT_LOAD: u32 = 1;

/// Type of a section that holds relocations with addend.
pub const SHT_RELA: u32 = 4;

/// Type of the relocation that adds the load address to its addend.
pub const R_X86_64_RELATIVE: u32 = 8;

/// Place of the byte in the header that tells the width of the image.
pub const EI_CLASS: usize = 4;

/// Value of that byte in a 64-bit image.
pub const ELFCLASS64: u8 = 2;

/// The alignment of an image whose segments ask for none.
pub const DEFAULT_ALIGNMENT: usize = 4096;

/// A program header: one segment of the image.
#[derive(Clone, Copy, Debug, PartialEq, Eq, Structural)]
pub struct Segment {
    /// Kind of the segment.
    pub p_type: u32,
    /// Where in the file the bytes of the segment start.
    pub p_offset: u64,
    /// Where in the image's own address space the segment goes.
    pub p_vaddr: u64,
    /// Physical address, where that matters.
    pub p_paddr: u64,
    /// Bytes that the segment has in the file.
    pub p_filesz: u64,
    /// Bytes that the segment takes in memory.
    pub p_memsz: u64,
    /// Access flags of the segment.
    pub p_flags: u32,
    /// Alignment of the segment in file and memory.
    pub p_align: u64,
}

/// A section header.
#[derive(Clone, Copy, Debug, PartialEq, Eq, Structural)]
pub struct Section {
    pub sh_name: u32,
    pub sh_type: u32,
    pub sh_flags: u64,
    pub sh_addr: u64,
    pub sh_offset: u64,
    pub sh_size: u64,
    pub sh_link: u32,
    pub sh_info: u32,
    pub sh_addralign: u64,
    pub sh_entsize: u64,
}

/// A relocation with addend.
#[derive(Clone, Copy, Debug, PartialEq, Eq, Structural)]
pub struct Relocation {
    /// Where in the loaded image the patch goes.
    pub r_offset: u64,
    /// Index of the symbol that the relocation refers to.
    pub r_sym: u32,
    /// Kind of the relocation.
    pub r_type: u32,
    /// The constant that goes into the patched value.
    pub r_addend: i64,
}

/// The entry point in the header of `image`, where `image` parses as a
/// little-endian ELF file.
pub uninterp spec fn elf_entry(image: Seq<u8>) -> Option<u64>;

/// The program headers of `image`, where it parses and has any.
pub uninterp spec fn elf_segments(image: Seq<u8>) -> Option<Seq<Segment>>;

/// The section headers of `image`, where it parses and has any.
pub uninterp spec fn elf_sections(image: Seq<u8>) -> Option<Seq<Section>>;

/// The relocations with addend that `section` of `image` holds, where
/// `image` parses and the section is one of relocations with addend whose
/// bytes lie inside the image.
pub uninterp spec fn elf_relas(image: Seq<u8>, section: Section) -> Option<Seq<Relocation>>;

/// Whether the header of `image` declares a 64-bit image.
pub open spec fn is_elf64(image: Seq<u8>) -> bool {
    image.len() > EI_CLASS && image[EI_CLASS as int] == ELFCLASS64
}

/// Tells whether the header of `image` declares a 64-bit image.
pub fn has_class_64(image: &[u8]) -> (r: bool)
    ensures
        r == is_elf64(image@),
{
    image.len() > EI_CLASS && image[EI_CLASS] == ELFCLASS64
}

/// Calls `ElfBytes::<LittleEndian>::minimal_parse` and reads the entry
/// point off the header it returns. The contract only names the outcome:
/// it is whatever the parser makes of these bytes.
#[verifier::external_body]
pub(crate) fn parse_entry(image: &[u8]) -> (r: Option<u64>)
    ensures
        r == elf_entry(image@),
{
    ElfBytes::<LittleEndian>::minimal_parse(image).ok().map(|elf| elf.ehdr.e_entry)
}

/// Calls `ElfBytes::segments` on the parsed image and hands out each
/// program header that the table yields, field by field. The contract only
/// names the outcome.
#[verifier::external_body]
pub(crate) fn parse_segments(image: &[u8]) -> (r: Option<Vec<Segment>>)
    ensures
        r is Some <==> elf_segments(image@) is Some,
        r matches Some(segments) ==> elf_segments(image@) == Some(segments@),
{
    let elf = ElfBytes::<LittleEndian>::minimal_parse(image).ok()?;
    let table = elf.segments()?;
    let convert = |p: elf::segment::ProgramHeader| Segment {
        p_type: p.p_type, p_offset: p.p_offset, p_vaddr: p.p_vaddr, p_paddr: p.p_paddr,
        p_filesz: p.p_filesz, p_memsz: p.p_memsz, p_flags: p.p_flags, p_align: p.p_align,
    };
    Some(table.iter().map(convert).collect())
}

/// Calls `ElfBytes::section_headers` on the parsed image and hands out
/// each section header that the table yields, field by field. The contract
/// only names the outcome.
#[verifier::external_body]
pub(crate) fn parse_sections(image: &[u8]) -> (r: Option<Vec<Section>>)
    ensures
        r is Some <==> elf_sections(image@) is Some,
        r matches Some(sections) ==> elf_sections(image@) == Some(sections@),
{
    let elf = ElfBytes::<LittleEndian>::minimal_parse(image).ok()?;
    let table = elf.section_headers()?;
    let convert = |s: SectionHeader| Section {
        sh_name: s.sh_name, sh_type: s.sh_type, sh_flags: s.sh_flags, sh_addr: s.sh_addr,
        sh_offset: s.sh_offset, sh_size: s.sh_size, sh_link: s.sh_link, sh_info: s.sh_info,
        sh_addralign: s.sh_addralign, sh_entsize: s.sh_entsize,
    };
    Some(table.iter().map(convert).collect())
}

/// Calls `ElfBytes::section_data_as_relas` on the parsed image for the
/// given section header and hands out each relocation that the iterator
/// yields, field by field. The contract only names the outcome.
#[verifier::external_body]
pub(crate) fn parse_relas(image: &[u8], section: &Section) -> (r: Option<Vec<Relocation>>)
    ensures
        r is Some <==> elf_relas(image@, *section) is Some,
        r matches Some(relas) ==> elf_relas(image@, *section) == Some(relas@),
{
    let elf = ElfBytes::<LittleEndian>::minimal_parse(image).ok()?;
    let s = section;
    let header = SectionHeader {
        sh_name: s.sh_name, sh_type: s.sh_type, sh_flags: s.sh_flags, sh_addr: s.sh_addr,
        sh_offset: s.sh_offset, sh_size: s.sh_size, sh_link: s.sh_link, sh_info: s.sh_info,
        sh_addralign: s.sh_addralign, sh_entsize: s.sh_entsize,
    };
    let relas = elf.section_data_as_relas(&header).ok()?;
    let convert = |r: elf::relocation::Rela| Relocation {
        r_offset: r.r_offset, r_sym: r.r_sym, r_type: r.r_type, r_addend: r.r_addend,
    };
    Some(relas.map(convert).collect())
}

} // verus!
