//! Unpacking the kernel.
//!
//! The kernel travels inside the loader: eight bytes of header (a magic
//! number, then the length of what follows) and after them an ELF image.
//! The loader finds out how much memory the image needs, copies its
//! loadable segments to where they belong, and patches the addresses that
//! depend on where the image will be seen once paging is on.

use crate::bytes::{le_u32, read_u32, with_le_u64, write_u64};
use crate::elf_image::{
    elf_entry, elf_relas, elf_sections, elf_segments, has_class_64, is_elf64, parse_entry,
    parse_relas, parse_sections, parse_segments, Relocation, Section, Segment, DEFAULT_ALIGNMENT,
    PT_LOAD, R_X86_64_RELATIVE, SHT_RELA,
};
use vstd::prelude::*;

verus! {

/// The magic number in front of the embedded kernel: the letters `lamb`,
/// read as a little-endian word.
pub const KERNEL_MAGIC: u32 = 0x626d_616c;

/// Bytes taken by the header in front of the embedded kernel.
pub const KERNEL_HEADER_SIZE: usize = 8;

/// Why the kernel could not be unpacked.
#[derive(Clone, Copy, Debug, PartialEq, Eq, Structural)]
pub enum LoadError {
    /// The image does not parse as a little-endian 64-bit ELF file.
    BadImage,
    /// The image has no program headers.
    NoSegments,
    /// The image has no segment to load, or one that ends beyond the reach
    /// of this machine's addresses.
    NoFootprint,
    /// A segment is larger in the file than in memory.
    InvalidSegment,
    /// The bytes of a segment do not lie inside the image.
    SegmentData,
    /// A segment does not fit into the memory set aside for the image.
    SegmentOutOfBounds,
    /// The image has no section headers.
    NoSections,
    /// The relocations of a section cannot be read.
    BadRelocations,
    /// A relocation of a kind other than the relative one, with the kind.
    UnsupportedRelocation(u32),
    /// A relocation that patches outside the loaded image, with its
    /// offset.
    RelocationOutOfBounds(u64),
}

/// Whether `payload` starts with the header of an embedded kernel and
/// holds as many bytes behind it as the header says.
pub open spec fn holds_kernel(payload: Seq<u8>) -> bool {
    &&& payload.len() >= KERNEL_HEADER_SIZE
    &&& le_u32(payload, 0) == KERNEL_MAGIC
    &&& KERNEL_HEADER_SIZE + le_u32(payload, 4) <= payload.len()
}

/// The image in `payload`: the bytes behind the header, as many as the
/// header says.
pub open spec fn embedded_image(payload: Seq<u8>) -> Seq<u8> {
    payload.subrange(KERNEL_HEADER_SIZE as int, KERNEL_HEADER_SIZE + le_u32(payload, 4))
}

/// The embedded kernel image: the bytes behind the header, as many as the
/// header says. Nothing where the magic number is wrong or the payload is
/// shorter than it claims.
pub fn get_embedded_kernel<'a>(payload: &'a [u8]) -> (r: Option<&'a [u8]>)
    ensures
        r is Some <==> holds_kernel(payload@),
        r matches Some(kernel) ==> kernel@ == embedded_image(payload@),
{
    let magic = read_u32(payload, 0);
    let len = read_u32(payload, 4);
    match (magic, len) {
        (Some(magic), Some(len)) => {
            if magic == KERNEL_MAGIC && len as usize <= payload.len() - KERNEL_HEADER_SIZE {
                Some(
                    vstd::slice::slice_subrange(
                        payload,
                        KERNEL_HEADER_SIZE,
                        KERNEL_HEADER_SIZE + len as usize,
                    ),
                )
            } else {
                None
            }
        },
        _ => None,
    }
}

/// Whether a segment is to be loaded.
pub open spec fn loadable(segment: Segment) -> bool {
    segment.p_type == PT_LOAD
}

/// The offset one past the last byte that a segment takes in memory.
pub open spec fn segment_end(segment: Segment) -> int {
    segment.p_vaddr + segment.p_memsz
}

/// The memory that the loadable segments take together: the highest of
/// their ends. Nothing where no segment is loadable.
pub open spec fn footprint(segments: Seq<Segment>) -> Option<int>
    decreases segments.len(),
{
    if segments.len() == 0 {
        None
    } else {
        let rest = footprint(segments.drop_last());
        let last = segments.last();
        if !loadable(last) {
            rest
        } else if rest is Some && rest->0 >= segment_end(last) {
            rest
        } else {
            Some(segment_end(last))
        }
    }
}

/// The footprint is the end of one of the loadable segments, and no
/// loadable segment ends above it; there is none exactly where no segment
/// is loadable.
pub proof fn lemma_footprint(segments: Seq<Segment>)
    ensures
        footprint(segments) is None <==> forall|i: int|
            0 <= i < segments.len() ==> !loadable(#[trigger] segments[i]),
        footprint(segments) matches Some(top) ==> {
            &&& exists|i: int|
                0 <= i < segments.len() && loadable(#[trigger] segments[i]) && segment_end(
                    segments[i],
                ) == top
            &&& forall|i: int|
                0 <= i < segments.len() && loadable(#[trigger] segments[i]) ==> segment_end(
                    segments[i],
                ) <= top
        },
    decreases segments.len(),
{
    if segments.len() > 0 {
        let front = segments.drop_last();
        lemma_footprint(front);
        assert forall|i: int| 0 <= i < front.len() implies front[i] == segments[i] by {}
        let last = segments.len() - 1;
        if footprint(segments) is Some {
            let top = footprint(segments)->0;
            if loadable(segments.last()) && top == segment_end(segments.last()) {
                assert(loadable(segments[last]) && segment_end(segments[last]) == top);
            } else {
                let i = choose|i: int|
                    0 <= i < front.len() && loadable(#[trigger] front[i]) && segment_end(front[i])
                        == top;
                assert(loadable(segments[i]) && segment_end(segments[i]) == top);
            }
            assert forall|i: int|
                0 <= i < segments.len() && loadable(#[trigger] segments[i]) implies segment_end(
                segments[i],
            ) <= top by {
                if i < last {
                    assert(loadable(front[i]));
                }
            }
        } else {
            assert forall|i: int| 0 <= i < segments.len() implies !loadable(
                #[trigger] segments[i],
            ) by {
                if i < last {
                    assert(!loadable(front[i]));
                }
            }
        }
    }
}

/// The memory that the image needs: the footprint of its loadable
/// segments, where there is one within reach of this machine's addresses.
pub fn required_memory(segments: &[Segment]) -> (r: Option<usize>)
    ensures
        r == (match footprint(segments@) {
            Some(top) => if top <= usize::MAX {
                Some(top as usize)
            } else {
                None
            },
            None => None,
        }),
{
    let mut best: Option<u64> = None;
    let mut beyond = false;
    let mut i: usize = 0;
    while i < segments.len()
        invariant
            i <= segments@.len(),
            match footprint(segments@.take(i as int)) {
                Some(top) => top >= 0 && (if top > u64::MAX {
                    beyond
                } else {
                    !beyond && best == Some(top as u64)
                }),
                None => !beyond && best is None,
            },
        decreases segments@.len() - i,
    {
        let segment = segments[i];
        proof {
            assert(segments@.take(i + 1).drop_last() =~= segments@.take(i as int));
            assert(segments@.take(i + 1).last() == segment);
        }
        if segment.p_type == PT_LOAD {
            match segment.p_vaddr.checked_add(segment.p_memsz) {
                Some(end) => {
                    let higher = match best {
                        Some(top) => end > top,
                        None => true,
                    };
                    if !beyond && higher {
                        best = Some(end);
                    }
                },
                None => {
                    beyond = true;
                },
            }
        }
        i += 1;
    }
    proof {
        assert(segments@.take(i as int) =~= segments@);
    }
    if beyond {
        return None;
    }
    match best {
        Some(top) => if top <= usize::MAX as u64 {
            Some(top as usize)
        } else {
            None
        },
        None => None,
    }
}

/// The alignment that the image asks for: the highest alignment of a
/// loadable segment that is an address of this machine, and 4096 at the
/// least.
pub open spec fn alignment(segments: Seq<Segment>) -> int
    decreases segments.len(),
{
    if segments.len() == 0 {
        DEFAULT_ALIGNMENT as int
    } else {
        let rest = alignment(segments.drop_last());
        let last = segments.last();
        if loadable(last) && last.p_align <= usize::MAX && last.p_align > rest {
            last.p_align as int
        } else {
            rest
        }
    }
}

/// The alignment that the image asks for.
pub fn required_alignment(segments: &[Segment]) -> (r: usize)
    ensures
        r == alignment(segments@),
        r >= DEFAULT_ALIGNMENT,
{
    let mut best: usize = DEFAULT_ALIGNMENT;
    let mut i: usize = 0;
    while i < segments.len()
        invariant
            i <= segments@.len(),
            best == alignment(segments@.take(i as int)),
            best >= DEFAULT_ALIGNMENT,
        decreases segments@.len() - i,
    {
        let segment = segments[i];
        proof {
            assert(segments@.take(i + 1).drop_last() =~= segments@.take(i as int));
            assert(segments@.take(i + 1).last() == segment);
        }
        if segment.p_type == PT_LOAD && segment.p_align <= usize::MAX as u64 && segment.p_align
            > best as u64 {
            best = segment.p_align as usize;
        }
        i += 1;
    }
    proof {
        assert(segments@.take(i as int) =~= segments@);
    }
    best
}

/// The entry point of `image`, where `image` is a 64-bit image that
/// parses.
pub open spec fn image_entry(image: Seq<u8>) -> Option<u64> {
    if is_elf64(image) {
        elf_entry(image)
    } else {
        None
    }
}

/// Reads the entry point of a 64-bit image.
fn entry_of(image: &[u8]) -> (r: Option<u64>)
    ensures
        r == image_entry(image@),
{
    if has_class_64(image) {
        parse_entry(image)
    } else {
        None
    }
}

/// What the loader has to know of the kernel before it can place it.
#[derive(Clone, Copy, Debug, PartialEq, Eq, Structural)]
pub struct KernelRequirements {
    /// Bytes of memory that the unpacked image takes.
    pub needed_memory: usize,
    /// Alignment that the image asks for.
    pub alignment: usize,
    /// Entry point, as an offset from where the image is loaded.
    pub entry: u64,
}

/// What an image with the given entry point and program headers needs.
pub open spec fn requirements(entry: Option<u64>, segments: Option<Seq<Segment>>) -> Result<
    KernelRequirements,
    LoadError,
> {
    if entry is None {
        Err(LoadError::BadImage)
    } else if segments is None {
        Err(LoadError::NoSegments)
    } else if footprint(segments->0) is None || footprint(segments->0)->0 > usize::MAX {
        Err(LoadError::NoFootprint)
    } else {
        Ok(
            KernelRequirements {
                needed_memory: footprint(segments->0)->0 as usize,
                alignment: alignment(segments->0) as usize,
                entry: entry->0,
            },
        )
    }
}

/// Works out what a parsed image needs, from its entry point and its
/// program headers.
pub fn requirements_of(entry: Option<u64>, segments: Option<&[Segment]>) -> (r: Result<
    KernelRequirements,
    LoadError,
>)
    ensures
        r == requirements(
            entry,
            match segments {
                Some(segments) => Some(segments@),
                None => None,
            },
        ),
        r matches Ok(needs) ==> needs.alignment >= DEFAULT_ALIGNMENT,
{
    let entry = match entry {
        Some(entry) => entry,
        None => {
            return Err(LoadError::BadImage);
        },
    };
    let segments = match segments {
        Some(segments) => segments,
        None => {
            return Err(LoadError::NoSegments);
        },
    };
    match required_memory(segments) {
        Some(needed_memory) => Ok(
            KernelRequirements { needed_memory, alignment: required_alignment(segments), entry },
        ),
        None => Err(LoadError::NoFootprint),
    }
}

/// Parses the image and works out what it needs.
pub fn kernel_requirements(image: &[u8]) -> (r: Result<KernelRequirements, LoadError>)
    ensures
        r == requirements(image_entry(image@), elf_segments(image@)),
        r matches Ok(needs) ==> needs.alignment >= DEFAULT_ALIGNMENT,
{
    let entry = entry_of(image);
    match parse_segments(image) {
        Some(segments) => requirements_of(entry, Some(segments.as_slice())),
        None => requirements_of(entry, None),
    }
}

/// The bytes that a segment has in the file: `p_filesz` bytes from
/// `p_offset` on, where they lie inside the image.
pub fn segment_data<'a>(image: &'a [u8], segment: &Segment) -> (r: Option<&'a [u8]>)
    ensures
        r is Some <==> segment.p_offset + segment.p_filesz <= image@.len(),
        r matches Some(data) ==> data@ == image@.subrange(
            segment.p_offset as int,
            segment.p_offset + segment.p_filesz,
        ),
{
    let len = image.len() as u64;
    if segment.p_offset > len || segment.p_filesz > len - segment.p_offset {
        return None;
    }
    let start = segment.p_offset as usize;
    let end = start + segment.p_filesz as usize;
    Some(vstd::slice::slice_subrange(image, start, end))
}

/// What is wrong with a segment, if anything: its bytes lie outside the
/// image, it is larger in the file than in memory, or it does not fit into
/// the memory set aside. A segment that is not to be loaded is never at
/// fault.
pub open spec fn segment_error(image_len: int, dest_len: int, segment: Segment) -> Option<
    LoadError,
> {
    if !loadable(segment) {
        None
    } else if segment.p_offset + segment.p_filesz > image_len {
        Some(LoadError::SegmentData)
    } else if segment.p_memsz < segment.p_filesz {
        Some(LoadError::InvalidSegment)
    } else if segment.p_vaddr + segment.p_memsz > dest_len {
        Some(LoadError::SegmentOutOfBounds)
    } else {
        None
    }
}

/// The memory once a segment is in place: from `p_vaddr` on come the
/// `p_filesz` bytes of the file, after them zeroes up to `p_memsz`, and
/// everything else is as before. A segment that is not to be loaded
/// changes nothing.
pub open spec fn placed(dest: Seq<u8>, image: Seq<u8>, segment: Segment) -> Seq<u8> {
    if !loadable(segment) {
        dest
    } else {
        Seq::new(
            dest.len(),
            |at: int|
                if segment.p_vaddr <= at < segment.p_vaddr + segment.p_filesz {
                    image[segment.p_offset + at - segment.p_vaddr]
                } else if segment.p_vaddr + segment.p_filesz <= at < segment.p_vaddr
                    + segment.p_memsz {
                    0u8
                } else {
                    dest[at]
                },
        )
    }
}

/// The memory once the segments are placed one after the other, up to the
/// first that is at fault, and the fault of that one.
pub open spec fn place_all(dest: Seq<u8>, image: Seq<u8>, segments: Seq<Segment>) -> (
    Seq<u8>,
    Option<LoadError>,
)
    decreases segments.len(),
{
    if segments.len() == 0 {
        (dest, None)
    } else {
        let (memory, error) = place_all(dest, image, segments.drop_last());
        if error is Some {
            (memory, error)
        } else {
            match segment_error(image.len() as int, memory.len() as int, segments.last()) {
                Some(error) => (memory, Some(error)),
                None => (placed(memory, image, segments.last()), None),
            }
        }
    }
}

/// What a run that stopped at `error`, if at any, returns.
pub open spec fn outcome(error: Option<LoadError>) -> Result<(), LoadError> {
    match error {
        Some(error) => Err(error),
        None => Ok(()),
    }
}

/// Placing segments leaves the memory as long as it was.
pub proof fn lemma_place_all_len(dest: Seq<u8>, image: Seq<u8>, segments: Seq<Segment>)
    ensures
        place_all(dest, image, segments).0.len() == dest.len(),
    decreases segments.len(),
{
    if segments.len() > 0 {
        lemma_place_all_len(dest, image, segments.drop_last());
    }
}

/// Puts one segment in place, or says what is wrong with it.
fn place_segment(dest: &mut [u8], image: &[u8], segment: &Segment) -> (r: Result<(), LoadError>)
    ensures
        match segment_error(image@.len() as int, old(dest)@.len() as int, *segment) {
            Some(error) => r == Err::<(), LoadError>(error) && final(dest)@ == old(dest)@,
            None => r == Ok::<(), LoadError>(()) && final(dest)@ == placed(
                old(dest)@,
                image@,
                *segment,
            ),
        },
{
    if segment.p_type != PT_LOAD {
        return Ok(());
    }
    let data = match segment_data(image, segment) {
        Some(data) => data,
        None => {
            return Err(LoadError::SegmentData);
        },
    };
    if segment.p_memsz < segment.p_filesz {
        return Err(LoadError::InvalidSegment);
    }
    let len = dest.len();
    if segment.p_vaddr > len as u64 || segment.p_memsz > len as u64 - segment.p_vaddr {
        return Err(LoadError::SegmentOutOfBounds);
    }
    let vaddr = segment.p_vaddr as usize;
    let filesz = segment.p_filesz as usize;
    let memsz = segment.p_memsz as usize;
    let ghost before = dest@;
    let mut i: usize = 0;
    while i < memsz
        invariant
            i <= memsz,
            filesz <= memsz,
            vaddr + memsz <= len,
            dest@.len() == len,
            before.len() == len,
            data@.len() == filesz,
            forall|at: int| 0 <= at < len && !(vaddr <= at < vaddr + i) ==> dest@[at] == before[at],
            forall|at: int| vaddr <= at < vaddr + i && at < vaddr + filesz ==> dest@[at] == data@[at - vaddr],
            forall|at: int| vaddr <= at < vaddr + i && at >= vaddr + filesz ==> dest@[at] == 0,
        decreases memsz - i,
    {
        if i < filesz {
            dest[vaddr + i] = data[i];
        } else {
            dest[vaddr + i] = 0;
        }
        i += 1;
    }
    proof {
        assert(dest@ =~= placed(before, image@, *segment));
    }
    Ok(())
}

/// Puts the loadable segments in place, in the order of `segments`: for
/// each, the bytes of the file go to `p_vaddr`, and zeroes fill what the
/// segment takes in memory beyond them. The first segment that is at
/// fault stops the run; those in front of it are in place by then.
pub fn load_segments(dest: &mut [u8], image: &[u8], segments: &[Segment]) -> (r: Result<
    (),
    LoadError,
>)
    ensures
        final(dest)@ == place_all(old(dest)@, image@, segments@).0,
        r == outcome(place_all(old(dest)@, image@, segments@).1),
{
    let mut i: usize = 0;
    while i < segments.len()
        invariant
            i <= segments@.len(),
            (dest@, None::<LoadError>) == place_all(old(dest)@, image@, segments@.take(i as int)),
        decreases segments@.len() - i,
    {
        proof {
            assert(segments@.take(i + 1).drop_last() =~= segments@.take(i as int));
            assert(segments@.take(i + 1).last() == segments@[i as int]);
        }
        match place_segment(dest, image, &segments[i]) {
            Ok(()) => {},
            Err(error) => {
                proof {
                    lemma_place_all_stops(old(dest)@, image@, segments@, i + 1);
                }
                return Err(error);
            },
        }
        i += 1;
    }
    proof {
        assert(segments@.take(i as int) =~= segments@);
    }
    Ok(())
}

/// A run that is at fault after `n` segments stays as it is whatever
/// follows.
pub proof fn lemma_place_all_stops(dest: Seq<u8>, image: Seq<u8>, segments: Seq<Segment>, n: int)
    requires
        0 <= n <= segments.len(),
        place_all(dest, image, segments.take(n)).1 is Some,
    ensures
        place_all(dest, image, segments) == place_all(dest, image, segments.take(n)),
    decreases segments.len() - n,
{
    if n < segments.len() {
        assert(segments.take(n + 1).drop_last() =~= segments.take(n));
        lemma_place_all_stops(dest, image, segments, n + 1);
    } else {
        assert(segments.take(n) =~= segments);
    }
}

/// The value that a relative relocation patches in: the load address plus
/// the addend, in 64-bit arithmetic that wraps around.
pub open spec fn relocated_value(load_address: u64, addend: i64) -> u64 {
    if load_address + addend > u64::MAX {
        (load_address + addend - 0x1_0000_0000_0000_0000) as u64
    } else if load_address + addend < 0 {
        (load_address + addend + 0x1_0000_0000_0000_0000) as u64
    } else {
        (load_address + addend) as u64
    }
}

/// What is wrong with a relocation, if anything: it is of a kind other
/// than the relative one, or its eight bytes do not lie inside the memory.
pub open spec fn relocation_error(dest_len: int, relocation: Relocation) -> Option<LoadError> {
    if relocation.r_type != R_X86_64_RELATIVE {
        Some(LoadError::UnsupportedRelocation(relocation.r_type))
    } else if relocation.r_offset + 8 > dest_len {
        Some(LoadError::RelocationOutOfBounds(relocation.r_offset))
    } else {
        None
    }
}

/// The memory once a relocation is applied: the eight bytes at `r_offset`
/// hold the relocated value in little-endian form.
pub open spec fn patched(dest: Seq<u8>, relocation: Relocation, load_address: u64) -> Seq<u8> {
    with_le_u64(
        dest,
        relocation.r_offset as int,
        relocated_value(load_address, relocation.r_addend),
    )
}

/// The memory once the relocations are applied one after the other, up to
/// the first that is at fault, and the fault of that one.
pub open spec fn patch_all(dest: Seq<u8>, relocations: Seq<Relocation>, load_address: u64) -> (
    Seq<u8>,
    Option<LoadError>,
)
    decreases relocations.len(),
{
    if relocations.len() == 0 {
        (dest, None)
    } else {
        let (memory, error) = patch_all(dest, relocations.drop_last(), load_address);
        if error is Some {
            (memory, error)
        } else {
            match relocation_error(memory.len() as int, relocations.last()) {
                Some(error) => (memory, Some(error)),
                None => (patched(memory, relocations.last(), load_address), None),
            }
        }
    }
}

/// A run that is at fault after `n` relocations stays as it is whatever
/// follows.
pub proof fn lemma_patch_all_stops(
    dest: Seq<u8>,
    relocations: Seq<Relocation>,
    load_address: u64,
    n: int,
)
    requires
        0 <= n <= relocations.len(),
        patch_all(dest, relocations.take(n), load_address).1 is Some,
    ensures
        patch_all(dest, relocations, load_address) == patch_all(
            dest,
            relocations.take(n),
            load_address,
        ),
    decreases relocations.len() - n,
{
    if n < relocations.len() {
        assert(relocations.take(n + 1).drop_last() =~= relocations.take(n));
        lemma_patch_all_stops(dest, relocations, load_address, n + 1);
    } else {
        assert(relocations.take(n) =~= relocations);
    }
}

/// Patching leaves the memory as long as it was.
pub proof fn lemma_patch_all_len(dest: Seq<u8>, relocations: Seq<Relocation>, load_address: u64)
    ensures
        patch_all(dest, relocations, load_address).0.len() == dest.len(),
    decreases relocations.len(),
{
    if relocations.len() > 0 {
        lemma_patch_all_len(dest, relocations.drop_last(), load_address);
    }
}

/// A patched value reads back: the eight bytes at the offset of an
/// applied relocation hold the load address plus the addend, and every
/// other byte is as it was.
pub proof fn lemma_patched_reads_back(dest: Seq<u8>, relocation: Relocation, load_address: u64)
    requires
        relocation_error(dest.len() as int, relocation) is None,
    ensures
        patched(dest, relocation, load_address).len() == dest.len(),
        crate::bytes::le_u64(patched(dest, relocation, load_address), relocation.r_offset as int)
            == relocated_value(load_address, relocation.r_addend),
        forall|i: int|
            0 <= i < dest.len() && !(relocation.r_offset <= i < relocation.r_offset + 8)
                ==> patched(dest, relocation, load_address)[i] == dest[i],
{
    crate::bytes::lemma_with_le_u64(
        dest,
        relocation.r_offset as int,
        relocated_value(load_address, relocation.r_addend),
    );
}

/// Applies one relocation, or says what is wrong with it.
fn apply_relocation(dest: &mut [u8], relocation: &Relocation, load_address: u64) -> (r: Result<
    (),
    LoadError,
>)
    ensures
        match relocation_error(old(dest)@.len() as int, *relocation) {
            Some(error) => r == Err::<(), LoadError>(error) && final(dest)@ == old(dest)@,
            None => r == Ok::<(), LoadError>(()) && final(dest)@ == patched(
                old(dest)@,
                *relocation,
                load_address,
            ),
        },
{
    if relocation.r_type != R_X86_64_RELATIVE {
        return Err(LoadError::UnsupportedRelocation(relocation.r_type));
    }
    let len = dest.len() as u64;
    if len < 8 || relocation.r_offset > len - 8 {
        return Err(LoadError::RelocationOutOfBounds(relocation.r_offset));
    }
    let computed_value = load_address.wrapping_add_signed(relocation.r_addend);
    write_u64(dest, relocation.r_offset as usize, computed_value);
    Ok(())
}

/// Applies the relocations in the order given. Each has to be of the
/// relative kind: the eight bytes at its offset then get the load address
/// plus its addend, in little-endian form. The first relocation that is at
/// fault stops the run; those in front of it are applied by then.
pub fn apply_relocations(dest: &mut [u8], relocations: &[Relocation], load_address: u64) -> (r:
    Result<(), LoadError>)
    ensures
        final(dest)@ == patch_all(old(dest)@, relocations@, load_address).0,
        r == outcome(patch_all(old(dest)@, relocations@, load_address).1),
{
    let mut i: usize = 0;
    while i < relocations.len()
        invariant
            i <= relocations@.len(),
            (dest@, None::<LoadError>) == patch_all(
                old(dest)@,
                relocations@.take(i as int),
                load_address,
            ),
        decreases relocations@.len() - i,
    {
        proof {
            assert(relocations@.take(i + 1).drop_last() =~= relocations@.take(i as int));
            assert(relocations@.take(i + 1).last() == relocations@[i as int]);
        }
        match apply_relocation(dest, &relocations[i], load_address) {
            Ok(()) => {},
            Err(error) => {
                proof {
                    lemma_patch_all_stops(old(dest)@, relocations@, load_address, i + 1);
                }
                return Err(error);
            },
        }
        i += 1;
    }
    proof {
        assert(relocations@.take(i as int) =~= relocations@);
    }
    Ok(())
}

/// The memory once an image with the given entry point and program
/// headers is unpacked into it, and what stopped the unpacking, if
/// anything did.
pub open spec fn unpacked(
    dest: Seq<u8>,
    image: Seq<u8>,
    entry: Option<u64>,
    segments: Option<Seq<Segment>>,
) -> (Seq<u8>, Option<LoadError>) {
    if entry is None {
        (dest, Some(LoadError::BadImage))
    } else if segments is None {
        (dest, Some(LoadError::NoSegments))
    } else {
        place_all(dest, image, segments->0)
    }
}

/// Parses the image and puts its loadable segments in place.
pub fn unpack_kernel(image: &[u8], dest: &mut [u8]) -> (r: Result<(), LoadError>)
    ensures
        final(dest)@ == unpacked(old(dest)@, image@, image_entry(image@), elf_segments(image@)).0,
        r == outcome(unpacked(old(dest)@, image@, image_entry(image@), elf_segments(image@)).1),
{
    if entry_of(image).is_none() {
        return Err(LoadError::BadImage);
    }
    match parse_segments(image) {
        Some(segments) => load_segments(dest, image, segments.as_slice()),
        None => Err(LoadError::NoSegments),
    }
}

/// What was read of each section, as plain values.
pub open spec fn read_views(relocations: Seq<Option<Vec<Relocation>>>) -> Seq<
    Option<Seq<Relocation>>,
> {
    Seq::new(
        relocations.len(),
        |i: int|
            match relocations[i] {
                Some(list) => Some(list@),
                None => None,
            },
    )
}

/// The memory once the relocations of the given sections are applied,
/// section by section, and what stopped the run, if anything did. Only
/// sections of relocations with addend count, in their order; `read`
/// holds for each section the relocations that were read from it, or
/// nothing where they could not be read, which is a fault of its own.
/// What `read` holds for a section of another kind is passed over.
pub open spec fn relocated_with(
    dest: Seq<u8>,
    sections: Seq<Section>,
    read: Seq<Option<Seq<Relocation>>>,
    load_address: u64,
) -> (Seq<u8>, Option<LoadError>)
    decreases sections.len(),
{
    if sections.len() == 0 {
        (dest, None)
    } else {
        let last = sections.len() - 1;
        let (memory, error) = relocated_with(
            dest,
            sections.drop_last(),
            read.take(last),
            load_address,
        );
        if error is Some {
            (memory, error)
        } else if sections.last().sh_type != SHT_RELA {
            (memory, None)
        } else {
            match read[last] {
                Some(relocations) => patch_all(memory, relocations, load_address),
                None => (memory, Some(LoadError::BadRelocations)),
            }
        }
    }
}

/// A run that is at fault after `n` sections stays as it is whatever
/// follows.
pub proof fn lemma_relocated_with_stops(
    dest: Seq<u8>,
    sections: Seq<Section>,
    read: Seq<Option<Seq<Relocation>>>,
    load_address: u64,
    n: int,
)
    requires
        0 <= n <= sections.len(),
        sections.len() == read.len(),
        relocated_with(dest, sections.take(n), read.take(n), load_address).1 is Some,
    ensures
        relocated_with(dest, sections, read, load_address) == relocated_with(
            dest,
            sections.take(n),
            read.take(n),
            load_address,
        ),
    decreases sections.len() - n,
{
    if n < sections.len() {
        assert(sections.take(n + 1).drop_last() =~= sections.take(n));
        assert(read.take(n + 1).take(n) =~= read.take(n));
        lemma_relocated_with_stops(dest, sections, read, load_address, n + 1);
    } else {
        assert(sections.take(n) =~= sections);
        assert(read.take(n) =~= read);
    }
}

/// Applies the relocations of the given sections, section by section in
/// the order of `sections`. Only sections of relocations with addend
/// count. For each of them `relocations` holds, at the same place, what
/// was read from it: its relocations, which are applied as
/// `apply_relocations` does, or nothing where the section could not be
/// read, which stops the run. The first fault stops the run; what is in
/// front of it is applied by then.
pub fn relocate_sections(
    dest: &mut [u8],
    sections: &[Section],
    relocations: &[Option<Vec<Relocation>>],
    load_address: u64,
) -> (r: Result<(), LoadError>)
    requires
        sections@.len() == relocations@.len(),
    ensures
        final(dest)@ == relocated_with(
            old(dest)@,
            sections@,
            read_views(relocations@),
            load_address,
        ).0,
        r == outcome(
            relocated_with(old(dest)@, sections@, read_views(relocations@), load_address).1,
        ),
{
    let ghost read = read_views(relocations@);
    let mut i: usize = 0;
    while i < sections.len()
        invariant
            i <= sections@.len(),
            sections@.len() == relocations@.len(),
            read == read_views(relocations@),
            (dest@, None::<LoadError>) == relocated_with(
                old(dest)@,
                sections@.take(i as int),
                read.take(i as int),
                load_address,
            ),
        decreases sections@.len() - i,
    {
        proof {
            assert(sections@.take(i + 1).drop_last() =~= sections@.take(i as int));
            assert(sections@.take(i + 1).last() == sections@[i as int]);
            assert(read.take(i + 1).take(i as int) =~= read.take(i as int));
            assert(read.take(i + 1)[i as int] == read[i as int]);
        }
        if sections[i].sh_type == SHT_RELA {
            let applied = match &relocations[i] {
                Some(list) => apply_relocations(dest, list.as_slice(), load_address),
                None => Err(LoadError::BadRelocations),
            };
            match applied {
                Ok(()) => {},
                Err(error) => {
                    proof {
                        lemma_relocated_with_stops(
                            old(dest)@,
                            sections@,
                            read,
                            load_address,
                            i + 1,
                        );
                    }
                    return Err(error);
                },
            }
        }
        i += 1;
    }
    proof {
        assert(sections@.take(i as int) =~= sections@);
        assert(read.take(i as int) =~= read);
    }
    Ok(())
}

/// What the parser reads of each of the given sections of `image`: the
/// relocations of a section of relocations with addend, and nothing of any
/// other, which is not read at all.
pub open spec fn read_of(image: Seq<u8>, sections: Seq<Section>) -> Seq<Option<Seq<Relocation>>> {
    Seq::new(
        sections.len(),
        |i: int|
            if sections[i].sh_type == SHT_RELA {
                elf_relas(image, sections[i])
            } else {
                None
            },
    )
}

/// The memory once the relocations of the given sections of `image` are
/// applied, and what stopped the run, if anything did. The relocations of
/// a section are what the parser reads from it.
pub open spec fn relocated_sections(
    dest: Seq<u8>,
    image: Seq<u8>,
    sections: Seq<Section>,
    load_address: u64,
) -> (Seq<u8>, Option<LoadError>) {
    relocated_with(dest, sections, read_of(image, sections), load_address)
}

/// The memory once the relocations of an image with the given section
/// headers are applied, and what stopped the run, if anything did.
pub open spec fn relocated(
    dest: Seq<u8>,
    image: Seq<u8>,
    entry: Option<u64>,
    sections: Option<Seq<Section>>,
    load_address: u64,
) -> (Seq<u8>, Option<LoadError>) {
    if entry is None {
        (dest, Some(LoadError::BadImage))
    } else if sections is None {
        (dest, Some(LoadError::NoSections))
    } else {
        relocated_sections(dest, image, sections->0, load_address)
    }
}

/// Parses the image, reads the relocations of each of its sections of
/// relocations with addend, and applies them as `relocate_sections` does,
/// for an image that will be seen at `load_address`.
pub fn relocate_kernel(image: &[u8], dest: &mut [u8], load_address: u64) -> (r: Result<
    (),
    LoadError,
>)
    ensures
        final(dest)@ == relocated(
            old(dest)@,
            image@,
            image_entry(image@),
            elf_sections(image@),
            load_address,
        ).0,
        r == outcome(
            relocated(old(dest)@, image@, image_entry(image@), elf_sections(image@), load_address).1,
        ),
{
    if entry_of(image).is_none() {
        return Err(LoadError::BadImage);
    }
    let sections = match parse_sections(image) {
        Some(sections) => sections,
        None => {
            return Err(LoadError::NoSections);
        },
    };
    let mut read: Vec<Option<Vec<Relocation>>> = Vec::new();
    let mut i: usize = 0;
    while i < sections.len()
        invariant
            i <= sections@.len(),
            read@.len() == i,
            forall|j: int|
                0 <= j < i ==> read_views(read@)[j] == #[trigger] read_of(image@, sections@)[j],
        decreases sections@.len() - i,
    {
        let ghost before = read@;
        if sections[i].sh_type == SHT_RELA {
            read.push(parse_relas(image, &sections[i]));
        } else {
            read.push(None);
        }
        proof {
            assert forall|j: int| 0 <= j < i + 1 implies read_views(read@)[j] == #[trigger] read_of(
                image@,
                sections@,
            )[j] by {
                if j < i {
                    assert(read@[j] == before[j]);
                    assert(read_views(before)[j] == read_of(image@, sections@)[j]);
                }
            }
        }
        i += 1;
    }
    proof {
        assert(read_views(read@) =~= read_of(image@, sections@));
    }
    relocate_sections(dest, sections.as_slice(), read.as_slice(), load_address)
}

/// The memory once the kernel is unpacked and relocated, and what stopped
/// the loader, if anything did.
pub open spec fn loaded(dest: Seq<u8>, image: Seq<u8>, load_address: u64) -> (
    Seq<u8>,
    Option<LoadError>,
) {
    let (memory, error) = unpacked(dest, image, image_entry(image), elf_segments(image));
    if error is Some {
        (memory, error)
    } else {
        relocated(memory, image, image_entry(image), elf_sections(image), load_address)
    }
}

/// Unpacks the kernel image into `dest` and relocates it for
/// `load_address`, the address at which the kernel will see the start of
/// `dest`.
pub fn load_kernel(image: &[u8], dest: &mut [u8], load_address: u64) -> (r: Result<(), LoadError>)
    ensures
        final(dest)@ == loaded(old(dest)@, image@, load_address).0,
        r == outcome(loaded(old(dest)@, image@, load_address).1),
{
    match unpack_kernel(image, dest) {
        Ok(()) => relocate_kernel(image, dest, load_address),
        Err(error) => Err(error),
    }
}

} // verus!
