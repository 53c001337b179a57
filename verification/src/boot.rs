//! The way from the boot manager to the kernel.
//!
//! The loader goes it in two halves, with the machine in between. The
//! first half reads the kernel's needs off the embedded image, sets memory
//! aside for it and builds the page tables. Then the tables are installed,
//! and the memory set aside becomes a buffer. The second half unpacks the
//! kernel into that buffer and works out what the jump into the kernel
//! takes: the handoff structure, the stack pointer and the entry point.

use crate::elf_image::elf_segments;
use crate::handoff::KernelInformation;
use crate::kernel_loader::{
    embedded_image, get_embedded_kernel, holds_kernel, image_entry, kernel_requirements,
    load_kernel, loaded, requirements, KernelRequirements, LoadError,
};
use crate::long_mode::{kernel_entry, KernelEntry};
use crate::multiboot2::{BootInformation, TagView};
use crate::paging::{
    boot_info_range, map_entries, setup_kernel_memory, setup_outcome, KernelMemoryAlloc,
    PageTables, PagingError,
};
use std::ops::Range;
use vstd::prelude::*;

verus! {

/// Why the loader cannot start the kernel.
#[derive(Clone, Copy, Debug, PartialEq, Eq, Structural)]
pub enum BootError {
    /// The loader carries no kernel: the magic number in front of the
    /// image is wrong, or the image is shorter than its header says.
    NoEmbeddedKernel,
    /// The kernel image cannot be read or unpacked.
    Load(LoadError),
    /// No memory can be set up for the kernel.
    Memory(PagingError),
    /// The boot information, the image or the stack lies at a physical
    /// address that the handoff structure has no room for.
    OutOfReach,
    /// The entry point lies beyond the end of the address space.
    EntryOutOfReach,
}

/// What the first half of the way comes to: what the kernel needs, and
/// the memory that was set aside for it.
#[derive(Debug, PartialEq, Eq)]
pub struct BootPlan {
    pub needs: KernelRequirements,
    pub memory: KernelMemoryAlloc,
}

/// The plan for the kernel in `payload`, on a machine whose boot
/// information holds `tags` and lies at `boot_info`.
pub open spec fn planned(
    tags: Seq<TagView>,
    boot_info: Range<usize>,
    payload: Seq<u8>,
    loader_image: Range<usize>,
) -> Result<BootPlan, BootError> {
    if !holds_kernel(payload) {
        Err(BootError::NoEmbeddedKernel)
    } else {
        let image = embedded_image(payload);
        match requirements(image_entry(image), elf_segments(image)) {
            Err(error) => Err(BootError::Load(error)),
            Ok(needs) => match setup_outcome(
                map_entries(tags),
                needs.needed_memory,
                needs.alignment,
                loader_image,
                boot_info,
            ) {
                Err(error) => Err(BootError::Memory(error)),
                Ok(memory) => Ok(BootPlan { needs, memory }),
            },
        }
    }
}

/// The first half: finds the kernel in `payload`, reads off what it
/// needs, sets memory aside for the image and the stack, and builds the
/// page tables. Where anything is amiss the tables are left as they
/// were.
pub fn plan_boot(
    boot_info: &BootInformation<'_>,
    payload: &[u8],
    loader_image: &Range<usize>,
    tables: &mut PageTables,
) -> (r: Result<BootPlan, BootError>)
    ensures
        r == planned(boot_info.spec_tags(), boot_info_range(boot_info), payload@, *loader_image),
        final(tables).same_places(*old(tables)),
        r is Err ==> final(tables).same_entries(*old(tables)),
        r matches Ok(plan) ==> final(tables).built_from(*old(tables), plan.memory),
{
    let image = match get_embedded_kernel(payload) {
        Some(image) => image,
        None => {
            return Err(BootError::NoEmbeddedKernel);
        },
    };
    let needs = match kernel_requirements(image) {
        Ok(needs) => needs,
        Err(error) => {
            return Err(BootError::Load(error));
        },
    };
    match setup_kernel_memory(boot_info, needs.needed_memory, needs.alignment, loader_image, tables) {
        Ok(memory) => Ok(BootPlan { needs, memory }),
        Err(error) => Err(BootError::Memory(error)),
    }
}

/// Whether the handoff structure has room for the physical addresses of
/// the boot information, the kernel image and the stack: each fits into
/// 32 bits.
pub open spec fn fits_handoff(boot_info: usize, memory: KernelMemoryAlloc) -> bool {
    &&& boot_info <= u32::MAX
    &&& memory.kernel.start <= u32::MAX
    &&& memory.kernel.end <= u32::MAX
    &&& memory.stack.start <= u32::MAX
    &&& memory.stack.end <= u32::MAX
}

/// What stops the second half, once the kernel is unpacked: nothing, or
/// an address that is out of reach.
pub open spec fn launch_error(boot_info: usize, plan: BootPlan) -> Option<BootError> {
    if !fits_handoff(boot_info, plan.memory) {
        Some(BootError::OutOfReach)
    } else if plan.memory.kernel_virt.start + plan.needs.entry > u64::MAX {
        Some(BootError::EntryOutOfReach)
    } else {
        None
    }
}

/// The second half: unpacks the kernel in `payload` into `dest`, the
/// memory set aside for the image, relocates it for the address at which
/// the kernel will see it, and works out the handoff structure and the
/// jump into the kernel. The handoff structure is to lie at
/// `handoff_address`.
pub fn finish_boot(
    boot_info: &BootInformation<'_>,
    payload: &[u8],
    plan: &BootPlan,
    dest: &mut [u8],
    handoff_address: u32,
) -> (r: Result<(KernelInformation, KernelEntry), BootError>)
    ensures
        !holds_kernel(payload@) ==> final(dest)@ == old(dest)@ && r == Err::<
            (KernelInformation, KernelEntry),
            BootError,
        >(BootError::NoEmbeddedKernel),
        holds_kernel(payload@) ==> {
            let done = loaded(
                old(dest)@,
                embedded_image(payload@),
                plan.memory.kernel_virt.start,
            );
            &&& final(dest)@ == done.0
            &&& match done.1 {
                Some(error) => r == Err::<(KernelInformation, KernelEntry), BootError>(
                    BootError::Load(error),
                ),
                None => match launch_error(boot_info.spec_address(), *plan) {
                    Some(error) => r == Err::<(KernelInformation, KernelEntry), BootError>(error),
                    None => {
                        &&& r is Ok
                        &&& r->Ok_0.0.spec_boot_info() == boot_info.spec_address()
                        &&& r->Ok_0.0.spec_kernel_phy_range() == plan.memory.kernel
                        &&& r->Ok_0.0.spec_stack_phy_range() == plan.memory.stack
                        &&& r->Ok_0.0.spec_kernel_vrange() == plan.memory.kernel_virt
                        &&& r->Ok_0.0.spec_stack_vrange() == plan.memory.stack_virt
                        &&& r->Ok_0.1 == (KernelEntry {
                            stack_pointer: plan.memory.stack_virt.end,
                            entry_point: (plan.memory.kernel_virt.start + plan.needs.entry) as u64,
                            handoff: handoff_address,
                        })
                    },
                },
            }
        },
{
    let image = match get_embedded_kernel(payload) {
        Some(image) => image,
        None => {
            return Err(BootError::NoEmbeddedKernel);
        },
    };
    match load_kernel(image, dest, plan.memory.kernel_virt.start) {
        Ok(()) => {},
        Err(error) => {
            return Err(BootError::Load(error));
        },
    }
    let limit = u32::MAX as usize;
    let memory = &plan.memory;
    if boot_info.address() > limit || memory.kernel.start > limit || memory.kernel.end > limit
        || memory.stack.start > limit || memory.stack.end > limit {
        return Err(BootError::OutOfReach);
    }
    let entry = match kernel_entry(memory, plan.needs.entry, handoff_address) {
        Some(entry) => entry,
        None => {
            return Err(BootError::EntryOutOfReach);
        },
    };
    let handoff = KernelInformation::new(
        boot_info,
        Range { start: memory.kernel.start, end: memory.kernel.end },
        Range { start: memory.stack.start, end: memory.stack.end },
        Range { start: memory.kernel_virt.start, end: memory.kernel_virt.end },
        Range { start: memory.stack_virt.start, end: memory.stack_virt.end },
    );
    Ok((handoff, entry))
}

} // verus!
