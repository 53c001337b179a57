//! The switch to long mode.
//!
//! Five things have to happen, in this order and with interrupts off:
//! physical address extension and global pages are switched on, long mode
//! is enabled in the extended feature register, paging is switched on, a
//! far jump loads the 64-bit code segment, and the kernel is entered on
//! its own stack. Out of order the processor faults beyond recovery, so
//! the order is kept here, where it can be checked: the program around
//! this library asks for the next step, performs it, and reports it done.

use crate::cpu::MSR;
use crate::gdt::GlobalDescriptorTable;
use crate::paging::KernelMemoryAlloc;
use vstd::prelude::*;

verus! {

/// Number of the extended feature register.
pub const EFER: u32 = 0xc000_0080;

/// Bit of the fourth control register that switches physical address
/// extension on.
pub const CR4_PAE: u32 = 0x20;

/// Bit of the fourth control register that switches global pages on.
pub const CR4_PGE: u32 = 0x80;

/// Bit of the extended feature register that enables long mode.
pub const EFER_LME: u32 = 0x100;

/// Bit of the control register zero that switches paging on.
pub const CR0_PG: u32 = 0x8000_0000;

/// Number of steps that the switch takes.
pub const STEPS: u8 = 5;

/// The fourth control register with physical address extension and global
/// pages switched on.
pub fn enable_pae(cr4: u32) -> (r: u32)
    ensures
        r == cr4 | CR4_PAE | CR4_PGE,
{
    cr4 | CR4_PAE | CR4_PGE
}

/// The extended feature register with long mode enabled.
pub fn enable_long_mode(efer: MSR) -> (r: MSR)
    ensures
        r.low == efer.low | EFER_LME,
        r.high == efer.high,
{
    MSR { low: efer.low | EFER_LME, high: efer.high }
}

/// The control register zero with paging switched on.
pub fn enable_paging(cr0: u32) -> (r: u32)
    ensures
        r == cr0 | CR0_PG,
{
    cr0 | CR0_PG
}

/// Setting a bit of a register leaves it set and changes no other bit,
/// and setting it again changes nothing.
pub proof fn lemma_bit_set(register: u32, bit: u32)
    ensures
        (register | bit) & bit == bit,
        (register | bit) & !bit == register & !bit,
        (register | bit) | bit == register | bit,
{
    assert((register | bit) & bit == bit) by (bit_vector);
    assert((register | bit) & !bit == register & !bit) by (bit_vector);
    assert((register | bit) | bit == register | bit) by (bit_vector);
}

/// The registers that the switch changes.
#[derive(Clone, Copy, Debug, PartialEq, Eq, Structural)]
pub struct ControlRegisters {
    pub cr0: u32,
    pub cr4: u32,
    pub efer: MSR,
}

/// Whether the registers allow paging to be switched on: physical address
/// extension is on, and long mode is enabled.
pub open spec fn prepared_for_paging(registers: ControlRegisters) -> bool {
    registers.cr4 & CR4_PAE == CR4_PAE && registers.efer.low & EFER_LME == EFER_LME
}

/// Whether paging is on.
pub open spec fn paging_on(registers: ControlRegisters) -> bool {
    registers.cr0 & CR0_PG == CR0_PG
}

/// One step of the switch.
#[derive(Clone, Copy, Debug, PartialEq, Eq, Structural)]
pub enum TransitionStep {
    /// Switch on physical address extension and global pages.
    EnablePae,
    /// Enable long mode in the extended feature register.
    EnableLongMode,
    /// Switch on paging, which puts the page tables to work.
    EnablePaging,
    /// Jump far, to load the code segment with the given selector.
    FarJump(u32),
    /// Clear the frame pointer, load the stack pointer, and jump to the
    /// kernel.
    EnterKernel,
}

/// The step that comes after `done` steps, if any does.
pub open spec fn step_after(done: int) -> Option<TransitionStep> {
    if done == 0 {
        Some(TransitionStep::EnablePae)
    } else if done == 1 {
        Some(TransitionStep::EnableLongMode)
    } else if done == 2 {
        Some(TransitionStep::EnablePaging)
    } else if done == 3 {
        Some(TransitionStep::FarJump(GlobalDescriptorTable::GDT_CODE64))
    } else if done == 4 {
        Some(TransitionStep::EnterKernel)
    } else {
        None
    }
}

/// The registers once `step` is performed. The two jumps change none of
/// them.
pub open spec fn registers_after(step: TransitionStep, registers: ControlRegisters) -> ControlRegisters {
    match step {
        TransitionStep::EnablePae => ControlRegisters {
            cr4: registers.cr4 | CR4_PAE | CR4_PGE,
            ..registers
        },
        TransitionStep::EnableLongMode => ControlRegisters {
            efer: MSR { low: registers.efer.low | EFER_LME, high: registers.efer.high },
            ..registers
        },
        TransitionStep::EnablePaging => ControlRegisters {
            cr0: registers.cr0 | CR0_PG,
            ..registers
        },
        TransitionStep::FarJump(_) => registers,
        TransitionStep::EnterKernel => registers,
    }
}

/// What the registers hold once `step` is performed on them.
pub fn apply_step(step: TransitionStep, registers: ControlRegisters) -> (r: ControlRegisters)
    ensures
        r == registers_after(step, registers),
{
    match step {
        TransitionStep::EnablePae => ControlRegisters {
            cr0: registers.cr0,
            cr4: enable_pae(registers.cr4),
            efer: registers.efer,
        },
        TransitionStep::EnableLongMode => ControlRegisters {
            cr0: registers.cr0,
            cr4: registers.cr4,
            efer: enable_long_mode(registers.efer),
        },
        TransitionStep::EnablePaging => ControlRegisters {
            cr0: enable_paging(registers.cr0),
            cr4: registers.cr4,
            efer: registers.efer,
        },
        TransitionStep::FarJump(_) => registers,
        TransitionStep::EnterKernel => registers,
    }
}

/// Taken in their order, the steps switch paging on only when the
/// processor is prepared for it: after the first two steps physical
/// address extension is on and long mode is enabled, whatever the
/// registers held before, and the third step switches paging on and
/// takes neither back.
pub proof fn lemma_paging_is_prepared(registers: ControlRegisters)
    ensures
        prepared_for_paging(
            registers_after(
                step_after(1)->0,
                registers_after(step_after(0)->0, registers),
            ),
        ),
        prepared_for_paging(
            registers_after(
                step_after(2)->0,
                registers_after(
                    step_after(1)->0,
                    registers_after(step_after(0)->0, registers),
                ),
            ),
        ),
        paging_on(
            registers_after(
                step_after(2)->0,
                registers_after(
                    step_after(1)->0,
                    registers_after(step_after(0)->0, registers),
                ),
            ),
        ),
{
    let cr4 = registers.cr4;
    let low = registers.efer.low;
    let cr0 = registers.cr0;
    assert((cr4 | 0x20u32 | 0x80u32) & 0x20u32 == 0x20u32) by (bit_vector);
    assert((low | 0x100u32) & 0x100u32 == 0x100u32) by (bit_vector);
    assert((cr0 | 0x8000_0000u32) & 0x8000_0000u32 == 0x8000_0000u32) by (bit_vector);
}

/// How far the switch has come.
#[derive(Clone, Copy, Debug, PartialEq, Eq)]
pub struct ModeTransition {
    done: u8,
}

impl ModeTransition {
    #[verifier::type_invariant]
    spec fn wf(&self) -> bool {
        self.done <= STEPS
    }

    /// The number of steps that are done.
    pub closed spec fn steps_done(&self) -> int {
        self.done as int
    }

    /// Whether physical address extension is on.
    pub open spec fn pae_enabled(&self) -> bool {
        self.steps_done() >= 1
    }

    /// Whether long mode is enabled.
    pub open spec fn long_mode_enabled(&self) -> bool {
        self.steps_done() >= 2
    }

    /// Whether paging is on.
    pub open spec fn paging_enabled(&self) -> bool {
        self.steps_done() >= 3
    }

    /// Whether the processor runs 64-bit code.
    pub open spec fn in_long_mode(&self) -> bool {
        self.steps_done() >= 4
    }

    /// The switch before its first step.
    pub fn new() -> (r: ModeTransition)
        ensures
            r.steps_done() == 0,
    {
        ModeTransition { done: 0 }
    }

    /// The step to perform next, or nothing once the kernel is entered.
    pub fn next_step(&self) -> (r: Option<TransitionStep>)
        ensures
            r == step_after(self.steps_done()),
            0 <= self.steps_done() <= STEPS,
            r is None <==> self.steps_done() == STEPS,
            r == Some(TransitionStep::EnablePaging) ==> self.pae_enabled()
                && self.long_mode_enabled(),
            r matches Some(TransitionStep::FarJump(_)) ==> self.paging_enabled(),
            r == Some(TransitionStep::EnterKernel) ==> self.in_long_mode(),
    {
        proof {
            use_type_invariant(self);
        }
        if self.done == 0 {
            Some(TransitionStep::EnablePae)
        } else if self.done == 1 {
            Some(TransitionStep::EnableLongMode)
        } else if self.done == 2 {
            Some(TransitionStep::EnablePaging)
        } else if self.done == 3 {
            Some(TransitionStep::FarJump(GlobalDescriptorTable::GDT_CODE64))
        } else if self.done == 4 {
            Some(TransitionStep::EnterKernel)
        } else {
            None
        }
    }

    /// Records that `step` has been performed. Only the step that is due
    /// is taken down; any other leaves the record as it is and is
    /// answered with `false`.
    pub fn complete(&mut self, step: TransitionStep) -> (r: bool)
        ensures
            r == (step_after(old(self).steps_done()) == Some(step)),
            r ==> final(self).steps_done() == old(self).steps_done() + 1,
            !r ==> final(self).steps_done() == old(self).steps_done(),
    {
        proof {
            use_type_invariant(&*self);
        }
        let due = match self.next_step() {
            Some(TransitionStep::EnablePae) => matches!(step, TransitionStep::EnablePae),
            Some(TransitionStep::EnableLongMode) => matches!(step, TransitionStep::EnableLongMode),
            Some(TransitionStep::EnablePaging) => matches!(step, TransitionStep::EnablePaging),
            Some(TransitionStep::FarJump(selector)) => match step {
                TransitionStep::FarJump(given) => given == selector,
                _ => false,
            },
            Some(TransitionStep::EnterKernel) => matches!(step, TransitionStep::EnterKernel),
            None => false,
        };
        if due {
            self.done = self.done + 1;
        }
        due
    }

    /// Tells whether the kernel has been entered.
    pub fn is_complete(&self) -> (r: bool)
        ensures
            r == (self.steps_done() == STEPS),
    {
        self.done == STEPS
    }
}

/// What the last step of the switch needs: the stack to run on, the
/// address to jump to, and the address of the handoff structure, which
/// the kernel receives as its one argument.
#[derive(Clone, Copy, Debug, PartialEq, Eq, Structural)]
pub struct KernelEntry {
    pub stack_pointer: u64,
    pub entry_point: u64,
    pub handoff: u32,
}

/// Works out where the kernel is entered: on top of its stack, at its
/// entry point, which the image gives as an offset from its start.
/// Nothing where the entry point lies beyond the end of the address
/// space.
pub fn kernel_entry(kernel: &KernelMemoryAlloc, entry_virt: u64, handoff: u32) -> (r: Option<
    KernelEntry,
>)
    ensures
        r is Some <==> kernel.kernel_virt.start + entry_virt <= u64::MAX,
        r matches Some(entry) ==> {
            &&& entry.stack_pointer == kernel.stack_virt.end
            &&& entry.entry_point == kernel.kernel_virt.start + entry_virt
            &&& entry.handoff == handoff
        },
{
    match kernel.kernel_virt.start.checked_add(entry_virt) {
        Some(entry_point) => Some(
            KernelEntry { stack_pointer: kernel.stack_virt.end, entry_point, handoff },
        ),
        None => None,
    }
}

} // verus!
