//! The interrupt descriptor table of long mode.
//!
//! An entry takes sixteen bytes: the address of the handler is split over
//! three fields of the two words, and between them stand the selector of
//! the code segment, the type of the entry and its present bit. The table
//! has one entry for each of the 32 vectors that the processor defines,
//! and after them the entries that the system is free to use.

use crate::gdt::GlobalDescriptorTable;
use vstd::prelude::*;

verus! {

/// What the processor pushes before it enters a handler.
#[derive(Clone, Copy, Debug, PartialEq, Eq, Structural)]
pub struct StackFrame {
    pub rip: u64,
    pub cs: u64,
    pub rflags: u64,
    pub rsp: u64,
    pub ss: u64,
}

/// The registers that the common entry code saves, in the order in which
/// they lie on the stack.
#[derive(Clone, Copy, Debug, PartialEq, Eq, Structural)]
pub struct SavedRegisters {
    pub r15: u64,
    pub r14: u64,
    pub r13: u64,
    pub r12: u64,
    pub r11: u64,
    pub r10: u64,
    pub r9: u64,
    pub r8: u64,
    pub rax: u64,
    pub rbx: u64,
    pub rcx: u64,
    pub rdx: u64,
    pub rsi: u64,
    pub rdi: u64,
    pub error_code: u64,
    pub interrupt_stack_frame: StackFrame,
}

/// The entry code of a handler that gets no error code, by its address.
#[derive(Clone, Copy, Debug, PartialEq, Eq, Structural)]
pub struct InterruptHandler {
    interrupt: u64,
}

impl InterruptHandler {
    /// The handler whose entry code lies at `interrupt`.
    pub fn new(interrupt: u64) -> (r: Self)
        ensures
            r.spec_address() == interrupt,
    {
        InterruptHandler { interrupt }
    }

    /// The address of the entry code.
    pub closed spec fn spec_address(&self) -> u64 {
        self.interrupt
    }

    /// The address of the entry code.
    pub fn address(&self) -> (r: u64)
        ensures
            r == self.spec_address(),
    {
        self.interrupt
    }
}

/// The entry code of a handler that gets an error code, by its address.
#[derive(Clone, Copy, Debug, PartialEq, Eq, Structural)]
pub struct InterruptWithErrorCodeHandler {
    interrupt: u64,
}

impl InterruptWithErrorCodeHandler {
    /// The handler whose entry code lies at `interrupt`.
    pub fn new(interrupt: u64) -> (r: Self)
        ensures
            r.spec_address() == interrupt,
    {
        InterruptWithErrorCodeHandler { interrupt }
    }

    /// The address of the entry code.
    pub closed spec fn spec_address(&self) -> u64 {
        self.interrupt
    }

    /// The address of the entry code.
    pub fn address(&self) -> (r: u64)
        ensures
            r == self.spec_address(),
    {
        self.interrupt
    }
}

/// The selector field of an entry that enters the code segment of long
/// mode.
pub const ENTRY_CODE64: u64 = 0x18_0000;

/// The present bit of a entry.
pub const ENTRY_PRESENT: u64 = 0x8000_0000_0000;

/// The type field of an entry of the interrupt kind.
pub const ENTRY_INTERRUPT: u64 = 0xe00_0000_0000;

/// The type field of an entry of the trap kind.
pub const ENTRY_TRAP: u64 = 0xf00_0000_0000;

/// The low word of the entry for the handler at `address`: bits 0 to 15 of
/// the address at the bottom, bits 16 to 31 at the top, and between them
/// the selector, the type of an entry of the trap kind and the present bit.
pub open spec fn entry_low(address: u64) -> u64 {
    (address & 0xffff) | ((address & 0xffff0000) << 32) | ENTRY_CODE64 | ENTRY_PRESENT | ENTRY_TRAP
}

/// The high word of the entry for the handler at `address`: the upper half
/// of the address.
pub open spec fn entry_high(address: u64) -> u64 {
    address >> 32
}

/// The address of the handler that an entry with these two words enters.
pub open spec fn entry_address(low: u64, high: u64) -> u64 {
    (low & 0xffff) | ((low >> 32) & 0xffff0000) | (high << 32)
}

/// The selector of the code segment that an entry with this low word
/// enters.
pub open spec fn entry_selector(low: u64) -> u64 {
    (low >> 16) & 0xffff
}

/// An entry built for an address enters the handler at that address,
/// through the code segment of long mode, and is present.
pub proof fn lemma_entry_fields(address: u64)
    ensures
        entry_address(entry_low(address), entry_high(address)) == address,
        entry_selector(entry_low(address)) == GlobalDescriptorTable::GDT_CODE64,
        entry_low(address) & ENTRY_PRESENT == ENTRY_PRESENT,
{
    assert(((((address & 0xffff) | ((address & 0xffff0000) << 32) | 0x18_0000u64
        | 0x8000_0000_0000u64 | 0xf00_0000_0000u64) & 0xffff) | ((((address & 0xffff) | ((address
        & 0xffff0000) << 32) | 0x18_0000u64 | 0x8000_0000_0000u64 | 0xf00_0000_0000u64) >> 32)
        & 0xffff0000) | ((address >> 32) << 32)) == address) by (bit_vector);
    assert(((((address & 0xffff) | ((address & 0xffff0000) << 32) | 0x18_0000u64
        | 0x8000_0000_0000u64 | 0xf00_0000_0000u64) >> 16) & 0xffff) == 0x18) by (bit_vector);
    assert(((address & 0xffff) | ((address & 0xffff0000) << 32) | 0x18_0000u64
        | 0x8000_0000_0000u64 | 0xf00_0000_0000u64) & 0x8000_0000_0000u64 == 0x8000_0000_0000u64)
        by (bit_vector);
}

/// One entry of the table.
#[derive(Clone, Copy, Debug, PartialEq, Eq, Structural)]
pub struct InterruptDescriptor {
    low: u64,
    high: u64,
}

impl InterruptDescriptor {
    /// The low word of the entry.
    pub closed spec fn spec_low(&self) -> u64 {
        self.low
    }

    /// The high word of the entry.
    pub closed spec fn spec_high(&self) -> u64 {
        self.high
    }

    /// An entry that is not present.
    pub fn disabled() -> (r: Self)
        ensures
            r.spec_low() == 0,
            r.spec_high() == 0,
    {
        InterruptDescriptor { low: 0, high: 0 }
    }

    /// The entry of the trap kind that enters the handler at `address` through the code
    /// segment of long mode.
    pub fn from_address(address: u64) -> (r: Self)
        ensures
            r.spec_low() == entry_low(address),
            r.spec_high() == entry_high(address),
    {
        let high = address >> 32;
        let low = (address & 0xffff) | ((address & 0xffff0000) << 32) | ENTRY_CODE64 | ENTRY_PRESENT
            | ENTRY_TRAP;
        InterruptDescriptor { high, low }
    }

    /// The entry for a handler that gets no error code.
    pub fn from_handler(handler: InterruptHandler) -> (r: Self)
        ensures
            r.spec_low() == entry_low(handler.spec_address()),
            r.spec_high() == entry_high(handler.spec_address()),
    {
        Self::from_address(handler.address())
    }

    /// The entry for a handler that gets an error code.
    pub fn from_handler_with_error(handler: InterruptWithErrorCodeHandler) -> (r: Self)
        ensures
            r.spec_low() == entry_low(handler.spec_address()),
            r.spec_high() == entry_high(handler.spec_address()),
    {
        Self::from_address(handler.address())
    }

    /// The low word of the entry.
    pub fn low(&self) -> (r: u64)
        ensures
            r == self.spec_low(),
    {
        self.low
    }

    /// The high word of the entry.
    pub fn high(&self) -> (r: u64)
        ensures
            r == self.spec_high(),
    {
        self.high
    }
}

/// The entry of a vector that the processor keeps to itself: sixteen bytes
/// of zero.
#[derive(Clone, Copy, Debug, PartialEq, Eq, Structural)]
pub struct ReservedInterrupt {
    inner: u128,
}

impl ReservedInterrupt {
    /// The entry of a reserved vector: sixteen bytes of zero, not present.
    pub fn new() -> (r: Self)
        ensures
            r.spec_bits() == 0,
            r.spec_descriptor().spec_low() == 0,
            r.spec_descriptor().spec_high() == 0,
    {
        ReservedInterrupt { inner: 0 }
    }

    /// The sixteen bytes of the entry, as one number.
    pub closed spec fn spec_bits(&self) -> u128 {
        self.inner
    }

    /// The entry as the table holds it: the lower eight bytes are its low
    /// word, the upper eight its high word.
    pub closed spec fn spec_descriptor(&self) -> InterruptDescriptor {
        InterruptDescriptor {
            low: (self.inner % 0x1_0000_0000_0000_0000) as u64,
            high: (self.inner / 0x1_0000_0000_0000_0000) as u64,
        }
    }

    /// The entry as the table holds it.
    pub fn descriptor(&self) -> (r: InterruptDescriptor)
        ensures
            r == self.spec_descriptor(),
            r.spec_low() == self.spec_bits() % 0x1_0000_0000_0000_0000,
            r.spec_high() == self.spec_bits() / 0x1_0000_0000_0000_0000,
    {
        InterruptDescriptor {
            low: (self.inner % 0x1_0000_0000_0000_0000) as u64,
            high: (self.inner / 0x1_0000_0000_0000_0000) as u64,
        }
    }
}

impl Default for ReservedInterrupt {
    fn default() -> (r: ReservedInterrupt)
        ensures
            r.spec_bits() == 0,
            r.spec_descriptor().spec_low() == 0,
            r.spec_descriptor().spec_high() == 0,
    {
        ReservedInterrupt::new()
    }
}

/// The entry of a vector whose handler gets an error code.
#[derive(Clone, Copy, Debug, PartialEq, Eq, Structural)]
pub struct InterruptWithErrorCode {
    inner: InterruptDescriptor,
}

impl InterruptWithErrorCode {
    /// The entry as the table holds it.
    pub closed spec fn spec_descriptor(&self) -> InterruptDescriptor {
        self.inner
    }

    /// An entry that is not present.
    pub fn disabled() -> (r: Self)
        ensures
            r.spec_descriptor().spec_low() == 0,
            r.spec_descriptor().spec_high() == 0,
    {
        InterruptWithErrorCode { inner: InterruptDescriptor::disabled() }
    }

    /// The entry that enters `handler`.
    pub fn new(handler: InterruptWithErrorCodeHandler) -> (r: Self)
        ensures
            r.spec_descriptor().spec_low() == entry_low(handler.spec_address()),
            r.spec_descriptor().spec_high() == entry_high(handler.spec_address()),
    {
        InterruptWithErrorCode { inner: InterruptDescriptor::from_handler_with_error(handler) }
    }

    /// The entry as the table holds it.
    pub fn descriptor(&self) -> (r: InterruptDescriptor)
        ensures
            r == self.spec_descriptor(),
    {
        self.inner
    }
}

/// The entry of a vector whose handler gets no error code.
#[derive(Clone, Copy, Debug, PartialEq, Eq, Structural)]
pub struct Interrupt {
    inner: InterruptDescriptor,
}

impl Interrupt {
    /// The entry as the table holds it.
    pub closed spec fn spec_descriptor(&self) -> InterruptDescriptor {
        self.inner
    }

    /// An entry that is not present.
    pub fn disabled() -> (r: Self)
        ensures
            r.spec_descriptor().spec_low() == 0,
            r.spec_descriptor().spec_high() == 0,
    {
        Interrupt { inner: InterruptDescriptor::disabled() }
    }

    /// The entry that enters `handler`.
    pub fn new(handler: InterruptHandler) -> (r: Self)
        ensures
            r.spec_descriptor().spec_low() == entry_low(handler.spec_address()),
            r.spec_descriptor().spec_high() == entry_high(handler.spec_address()),
    {
        Interrupt { inner: InterruptDescriptor::from_handler(handler) }
    }

    /// The entry as the table holds it.
    pub fn descriptor(&self) -> (r: InterruptDescriptor)
        ensures
            r == self.spec_descriptor(),
    {
        self.inner
    }
}

/// The vectors that the processor defines, and the one that stands for
/// all the others.
#[derive(Clone, Copy, Debug, PartialEq, Eq, Structural)]
#[non_exhaustive]
pub enum InterruptVector {
    DivideByZero,
    Debug,
    NonMaskableInterrupt,
    Breakpoint,
    Overflow,
    BoundRange,
    InvalidOpcode,
    DeviceNotAvailable,
    DoubleFault,
    ReservedCoprocessorSegmentOverrun,
    InvalidTss,
    SegmentNotPresent,
    Stack,
    GeneralProtection,
    PageFault,
    Reserved15,
    X86FloatingPointExceptionPending,
    AlignmnentCheck,
    MachineCheck,
    SimdFloatingPoint,
    Reserved20,
    Reserved21,
    Reserved22,
    Reserved23,
    Reserved24,
    Reserved25,
    Reserved26,
    Reserved27,
    Reserved28,
    VmmCommunicationException,
    SecurityException,
    Reserved31,
    UserDefined,
}

/// What the common handler does with an interrupt.
#[derive(Clone, Copy, Debug, PartialEq, Eq, Structural)]
pub enum InterruptAction {
    /// Print the saved registers and go on.
    DumpRegisters,
    /// Report the address that faulted, and stop.
    ReportPageFault,
    /// Report the interrupt, and stop.
    Abort,
}

impl InterruptVector {
    /// The number of the vector. The vector that stands for all the
    /// others has the last number.
    pub open spec fn spec_number(&self) -> u8 {
        match *self {
            InterruptVector::DivideByZero => 0,
            InterruptVector::Debug => 1,
            InterruptVector::NonMaskableInterrupt => 2,
            InterruptVector::Breakpoint => 3,
            InterruptVector::Overflow => 4,
            InterruptVector::BoundRange => 5,
            InterruptVector::InvalidOpcode => 6,
            InterruptVector::DeviceNotAvailable => 7,
            InterruptVector::DoubleFault => 8,
            InterruptVector::ReservedCoprocessorSegmentOverrun => 9,
            InterruptVector::InvalidTss => 10,
            InterruptVector::SegmentNotPresent => 11,
            InterruptVector::Stack => 12,
            InterruptVector::GeneralProtection => 13,
            InterruptVector::PageFault => 14,
            InterruptVector::Reserved15 => 15,
            InterruptVector::X86FloatingPointExceptionPending => 16,
            InterruptVector::AlignmnentCheck => 17,
            InterruptVector::MachineCheck => 18,
            InterruptVector::SimdFloatingPoint => 19,
            InterruptVector::Reserved20 => 20,
            InterruptVector::Reserved21 => 21,
            InterruptVector::Reserved22 => 22,
            InterruptVector::Reserved23 => 23,
            InterruptVector::Reserved24 => 24,
            InterruptVector::Reserved25 => 25,
            InterruptVector::Reserved26 => 26,
            InterruptVector::Reserved27 => 27,
            InterruptVector::Reserved28 => 28,
            InterruptVector::VmmCommunicationException => 29,
            InterruptVector::SecurityException => 30,
            InterruptVector::Reserved31 => 31,
            InterruptVector::UserDefined => 255,
        }
    }

    /// The number of the vector.
    pub fn number(&self) -> (r: u8)
        ensures
            r == self.spec_number(),
    {
        match self {
            InterruptVector::DivideByZero => 0,
            InterruptVector::Debug => 1,
            InterruptVector::NonMaskableInterrupt => 2,
            InterruptVector::Breakpoint => 3,
            InterruptVector::Overflow => 4,
            InterruptVector::BoundRange => 5,
            InterruptVector::InvalidOpcode => 6,
            InterruptVector::DeviceNotAvailable => 7,
            InterruptVector::DoubleFault => 8,
            InterruptVector::ReservedCoprocessorSegmentOverrun => 9,
            InterruptVector::InvalidTss => 10,
            InterruptVector::SegmentNotPresent => 11,
            InterruptVector::Stack => 12,
            InterruptVector::GeneralProtection => 13,
            InterruptVector::PageFault => 14,
            InterruptVector::Reserved15 => 15,
            InterruptVector::X86FloatingPointExceptionPending => 16,
            InterruptVector::AlignmnentCheck => 17,
            InterruptVector::MachineCheck => 18,
            InterruptVector::SimdFloatingPoint => 19,
            InterruptVector::Reserved20 => 20,
            InterruptVector::Reserved21 => 21,
            InterruptVector::Reserved22 => 22,
            InterruptVector::Reserved23 => 23,
            InterruptVector::Reserved24 => 24,
            InterruptVector::Reserved25 => 25,
            InterruptVector::Reserved26 => 26,
            InterruptVector::Reserved27 => 27,
            InterruptVector::Reserved28 => 28,
            InterruptVector::VmmCommunicationException => 29,
            InterruptVector::SecurityException => 30,
            InterruptVector::Reserved31 => 31,
            InterruptVector::UserDefined => 255,
        }
    }

    /// The vector with the given number: one of the 32 that the processor
    /// defines, or the one that stands for all the others.
    pub fn from_number(number: u8) -> (r: Self)
        ensures
            number < 32 ==> r.spec_number() == number,
            number >= 32 ==> r == InterruptVector::UserDefined,
    {
        match number {
            0 => InterruptVector::DivideByZero,
            1 => InterruptVector::Debug,
            2 => InterruptVector::NonMaskableInterrupt,
            3 => InterruptVector::Breakpoint,
            4 => InterruptVector::Overflow,
            5 => InterruptVector::BoundRange,
            6 => InterruptVector::InvalidOpcode,
            7 => InterruptVector::DeviceNotAvailable,
            8 => InterruptVector::DoubleFault,
            9 => InterruptVector::ReservedCoprocessorSegmentOverrun,
            10 => InterruptVector::InvalidTss,
            11 => InterruptVector::SegmentNotPresent,
            12 => InterruptVector::Stack,
            13 => InterruptVector::GeneralProtection,
            14 => InterruptVector::PageFault,
            15 => InterruptVector::Reserved15,
            16 => InterruptVector::X86FloatingPointExceptionPending,
            17 => InterruptVector::AlignmnentCheck,
            18 => InterruptVector::MachineCheck,
            19 => InterruptVector::SimdFloatingPoint,
            20 => InterruptVector::Reserved20,
            21 => InterruptVector::Reserved21,
            22 => InterruptVector::Reserved22,
            23 => InterruptVector::Reserved23,
            24 => InterruptVector::Reserved24,
            25 => InterruptVector::Reserved25,
            26 => InterruptVector::Reserved26,
            27 => InterruptVector::Reserved27,
            28 => InterruptVector::Reserved28,
            29 => InterruptVector::VmmCommunicationException,
            30 => InterruptVector::SecurityException,
            31 => InterruptVector::Reserved31,
            _ => InterruptVector::UserDefined,
        }
    }

    /// What the common handler does when this vector is raised: a
    /// breakpoint dumps the registers and goes on; everything else stops
    /// the system, a page fault with the address that faulted.
    pub fn action(&self) -> (r: InterruptAction)
        ensures
            r == (match *self {
                InterruptVector::PageFault => InterruptAction::ReportPageFault,
                InterruptVector::Breakpoint => InterruptAction::DumpRegisters,
                _ => InterruptAction::Abort,
            }),
    {
        match self {
            InterruptVector::PageFault => InterruptAction::ReportPageFault,
            InterruptVector::Breakpoint => InterruptAction::DumpRegisters,
            _ => InterruptAction::Abort,
        }
    }
}

/// Number of entries for the vectors that the system is free to use.
pub const USER_DEFINED_ENTRIES: usize = 244;

/// Number of entries in the table.
pub const IDT_ENTRIES: usize = 276;

/// Bytes that one entry takes.
pub const ENTRY_SIZE: usize = 16;

/// The interrupt descriptor table.
#[derive(Clone, Copy, Debug)]
pub struct IDT {
    pub divide_by_zero: Interrupt,
    pub debug: Interrupt,
    pub non_maskable_interrupt: Interrupt,
    pub breakpoint: Interrupt,
    pub overflow: Interrupt,
    pub bound_range: Interrupt,
    pub invalid_opcode: Interrupt,
    pub device_not_available: Interrupt,
    pub double_fault: Interrupt,
    pub reserved_coprocessor_segment_overrun: ReservedInterrupt,
    pub invalid_tss: InterruptWithErrorCode,
    pub segment_not_present: InterruptWithErrorCode,
    pub stack: InterruptWithErrorCode,
    pub general_protection: InterruptWithErrorCode,
    pub page_fault: InterruptWithErrorCode,
    pub reserved_15: ReservedInterrupt,
    pub x86_floating_point_exception_pending: Interrupt,
    pub alignmnent_check: InterruptWithErrorCode,
    pub machine_check: Interrupt,
    pub simd_floating_point: Interrupt,
    pub reserved_20_28: [ReservedInterrupt; 9],
    pub vmm_communication_exception: InterruptWithErrorCode,
    pub security_exception: InterruptWithErrorCode,
    pub reserved_31: ReservedInterrupt,
    pub user_defined: [Interrupt; 244],
}

/// What the processor is told of a table: its last byte, counted from its
/// first, and the address of its first byte.
#[derive(Clone, Copy, Debug, PartialEq, Eq, Structural)]
pub struct Register(pub u16, pub usize);

impl IDT {
    /// The entry at place `index` of the table.
    pub open spec fn spec_entry(&self, index: int) -> InterruptDescriptor {
        if index == 0 {
            self.divide_by_zero.spec_descriptor()
        } else if index == 1 {
            self.debug.spec_descriptor()
        } else if index == 2 {
            self.non_maskable_interrupt.spec_descriptor()
        } else if index == 3 {
            self.breakpoint.spec_descriptor()
        } else if index == 4 {
            self.overflow.spec_descriptor()
        } else if index == 5 {
            self.bound_range.spec_descriptor()
        } else if index == 6 {
            self.invalid_opcode.spec_descriptor()
        } else if index == 7 {
            self.device_not_available.spec_descriptor()
        } else if index == 8 {
            self.double_fault.spec_descriptor()
        } else if index == 9 {
            self.reserved_coprocessor_segment_overrun.spec_descriptor()
        } else if index == 10 {
            self.invalid_tss.spec_descriptor()
        } else if index == 11 {
            self.segment_not_present.spec_descriptor()
        } else if index == 12 {
            self.stack.spec_descriptor()
        } else if index == 13 {
            self.general_protection.spec_descriptor()
        } else if index == 14 {
            self.page_fault.spec_descriptor()
        } else if index == 15 {
            self.reserved_15.spec_descriptor()
        } else if index == 16 {
            self.x86_floating_point_exception_pending.spec_descriptor()
        } else if index == 17 {
            self.alignmnent_check.spec_descriptor()
        } else if index == 18 {
            self.machine_check.spec_descriptor()
        } else if index == 19 {
            self.simd_floating_point.spec_descriptor()
        } else if index < 29 {
            self.reserved_20_28@[index - 20].spec_descriptor()
        } else if index == 29 {
            self.vmm_communication_exception.spec_descriptor()
        } else if index == 30 {
            self.security_exception.spec_descriptor()
        } else if index == 31 {
            self.reserved_31.spec_descriptor()
        } else {
            self.user_defined@[index - 32].spec_descriptor()
        }
    }

    /// The entry at place `index` of the table.
    pub fn entry(&self, index: usize) -> (r: InterruptDescriptor)
        requires
            index < IDT_ENTRIES,
        ensures
            r == self.spec_entry(index as int),
    {
        match index {
            0 => self.divide_by_zero.descriptor(),
            1 => self.debug.descriptor(),
            2 => self.non_maskable_interrupt.descriptor(),
            3 => self.breakpoint.descriptor(),
            4 => self.overflow.descriptor(),
            5 => self.bound_range.descriptor(),
            6 => self.invalid_opcode.descriptor(),
            7 => self.device_not_available.descriptor(),
            8 => self.double_fault.descriptor(),
            9 => self.reserved_coprocessor_segment_overrun.descriptor(),
            10 => self.invalid_tss.descriptor(),
            11 => self.segment_not_present.descriptor(),
            12 => self.stack.descriptor(),
            13 => self.general_protection.descriptor(),
            14 => self.page_fault.descriptor(),
            15 => self.reserved_15.descriptor(),
            16 => self.x86_floating_point_exception_pending.descriptor(),
            17 => self.alignmnent_check.descriptor(),
            18 => self.machine_check.descriptor(),
            19 => self.simd_floating_point.descriptor(),
            29 => self.vmm_communication_exception.descriptor(),
            30 => self.security_exception.descriptor(),
            31 => self.reserved_31.descriptor(),
            _ => if index < 29 {
                self.reserved_20_28[index - 20].descriptor()
            } else {
                self.user_defined[index - 32].descriptor()
            },
        }
    }

    /// What the processor is told of the table, for a table that lies at
    /// `address`.
    pub fn register(&self, address: usize) -> (r: Register)
        ensures
            r.0 == IDT_ENTRIES * ENTRY_SIZE - 1,
            r.1 == address,
    {
        Register((IDT_ENTRIES * ENTRY_SIZE - 1) as u16, address)
    }
}

} // verus!
