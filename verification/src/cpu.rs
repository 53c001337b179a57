//! Values read from and written to the processor.
//!
//! Reading and writing the registers themselves is the business of the
//! program around this library. What stands here is what the registers
//! hold and what the loader and the kernel make of it.

use vstd::prelude::*;

verus! {

/// The two halves of a model-specific register.
#[derive(Clone, Copy, Debug, PartialEq, Eq, Structural)]
pub struct MSR {
    pub low: u32,
    pub high: u32,
}

impl MSR {
    /// The register as one number: `high` above `low`.
    pub open spec fn spec_value(&self) -> u64 {
        (self.low as int + self.high as int * 0x1_0000_0000) as u64
    }

    /// The register as one number.
    pub fn value(&self) -> (r: u64)
        ensures
            r == self.spec_value(),
    {
        self.low as u64 + self.high as u64 * 0x1_0000_0000
    }
}

impl Default for MSR {
    fn default() -> (r: MSR)
        ensures
            r == (MSR { low: 0, high: 0 }),
    {
        MSR { low: 0, high: 0 }
    }
}

/// The four registers that the `cpuid` instruction fills.
#[derive(Clone, Copy, Debug, PartialEq, Eq, Structural)]
pub struct CPUID {
    pub eax: u32,
    pub ebx: u32,
    pub ecx: u32,
    pub edx: u32,
}

impl Default for CPUID {
    fn default() -> (r: CPUID)
        ensures
            r == (CPUID { eax: 0, ebx: 0, ecx: 0, edx: 0 }),
    {
        CPUID { eax: 0, ebx: 0, ecx: 0, edx: 0 }
    }
}

/// The local interrupt controller, by the address of its registers.
#[derive(Clone, Copy, Debug, PartialEq, Eq, Structural)]
pub struct LocalAPIC(usize);

/// The address that the base register of the local interrupt controller
/// gives: the page bits of its low half, with the low 20 bits of its high
/// half laid over them.
pub open spec fn apic_base(value: MSR) -> usize {
    ((value.low & 0xfffff000) as usize) | ((value.high & 0xfffff) as usize)
}

impl LocalAPIC {
    /// The model-specific register that holds the base address.
    pub const MSR_REGISTER: u32 = 0x1B;

    /// Offset of the register that holds the controller's identifier.
    pub const ID_OFFSET: usize = 32;

    /// Offset of the register that holds the controller's version.
    pub const VERSION_OFFSET: usize = 48;

    /// The address of the controller's registers.
    pub closed spec fn spec_address(&self) -> usize {
        self.0
    }

    /// The controller that the given value of the base register points
    /// to.
    pub fn from_msr(value: &MSR) -> (r: LocalAPIC)
        ensures
            r.spec_address() == apic_base(*value),
    {
        let mut address: usize = (value.low & 0xfffff000) as usize;
        address |= (value.high & 0xfffff) as usize;
        LocalAPIC(address)
    }

    /// The address of the controller's registers.
    pub fn address(&self) -> (r: usize)
        ensures
            r == self.spec_address(),
    {
        self.0
    }
}

} // verus!
