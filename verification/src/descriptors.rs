//! Segment descriptors.
//!
//! A descriptor is one 64-bit entry of a descriptor table. Its fields are
//! scattered over the word: the low 16 bits of the segment limit sit at
//! the bottom, the low 24 bits of the base address above them, the type
//! from bit 40 on, and four more bits of the limit from bit 48 on. Flags
//! are given as they stand in the upper half of the word, so flag bit `n`
//! is bit `32 + n` of the descriptor.

use vstd::prelude::*;

verus! {

/// Flag of a descriptor that is in use.
pub const PRESENT: u32 = 0x8000;

/// Flag of a 64-bit code segment.
pub const LONG_MODE: u32 = 0x20_0000;

/// Flag of a segment with 32-bit operands by default.
pub const DEFAULT_OPERAND_SIZE: u32 = 0x40_0000;

/// Flag of a segment whose limit counts pages of 4 KiB.
pub const GRANULARITY: u32 = 0x80_0000;

/// Type of a code segment.
pub const CODE_TYPE: u64 = 0b11000;

/// Type of a data segment.
pub const DATA_TYPE: u64 = 0b10000;

/// Flag of a code segment that conforms.
pub const CONFORMING: u32 = 0x400;

/// Flag of a code segment that may be read.
pub const READABLE: u32 = 0x200;

/// Flag of a data segment that may be written.
pub const WRITABLE: u32 = 0x200;

/// Flag of a data segment that grows downwards.
pub const EXPAND_DOWN: u32 = 0x400;

/// The word of a descriptor without flags.
pub open spec fn descriptor_bits(type_value: u64, base_address: u32, segment_limit: u32) -> u64 {
    (type_value << 40) | ((segment_limit as u64) & 0xffff) | (((segment_limit as u64) & 0xf0000)
        << 32) | (((base_address as u64) & 0x00ffffff) << 16) | (((base_address as u64)
        & 0xff000000) << 56)
}

/// `bits` with `flag` set in its upper half.
pub open spec fn flagged(bits: u64, flag: u32) -> u64 {
    bits | ((flag as u64) << 32)
}

/// The base address that a descriptor word holds.
pub open spec fn base_of(bits: u64) -> u64 {
    ((bits >> 16) & 0xffffff) | ((bits >> 32) & 0xff000000)
}

/// The segment limit that a descriptor word holds.
pub open spec fn limit_of(bits: u64) -> u64 {
    (bits & 0xffff) | ((bits >> 32) & 0xf0000)
}

/// One entry of a descriptor table.
#[derive(Clone, Copy, Debug, PartialEq, Eq, Structural)]
pub struct Descriptor(u64);

impl View for Descriptor {
    type V = u64;

    closed spec fn view(&self) -> u64 {
        self.0
    }
}

impl Descriptor {
    /// A descriptor of the given type, base and limit, without flags.
    pub fn new(type_value: u64, base_address: u32, segment_limit: u32) -> (r: Self)
        ensures
            r@ == descriptor_bits(type_value, base_address, segment_limit),
    {
        let base_address = base_address as u64;
        let segment_limit = segment_limit as u64;
        let mut descriptor: u64 = type_value << 40;
        descriptor |= segment_limit & 0xffff;
        descriptor |= (segment_limit & 0xf0000) << 32;
        descriptor |= (base_address & 0x00ffffff) << 16;
        descriptor |= (base_address & 0xff000000) << 56;
        Descriptor(descriptor)
    }

    /// The descriptor with `flag` set.
    pub fn with_flag(self, flag: u32) -> (r: Self)
        ensures
            r@ == flagged(self@, flag),
    {
        Descriptor(self.0 | (flag as u64) << 32)
    }

    /// The base address that the descriptor holds.
    pub fn base_address(&self) -> (r: u64)
        ensures
            r == base_of(self@),
    {
        ((self.0 >> 16) & 0xffffff) | ((self.0 >> 32) & 0xff000000)
    }

    /// The segment limit that the descriptor holds.
    pub fn segment(&self) -> (r: u64)
        ensures
            r == limit_of(self@),
    {
        (self.0 & 0xffff) | ((self.0 >> 32) & 0xf0000)
    }

    /// The descriptor as the word that goes into the table.
    pub fn raw(&self) -> (r: u64)
        ensures
            r == self@,
    {
        self.0
    }
}

/// What a descriptor gives back of what it was made from: the low 20 bits
/// of the limit and the low 24 bits of the base, where the type fits into
/// its eight bits.
pub proof fn lemma_descriptor_fields(type_value: u64, base_address: u32, segment_limit: u32)
    requires
        type_value < 0x100,
    ensures
        limit_of(descriptor_bits(type_value, base_address, segment_limit)) == segment_limit
            & 0xf_ffff,
        base_of(descriptor_bits(type_value, base_address, segment_limit)) == base_address
            & 0xff_ffff,
{
    let bits = descriptor_bits(type_value, base_address, segment_limit);
    let limit = segment_limit as u64;
    let base = base_address as u64;
    assert(((((type_value << 40) | (limit & 0xffff) | ((limit & 0xf0000) << 32) | ((base
        & 0x00ffffff) << 16) | ((base & 0xff000000) << 56)) & 0xffff) | ((((type_value << 40) | (
    limit & 0xffff) | ((limit & 0xf0000) << 32) | ((base & 0x00ffffff) << 16) | ((base
        & 0xff000000) << 56)) >> 32) & 0xf0000)) == limit & 0xf_ffff) by (bit_vector)
        requires
            type_value < 0x100,
            limit <= 0xffff_ffff,
            base <= 0xffff_ffff,
    ;
    assert((((((type_value << 40) | (limit & 0xffff) | ((limit & 0xf0000) << 32) | ((base
        & 0x00ffffff) << 16) | ((base & 0xff000000) << 56)) >> 16) & 0xffffff) | ((((type_value
        << 40) | (limit & 0xffff) | ((limit & 0xf0000) << 32) | ((base & 0x00ffffff) << 16) | ((
    base & 0xff000000) << 56)) >> 32) & 0xff000000)) == base & 0xff_ffff) by (bit_vector)
        requires
            type_value < 0x100,
            limit <= 0xffff_ffff,
            base <= 0xffff_ffff,
    ;
    assert(segment_limit & 0xf_ffff == limit & 0xf_ffff) by (bit_vector)
        requires
            limit == segment_limit as u64,
    ;
    assert(base_address & 0xff_ffff == base & 0xff_ffff) by (bit_vector)
        requires
            base == base_address as u64,
    ;
}

/// A flag that stays clear of the bits of limit and base changes neither.
pub proof fn lemma_flag_keeps_fields(bits: u64, flag: u32)
    requires
        flag & 0xff0f_00ff == 0,
    ensures
        limit_of(flagged(bits, flag)) == limit_of(bits),
        base_of(flagged(bits, flag)) == base_of(bits),
{
    let wide = flag as u64;
    assert(wide & 0xff0f_00ff == 0) by (bit_vector)
        requires
            flag & 0xff0f_00ff == 0,
            wide == flag as u64,
    ;
    assert((((bits | (wide << 32)) & 0xffff) | (((bits | (wide << 32)) >> 32) & 0xf0000)) == ((bits
        & 0xffff) | ((bits >> 32) & 0xf0000))) by (bit_vector)
        requires
            wide & 0xff0f_00ff == 0,
            wide <= 0xffff_ffff,
    ;
    assert(((((bits | (wide << 32)) >> 16) & 0xffffff) | (((bits | (wide << 32)) >> 32)
        & 0xff000000)) == (((bits >> 16) & 0xffffff) | ((bits >> 32) & 0xff000000)))
        by (bit_vector)
        requires
            wide & 0xff0f_00ff == 0,
            wide <= 0xffff_ffff,
    ;
}

/// The descriptor of a code segment of protected mode.
#[derive(Clone, Copy, Debug, PartialEq, Eq, Structural)]
pub struct CodeDescriptor(Descriptor);

/// The word of a code segment of protected mode: present, with 32-bit
/// operands and a limit in pages.
pub open spec fn code_bits(base_address: u32, segment_limit: u32) -> u64 {
    flagged(
        flagged(
            flagged(descriptor_bits(CODE_TYPE, base_address, segment_limit), PRESENT),
            DEFAULT_OPERAND_SIZE,
        ),
        GRANULARITY,
    )
}

impl View for CodeDescriptor {
    type V = u64;

    closed spec fn view(&self) -> u64 {
        self.0@
    }
}

impl CodeDescriptor {
    /// A code segment that is present, has 32-bit operands and counts its
    /// limit in pages.
    pub fn new(base_address: u32, segment_limit: u32) -> (r: Self)
        ensures
            r@ == code_bits(base_address, segment_limit),
    {
        CodeDescriptor(
            Descriptor::new(CODE_TYPE, base_address, segment_limit).with_flag(PRESENT).with_flag(
                DEFAULT_OPERAND_SIZE,
            ).with_flag(GRANULARITY),
        )
    }

    /// The segment, marked as one that may be read.
    pub fn readable(self) -> (r: Self)
        ensures
            r@ == flagged(self@, READABLE),
    {
        CodeDescriptor(self.0.with_flag(READABLE))
    }

    /// The segment, marked as one that conforms.
    pub fn conforming(self) -> (r: Self)
        ensures
            r@ == flagged(self@, CONFORMING),
    {
        CodeDescriptor(self.0.with_flag(CONFORMING))
    }

    /// The descriptor itself.
    pub fn descriptor(self) -> (r: Descriptor)
        ensures
            r@ == self@,
    {
        self.0
    }
}

/// The descriptor of a data segment of protected mode.
#[derive(Clone, Copy, Debug, PartialEq, Eq, Structural)]
pub struct DataDescriptor(Descriptor);

/// The word of a data segment of protected mode: present, with 32-bit
/// operands and a limit in pages.
pub open spec fn data_bits(base_address: u32, segment_limit: u32) -> u64 {
    flagged(
        flagged(
            flagged(descriptor_bits(DATA_TYPE, base_address, segment_limit), PRESENT),
            DEFAULT_OPERAND_SIZE,
        ),
        GRANULARITY,
    )
}

impl View for DataDescriptor {
    type V = u64;

    closed spec fn view(&self) -> u64 {
        self.0@
    }
}

impl DataDescriptor {
    /// A data segment that is present, has 32-bit operands and counts its
    /// limit in pages.
    pub fn new(base_address: u32, segment_limit: u32) -> (r: Self)
        ensures
            r@ == data_bits(base_address, segment_limit),
    {
        DataDescriptor(
            Descriptor::new(DATA_TYPE, base_address, segment_limit).with_flag(PRESENT).with_flag(
                DEFAULT_OPERAND_SIZE,
            ).with_flag(GRANULARITY),
        )
    }

    /// The segment, marked as one that may be written.
    pub fn writable(self) -> (r: Self)
        ensures
            r@ == flagged(self@, WRITABLE),
    {
        DataDescriptor(self.0.with_flag(WRITABLE))
    }

    /// The segment, marked as one that grows downwards.
    pub fn expand_down(self) -> (r: Self)
        ensures
            r@ == flagged(self@, EXPAND_DOWN),
    {
        DataDescriptor(self.0.with_flag(EXPAND_DOWN))
    }

    /// The descriptor itself.
    pub fn descriptor(self) -> (r: Descriptor)
        ensures
            r@ == self@,
    {
        self.0
    }
}

/// The descriptor of a code segment of long mode.
#[derive(Clone, Copy, Debug, PartialEq, Eq, Structural)]
pub struct Code64Descriptor(Descriptor);

impl View for Code64Descriptor {
    type V = u64;

    closed spec fn view(&self) -> u64 {
        self.0@
    }
}

impl Code64Descriptor {
    /// The word of a code segment of long mode: present, 64-bit,
    /// conforming.
    pub open spec fn spec_new(base_address: u32, segment_limit: u32) -> u64 {
        flagged(
            flagged(
                flagged(descriptor_bits(CODE_TYPE, base_address, segment_limit), PRESENT),
                LONG_MODE,
            ),
            CONFORMING,
        )
    }

    /// A code segment of long mode: present, 64-bit, conforming.
    pub fn new(base_address: u32, segment_limit: u32) -> (r: Self)
        ensures
            r@ == Self::spec_new(base_address, segment_limit),
    {
        Code64Descriptor(
            Descriptor::new(CODE_TYPE, base_address, segment_limit).with_flag(PRESENT).with_flag(
                LONG_MODE,
            ).with_flag(CONFORMING),
        )
    }

    /// The descriptor itself.
    pub fn descriptor(self) -> (r: Descriptor)
        ensures
            r@ == self@,
    {
        self.0
    }
}

/// The descriptor of a data segment of long mode.
#[derive(Clone, Copy, Debug, PartialEq, Eq, Structural)]
pub struct Data64Descriptor(Descriptor);

impl View for Data64Descriptor {
    type V = u64;

    closed spec fn view(&self) -> u64 {
        self.0@
    }
}

impl Data64Descriptor {
    /// The word of a data segment of long mode: present, and nothing
    /// more.
    pub open spec fn spec_new(base_address: u32, segment_limit: u32) -> u64 {
        flagged(descriptor_bits(DATA_TYPE, base_address, segment_limit), PRESENT)
    }

    /// A data segment of long mode: present, and nothing more.
    pub fn new(base_address: u32, segment_limit: u32) -> (r: Self)
        ensures
            r@ == Self::spec_new(base_address, segment_limit),
    {
        Data64Descriptor(Descriptor::new(DATA_TYPE, base_address, segment_limit).with_flag(PRESENT))
    }

    /// The descriptor itself.
    pub fn descriptor(self) -> (r: Descriptor)
        ensures
            r@ == self@,
    {
        self.0
    }
}

/// Type of an entry that masks interrupts while its handler runs.
pub const INTERRUPT_TYPE: u64 = 0xe;

/// Type of an entry that leaves interrupts as they are.
pub const TRAP_TYPE: u64 = 0xf;

/// The descriptor of an interrupt entry of protected mode: the handler's offset in
/// the place of the base, the selector in the place of the limit.
#[derive(Clone, Copy, Debug, PartialEq, Eq, Structural)]
pub struct InterruptDescriptor {
    inner: Descriptor,
}

impl View for InterruptDescriptor {
    type V = u64;

    closed spec fn view(&self) -> u64 {
        self.inner@
    }
}

impl InterruptDescriptor {
    /// An entry of the given type that is present.
    pub fn new(selector_type: u64, code_segment_offset: u32, selector: u16) -> (r: Self)
        ensures
            r@ == flagged(
                descriptor_bits(selector_type, code_segment_offset, selector as u32),
                PRESENT,
            ),
    {
        let inner = Descriptor::new(selector_type, code_segment_offset, selector as u32).with_flag(
            PRESENT,
        );
        InterruptDescriptor { inner }
    }

    /// The descriptor itself.
    pub fn descriptor(&self) -> (r: Descriptor)
        ensures
            r@ == self@,
    {
        self.inner
    }
}

} // verus!
