//! The global descriptor table.
//!
//! The table has five entries of eight bytes each: the null descriptor,
//! code and data of protected mode, code and data of long mode. A selector
//! is the byte offset of an entry, and the switch to long mode depends on
//! the long mode code segment standing at offset 0x18.

use crate::descriptors::{Code64Descriptor, CodeDescriptor, Data64Descriptor, DataDescriptor};
use vstd::prelude::*;

verus! {

/// Bytes that one entry of the table takes.
pub const ENTRY_SIZE: u32 = 8;

/// The global descriptor table.
#[derive(Clone, Copy, Debug)]
pub struct GlobalDescriptorTable {
    null: u64,
    code: CodeDescriptor,
    data: DataDescriptor,
    code64: Code64Descriptor,
    data64: Data64Descriptor,
}

impl GlobalDescriptorTable {
    /// Selector of the null descriptor.
    pub const NULL: u32 = 0;

    /// Selector of the code segment of protected mode.
    pub const GDT_CODE: u32 = 0x08;

    /// Selector of the data segment of protected mode.
    pub const GDT_DATA: u32 = 0x10;

    /// Selector of the code segment of long mode.
    pub const GDT_CODE64: u32 = 0x18;

    /// Selector of the data segment of long mode.
    pub const GDT_DATA64: u32 = 0x20;

    /// The words of the table, in the order in which they lie in memory.
    pub closed spec fn words(&self) -> Seq<u64> {
        seq![self.null, self.code@, self.data@, self.code64@, self.data64@]
    }

    /// The word that `selector` picks: the entry at that byte offset.
    pub open spec fn selected(&self, selector: u32) -> u64 {
        self.words()[(selector / ENTRY_SIZE) as int]
    }

    /// A table with the given segments for protected mode, and flat
    /// segments for long mode.
    pub fn new(code: CodeDescriptor, data: DataDescriptor) -> (r: Self)
        ensures
            r.words().len() == 5,
            r.selected(Self::NULL) == 0,
            r.selected(Self::GDT_CODE) == code@,
            r.selected(Self::GDT_DATA) == data@,
            r.selected(Self::GDT_CODE64) == Code64Descriptor::spec_new(0, 0),
            r.selected(Self::GDT_DATA64) == Data64Descriptor::spec_new(0, 0),
    {
        GlobalDescriptorTable {
            null: 0,
            code,
            data,
            code64: Code64Descriptor::new(0, 0),
            data64: Data64Descriptor::new(0, 0),
        }
    }

    /// The selector of the code segment that the jump into long mode
    /// loads.
    pub fn long_mode_segment(&self) -> (r: u32)
        ensures
            r == Self::GDT_CODE64,
            r == 3 * ENTRY_SIZE,
    {
        Self::GDT_CODE64
    }

    /// The words of the table, in the order in which they lie in memory.
    pub fn entries(&self) -> (r: [u64; 5])
        ensures
            r@ == self.words(),
    {
        let r = [
            self.null,
            self.code.descriptor().raw(),
            self.data.descriptor().raw(),
            self.code64.descriptor().raw(),
            self.data64.descriptor().raw(),
        ];
        assert(r@ =~= self.words());
        r
    }
}

} // verus!
