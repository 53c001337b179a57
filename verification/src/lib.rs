//! Second-stage loader logic for a small x86-64 operating system.
//!
//! The crate holds the parts of the boot-to-kernel handoff that can be
//! stated and checked without touching the machine: decoding the boot
//! manager's information block, carving physical memory for the kernel
//! image and its stack, unpacking and relocating the kernel image, laying
//! out the page tables for long mode, and ordering the switch itself.
//! Every function comes with a contract that Verus proves. The one thing
//! taken on trust is what the `elf` crate reads out of the kernel image.

pub mod bytes;
pub mod multiboot2;
pub mod region;
pub mod elf_image;
pub mod kernel_loader;
pub mod paging;
pub mod long_mode;
pub mod handoff;
pub mod boot;
pub mod bootstrap;
pub mod descriptors;
pub mod gdt;
pub mod interrupts;
pub mod cpu;
