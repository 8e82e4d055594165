//! The memory domain of the Unikraft engine.
//!
//! A context owns one contiguous buffer. It holds the user code and data from
//! the bottom up and, from the top down, the page tables, the trampolines, the
//! interrupt stack, the descriptor tables and the interrupt handlers.

pub mod context;
pub mod domain;
pub mod layout;

pub use self::context::{bytes_to_unikraft_transfer, unikraft_transfer, UnikraftContext};
pub use self::domain::{MemoryResource, UnikraftMemoryDomain, DEFAULT_CONTEXT_SIZE};
pub use self::layout::{UnikraftLayout, MIN_CONTEXT_SIZE, TRAMPOLINE_REGION_SIZE};
pub use crate::x86_64::interrupts::{
    GDT_SIZE, IDT_ENTRIES, IDT_ENTRY_SIZE, IDT_SIZE, INTERRUPT_STACK_PAGES, INTERRUPT_STACK_SIZE,
    TSS_SIZE,
};
pub use crate::x86_64::PAGE_SIZE;

use vstd::prelude::*;

verus! {

/// Virtual address of the trampolines, mapped in both address spaces.
pub const TRAMPOLINE_VA_BASE: u64 = 0x0000_0200_0000_0000;

/// Start of the direct map: virtual address = base + physical address.
pub const DIRECTMAP_BASE: u64 = 0xffff_ff80_0000_0000;

/// The direct map is the one that the page walk uses, the last 512 GiB of the
/// address space. The trampolines lie below it.
pub proof fn direct_map_is_the_last_half_terabyte()
    ensures
        DIRECTMAP_BASE == 0x1_0000_0000_0000_0000 - 0x80_0000_0000,
        DIRECTMAP_BASE == crate::ap_startup::DIRECTMAP_BASE,
        TRAMPOLINE_VA_BASE == 0x200_0000_0000,
{
}

} // verus!
