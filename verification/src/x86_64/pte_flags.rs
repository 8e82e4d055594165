//! Flags of a page table entry.

use vstd::prelude::*;

verus! {

pub const PRESENT: u64 = 0x1;

pub const WRITABLE: u64 = 0x2;

pub const USER: u64 = 0x4;

pub const WRITE_THROUGH: u64 = 0x8;

pub const CACHE_DISABLE: u64 = 0x10;

pub const ACCESSED: u64 = 0x20;

pub const DIRTY: u64 = 0x40;

/// Marks a directory entry that maps a large page.
pub const HUGE_PAGE: u64 = 0x80;

pub const GLOBAL: u64 = 0x100;

pub const NO_EXECUTE: u64 = 0x8000_0000_0000_0000;

/// Present, writable and open to user mode.
pub const USER_PAGE: u64 = 0x7;

/// Flags of an entry that points to the next table.
pub const TABLE_ENTRY: u64 = 0x7;

/// The flags are single bits of an entry, at the places the processor wants.
/// Pages and tables are present, writable and open to user mode.
pub proof fn flags_are_bits_of_an_entry()
    ensures
        PRESENT == 1,
        WRITABLE == 2 * PRESENT,
        USER == 2 * WRITABLE,
        WRITE_THROUGH == 2 * USER,
        CACHE_DISABLE == 2 * WRITE_THROUGH,
        ACCESSED == 2 * CACHE_DISABLE,
        DIRTY == 2 * ACCESSED,
        HUGE_PAGE == 2 * DIRTY,
        GLOBAL == 2 * HUGE_PAGE,
        NO_EXECUTE == 0x8000_0000_0000_0000,
        USER_PAGE == PRESENT + WRITABLE + USER,
        TABLE_ENTRY == PRESENT + WRITABLE + USER,
{
}

} // verus!
