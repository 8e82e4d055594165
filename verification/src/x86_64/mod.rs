//! Page tables and descriptor tables of the x86_64 architecture.

pub mod interrupts;
pub mod mapping;
pub mod paging;
pub mod pte_flags;
pub mod selectors;

pub use self::interrupts::{create_descriptor, set_interrupt_tables};
pub use self::paging::set_page_table;

use vstd::prelude::*;

verus! {

/// Size of a page and of a page table.
pub const PAGE_SIZE: usize = 4096;

/// Why the tables of a context could not be set up.
#[derive(Debug, Clone, Copy, PartialEq, Eq, Structural)]
pub enum X86Error {
    /// The context has no room left for a table.
    ContextTooSmall,
    /// The page tables could not be set up.
    PageTableError,
    /// The descriptor tables could not be set up.
    InterruptTableError,
    /// A table would not be aligned.
    AlignmentError,
}

pub type X86Result<T> = Result<T, X86Error>;

} // verus!
