//! Translation of virtual to physical addresses through the kernel page tables.
//!
//! The tables lie in memory that only the caller can read, so the walk is a
//! state machine: it asks for one entry at a time and goes on from its value.

use crate::ap_startup::pa_to_va;
use vstd::prelude::*;

verus! {

/// A level of the page tables, from the root downwards.
#[derive(Debug, Clone, Copy, PartialEq, Eq, Structural)]
pub enum WalkLevel {
    Pml4,
    Pdpt,
    Pd,
    Pt,
}

impl WalkLevel {
    /// Number of entries that can still be read, this one included.
    pub open spec fn remaining(self) -> nat {
        match self {
            WalkLevel::Pml4 => 4,
            WalkLevel::Pdpt => 3,
            WalkLevel::Pd => 2,
            WalkLevel::Pt => 1,
        }
    }
}

/// A walk that waits for the entry of `va` at `level`.
#[derive(Debug, Clone, Copy, PartialEq, Eq, Structural)]
pub struct PageWalk {
    pub level: WalkLevel,
    pub va: u64,
    pub directmap_base: u64,
}

/// What to do next in a walk.
#[derive(Debug, Clone, Copy, PartialEq, Eq, Structural)]
pub enum WalkStep {
    /// Read the 64-bit entry at the virtual address `entry_addr` and resume `walk` with it.
    Read { walk: PageWalk, entry_addr: u64 },
    /// The walk is over; `None` means that the address is not mapped.
    Done(Option<u64>),
}

/// Whether an entry is present.
pub open spec fn present(entry: u64) -> bool {
    entry % 2 == 1
}

/// Whether an entry maps a page above the lowest level.
pub open spec fn large_page(entry: u64) -> bool {
    (entry / 0x80) % 2 == 1
}

/// The address field of an entry whose page or table is aligned to `size`.
pub open spec fn frame(entry: u64, size: int) -> int {
    entry % 0x10_0000_0000_0000 - entry as int % size
}

/// The entry of `va` in a table of the given level.
pub open spec fn table_index(va: u64, level: WalkLevel) -> int {
    match level {
        WalkLevel::Pml4 => va as int / 0x80_0000_0000 % 512,
        WalkLevel::Pdpt => va as int / 0x4000_0000 % 512,
        WalkLevel::Pd => va as int / 0x20_0000 % 512,
        WalkLevel::Pt => va as int / 0x1000 % 512,
    }
}

/// The virtual address at which the entry of `va` in the table at `table_pa` is read.
pub open spec fn entry_address(
    table_pa: int,
    va: u64,
    level: WalkLevel,
    directmap_base: u64,
) -> u64 {
    ((directmap_base + table_pa + 8 * table_index(va, level)) % 0x1_0000_0000_0000_0000) as u64
}

/// The step that reads the entry of `va` in the table at `table_pa`.
pub open spec fn read_step(
    table_pa: int,
    va: u64,
    level: WalkLevel,
    directmap_base: u64,
) -> WalkStep {
    WalkStep::Read {
        walk: PageWalk { level, va, directmap_base },
        entry_addr: entry_address(table_pa, va, level, directmap_base),
    }
}

/// The address of `va` in the page of the given size that an entry maps.
pub open spec fn page_address(entry: u64, size: int, va: u64) -> u64 {
    (frame(entry, size) + va as int % size) as u64
}

/// What `va` is translated to, where `memory` holds the entries by their virtual address.
pub open spec fn translate(
    memory: spec_fn(u64) -> u64,
    cr3: u64,
    va: u64,
    directmap_base: u64,
) -> Option<u64> {
    let pml4 = memory(entry_address(cr3 - cr3 % 0x1000, va, WalkLevel::Pml4, directmap_base));
    let pdpt = memory(entry_address(frame(pml4, 0x1000), va, WalkLevel::Pdpt, directmap_base));
    let pd = memory(entry_address(frame(pdpt, 0x1000), va, WalkLevel::Pd, directmap_base));
    let pt = memory(entry_address(frame(pd, 0x1000), va, WalkLevel::Pt, directmap_base));
    if !present(pml4) {
        None
    } else if !present(pdpt) {
        None
    } else if large_page(pdpt) {
        Some(page_address(pdpt, 0x4000_0000, va))
    } else if !present(pd) {
        None
    } else if large_page(pd) {
        Some(page_address(pd, 0x20_0000, va))
    } else if !present(pt) {
        None
    } else {
        Some(page_address(pt, 0x1000, va))
    }
}

impl PageWalk {
    /// The step that follows once the awaited entry is known.
    pub open spec fn after(self, entry: u64) -> WalkStep {
        if !present(entry) {
            WalkStep::Done(None)
        } else if self.level == WalkLevel::Pt {
            WalkStep::Done(Some(page_address(entry, 0x1000, self.va)))
        } else if self.level == WalkLevel::Pd && large_page(entry) {
            WalkStep::Done(Some(page_address(entry, 0x20_0000, self.va)))
        } else if self.level == WalkLevel::Pdpt && large_page(entry) {
            WalkStep::Done(Some(page_address(entry, 0x4000_0000, self.va)))
        } else {
            let next = match self.level {
                WalkLevel::Pml4 => WalkLevel::Pdpt,
                WalkLevel::Pdpt => WalkLevel::Pd,
                _ => WalkLevel::Pt,
            };
            read_step(frame(entry, 0x1000), self.va, next, self.directmap_base)
        }
    }

    /// Goes on with a walk after its entry was read.
    pub fn resume(self, entry: u64) -> (step: WalkStep)
        ensures
            step == self.after(entry),
    {
        let va: u64 = self.va;
        proof {
            lemma_entry_fields(entry);
            lemma_page_fields(entry, va);
        }
        if (entry & 1) == 0 {
            return WalkStep::Done(None);
        }
        let next: WalkLevel = match self.level {
            WalkLevel::Pml4 => WalkLevel::Pdpt,
            WalkLevel::Pdpt => {
                if (entry & 0x80) != 0 {
                    let page_pa: u64 = entry & 0x000F_FFFF_C000_0000;
                    return WalkStep::Done(Some(page_pa | (va & 0x3FFF_FFFF)));
                }
                WalkLevel::Pd
            },
            WalkLevel::Pd => {
                if (entry & 0x80) != 0 {
                    let page_pa: u64 = entry & 0x000F_FFFF_FFE0_0000;
                    return WalkStep::Done(Some(page_pa | (va & 0x1F_FFFF)));
                }
                WalkLevel::Pt
            },
            WalkLevel::Pt => {
                let page_pa: u64 = entry & 0x000F_FFFF_FFFF_F000;
                return WalkStep::Done(Some(page_pa | (va & 0xFFF)));
            },
        };
        let table_pa: u64 = entry & 0x000F_FFFF_FFFF_F000;
        read_entry(table_pa, va, next, self.directmap_base)
    }
}

/// Asks for the entry of `va` in the table at `table_pa`.
#[verifier::rlimit(30)]
fn read_entry(table_pa: u64, va: u64, level: WalkLevel, directmap_base: u64) -> (step: WalkStep)
    ensures
        step == read_step(table_pa as int, va, level, directmap_base),
{
    proof {
        lemma_indices(va);
    }
    let index: u64 = match level {
        WalkLevel::Pml4 => (va >> 39) & 0x1FF,
        WalkLevel::Pdpt => (va >> 30) & 0x1FF,
        WalkLevel::Pd => (va >> 21) & 0x1FF,
        WalkLevel::Pt => (va >> 12) & 0x1FF,
    };
    assert(index == table_index(va, level));
    assert(index < 512);
    let table_va: u64 = pa_to_va(table_pa, directmap_base);
    let entry_addr: u64 = table_va.wrapping_add(index * 8);
    proof {
        lemma_wrap_twice(directmap_base, table_pa, (index * 8) as u64);
    }
    WalkStep::Read { walk: PageWalk { level, va, directmap_base }, entry_addr }
}

/// Starts the walk that translates `va`, given the page table root register.
///
/// The caller reads the entries that the steps ask for through the direct map
/// and resumes the walk with each, until it is done.
pub fn virt_to_phys(va: u64, directmap_base: u64, kernel_cr3: u64) -> (step: WalkStep)
    ensures
        step == read_step(
            kernel_cr3 - kernel_cr3 % 0x1000,
            va,
            WalkLevel::Pml4,
            directmap_base,
        ),
{
    assert(kernel_cr3 & !0xFFFu64 == kernel_cr3 - kernel_cr3 % 0x1000) by (bit_vector);
    let cr3: u64 = kernel_cr3 & !0xFFFu64;
    read_entry(cr3, va, WalkLevel::Pml4, directmap_base)
}

/// Runs a walk to its end on the given memory.
pub open spec fn run(memory: spec_fn(u64) -> u64, step: WalkStep) -> Option<u64>
    decreases
            match step {
                WalkStep::Read { walk, .. } => walk.level.remaining(),
                WalkStep::Done(_) => 0,
            },
{
    match step {
        WalkStep::Read { walk, entry_addr } => run(memory, walk.after(memory(entry_addr))),
        WalkStep::Done(result) => result,
    }
}

/// Whoever starts a walk and resumes it with what memory holds arrives at the
/// translation of the address.
pub proof fn walk_translates(
    memory: spec_fn(u64) -> u64,
    cr3: u64,
    va: u64,
    directmap_base: u64,
)
    ensures
        run(memory, read_step(cr3 - cr3 % 0x1000, va, WalkLevel::Pml4, directmap_base))
            == translate(memory, cr3, va, directmap_base),
{
    reveal_with_fuel(run, 6);
}

proof fn lemma_wrap_twice(a: u64, b: u64, c: u64)
    ensures
        ((a + b) % 0x1_0000_0000_0000_0000 + c) % 0x1_0000_0000_0000_0000 == (a + b + c)
            % 0x1_0000_0000_0000_0000,
{
}

proof fn lemma_entry_fields(entry: u64)
    ensures
        (entry & 1 == 0) == !present(entry),
        (entry & 0x80 != 0) == large_page(entry),
        entry & 0x000F_FFFF_FFFF_F000 == frame(entry, 0x1000),
{
    assert((entry & 1) == entry % 2) by (bit_vector);
    assert((entry & 0x80 != 0) == ((entry / 0x80) % 2 == 1)) by (bit_vector);
    assert(entry & 0x000F_FFFF_FFFF_F000 == entry % 0x10_0000_0000_0000 - entry % 0x1000)
        by (bit_vector);
}

proof fn lemma_page_fields(entry: u64, va: u64)
    ensures
        (entry & 0x000F_FFFF_C000_0000) | (va & 0x3FFF_FFFF) == page_address(
            entry,
            0x4000_0000,
            va,
        ),
        (entry & 0x000F_FFFF_FFE0_0000) | (va & 0x1F_FFFF) == page_address(entry, 0x20_0000, va),
        (entry & 0x000F_FFFF_FFFF_F000) | (va & 0xFFF) == page_address(entry, 0x1000, va),
{
    assert((entry & 0x000F_FFFF_C000_0000) | (va & 0x3FFF_FFFF) == (entry % 0x10_0000_0000_0000
        - entry % 0x4000_0000) + va % 0x4000_0000) by (bit_vector);
    assert((entry & 0x000F_FFFF_FFE0_0000) | (va & 0x1F_FFFF) == (entry % 0x10_0000_0000_0000
        - entry % 0x20_0000) + va % 0x20_0000) by (bit_vector);
    assert((entry & 0x000F_FFFF_FFFF_F000) | (va & 0xFFF) == (entry % 0x10_0000_0000_0000 - entry
        % 0x1000) + va % 0x1000) by (bit_vector);
}

proof fn lemma_indices(va: u64)
    ensures
        ((va >> 39) & 0x1FF) == table_index(va, WalkLevel::Pml4),
        ((va >> 30) & 0x1FF) == table_index(va, WalkLevel::Pdpt),
        ((va >> 21) & 0x1FF) == table_index(va, WalkLevel::Pd),
        ((va >> 12) & 0x1FF) == table_index(va, WalkLevel::Pt),
{
    assert(((va >> 39) & 0x1FF) == va / 0x80_0000_0000 % 512) by (bit_vector);
    assert(((va >> 30) & 0x1FF) == va / 0x4000_0000 % 512) by (bit_vector);
    assert(((va >> 21) & 0x1FF) == va / 0x20_0000 % 512) by (bit_vector);
    assert(((va >> 12) & 0x1FF) == va / 0x1000 % 512) by (bit_vector);
}

/// The bits of the awaited entry decide how a walk goes on, and no others do:
/// bit 0 whether the address is mapped, bit 7 above the lowest level whether the
/// entry maps a page, bits 12 to 51 where the page or the next table is.
pub proof fn bits_of_an_entry_decide(walk: PageWalk, entry: u64)
    ensures
        entry & 1 == 0 ==> walk.after(entry) == WalkStep::Done(None),
        entry & 1 != 0 ==> match walk.level {
            WalkLevel::Pml4 => walk.after(entry) == (WalkStep::Read {
                walk: PageWalk {
                    level: WalkLevel::Pdpt,
                    va: walk.va,
                    directmap_base: walk.directmap_base,
                },
                entry_addr: ((walk.directmap_base + (entry & 0x000F_FFFF_FFFF_F000) + 8 * ((walk.va
                    >> 30) & 0x1FF)) % 0x1_0000_0000_0000_0000) as u64,
            }),
            WalkLevel::Pdpt => if entry & 0x80 != 0 {
                walk.after(entry) == WalkStep::Done(
                    Some((entry & 0x000F_FFFF_C000_0000) | (walk.va & 0x3FFF_FFFF)),
                )
            } else {
                walk.after(entry) == (WalkStep::Read {
                    walk: PageWalk {
                        level: WalkLevel::Pd,
                        va: walk.va,
                        directmap_base: walk.directmap_base,
                    },
                    entry_addr: ((walk.directmap_base + (entry & 0x000F_FFFF_FFFF_F000) + 8 * ((
                    walk.va >> 21) & 0x1FF)) % 0x1_0000_0000_0000_0000) as u64,
                })
            },
            WalkLevel::Pd => if entry & 0x80 != 0 {
                walk.after(entry) == WalkStep::Done(
                    Some((entry & 0x000F_FFFF_FFE0_0000) | (walk.va & 0x1F_FFFF)),
                )
            } else {
                walk.after(entry) == (WalkStep::Read {
                    walk: PageWalk {
                        level: WalkLevel::Pt,
                        va: walk.va,
                        directmap_base: walk.directmap_base,
                    },
                    entry_addr: ((walk.directmap_base + (entry & 0x000F_FFFF_FFFF_F000) + 8 * ((
                    walk.va >> 12) & 0x1FF)) % 0x1_0000_0000_0000_0000) as u64,
                })
            },
            WalkLevel::Pt => walk.after(entry) == WalkStep::Done(
                Some((entry & 0x000F_FFFF_FFFF_F000) | (walk.va & 0xFFF)),
            ),
        },
{
    lemma_entry_fields(entry);
    lemma_page_fields(entry, walk.va);
    lemma_indices(walk.va);
}

/// A walk begins at the root table, with the entry that bits 39 to 47 of the
/// address choose, whatever the low bits of the root register are.
pub proof fn walks_begin_at_the_root(cr3: u64, va: u64, directmap_base: u64)
    ensures
        read_step(cr3 - cr3 % 0x1000, va, WalkLevel::Pml4, directmap_base) == (WalkStep::Read {
            walk: PageWalk { level: WalkLevel::Pml4, va, directmap_base },
            entry_addr: ((directmap_base + (cr3 & !0xFFFu64) + 8 * ((va >> 39) & 0x1FF))
                % 0x1_0000_0000_0000_0000) as u64,
        }),
{
    lemma_indices(va);
    assert(cr3 & !0xFFFu64 == cr3 - cr3 % 0x1000) by (bit_vector);
}

/// Running a walk reads what each step asks for and goes on from it.
pub proof fn runs_follow_the_steps(
    memory: spec_fn(u64) -> u64,
    walk: PageWalk,
    entry_addr: u64,
    result: Option<u64>,
)
    ensures
        run(memory, WalkStep::Done(result)) == result,
        run(memory, WalkStep::Read { walk, entry_addr }) == run(
            memory,
            walk.after(memory(entry_addr)),
        ),
{
}

/// A walk through tables that memory shows finds a page if and only if the
/// entries that it reads are present, and then the page that the last of them
/// names. No other bit of the entries matters.
pub proof fn present_pages_are_found(
    memory: spec_fn(u64) -> u64,
    cr3: u64,
    va: u64,
    directmap_base: u64,
)
    ensures
        ({
            let table = |pa: u64, index: u64| -> u64
                {
                    memory(
                        ((directmap_base + pa + 8 * index) % 0x1_0000_0000_0000_0000) as u64,
                    )
                };
            let pml4 = table(cr3 & !0xFFFu64, (va >> 39) & 0x1FF);
            let pdpt = table(pml4 & 0x000F_FFFF_FFFF_F000, (va >> 30) & 0x1FF);
            let pd = table(pdpt & 0x000F_FFFF_FFFF_F000, (va >> 21) & 0x1FF);
            let pt = table(pd & 0x000F_FFFF_FFFF_F000, (va >> 12) & 0x1FF);
            let found = run(
                memory,
                read_step(cr3 - cr3 % 0x1000, va, WalkLevel::Pml4, directmap_base),
            );
            let upper = pml4 & 1 != 0 && pdpt & 1 != 0;
            &&& upper && pdpt & 0x80 != 0 ==> found == Some(
                (pdpt & 0x000F_FFFF_C000_0000) | (va & 0x3FFF_FFFF),
            )
            &&& upper && pdpt & 0x80 == 0 && pd & 1 != 0 && pd & 0x80 != 0 ==> found == Some(
                (pd & 0x000F_FFFF_FFE0_0000) | (va & 0x1F_FFFF),
            )
            &&& upper && pdpt & 0x80 == 0 && pd & 1 != 0 && pd & 0x80 == 0 && pt & 1 != 0
                ==> found == Some((pt & 0x000F_FFFF_FFFF_F000) | (va & 0xFFF))
            &&& found is None ==> {
                ||| pml4 & 1 == 0
                ||| pdpt & 1 == 0
                ||| pdpt & 0x80 == 0 && pd & 1 == 0
                ||| pdpt & 0x80 == 0 && pd & 0x80 == 0 && pt & 1 == 0
            }
            &&& pml4 & 1 == 0 ==> found is None
            &&& pml4 & 1 != 0 && pdpt & 1 == 0 ==> found is None
            &&& upper && pdpt & 0x80 == 0 && pd & 1 == 0 ==> found is None
            &&& upper && pdpt & 0x80 == 0 && pd & 1 != 0 && pd & 0x80 == 0 && pt & 1 == 0
                ==> found is None
            &&& found == translate(memory, cr3, va, directmap_base)
        }),
{
    let table = |pa: u64, index: u64| -> u64
        { memory(((directmap_base + pa + 8 * index) % 0x1_0000_0000_0000_0000) as u64) };
    let pml4 = table(cr3 & !0xFFFu64, (va >> 39) & 0x1FF);
    let pdpt = table(pml4 & 0x000F_FFFF_FFFF_F000, (va >> 30) & 0x1FF);
    let pd = table(pdpt & 0x000F_FFFF_FFFF_F000, (va >> 21) & 0x1FF);
    let pt = table(pd & 0x000F_FFFF_FFFF_F000, (va >> 12) & 0x1FF);
    walks_begin_at_the_root(cr3, va, directmap_base);
    walk_translates(memory, cr3, va, directmap_base);
    let root = PageWalk { level: WalkLevel::Pml4, va, directmap_base };
    let pointer = PageWalk { level: WalkLevel::Pdpt, va, directmap_base };
    let directory = PageWalk { level: WalkLevel::Pd, va, directmap_base };
    let last = PageWalk { level: WalkLevel::Pt, va, directmap_base };
    bits_of_an_entry_decide(root, pml4);
    bits_of_an_entry_decide(pointer, pdpt);
    bits_of_an_entry_decide(directory, pd);
    bits_of_an_entry_decide(last, pt);
    reveal_with_fuel(run, 6);
}

/// Resuming a walk with an entry goes on as the bits of the entry say: it ends
/// without a result if bit 0 is clear, and on a page if one is mapped.
pub proof fn resumed_walks_follow_the_bits(walk: PageWalk, entry: u64, step: WalkStep)
    requires
        call_ensures(PageWalk::resume, (walk, entry), step),
    ensures
        step == WalkStep::Done(None) <==> entry & 1 == 0,
        entry & 1 != 0 && walk.level == WalkLevel::Pt ==> step == WalkStep::Done(
            Some((entry & 0x000F_FFFF_FFFF_F000) | (walk.va & 0xFFF)),
        ),
        entry & 1 != 0 && walk.level == WalkLevel::Pd && entry & 0x80 != 0 ==> step
            == WalkStep::Done(Some((entry & 0x000F_FFFF_FFE0_0000) | (walk.va & 0x1F_FFFF))),
        entry & 1 != 0 && walk.level == WalkLevel::Pdpt && entry & 0x80 != 0 ==> step
            == WalkStep::Done(Some((entry & 0x000F_FFFF_C000_0000) | (walk.va & 0x3FFF_FFFF))),
        entry & 1 != 0 && walk.level == WalkLevel::Pml4 ==> step is Read,
        entry & 1 != 0 && walk.level == WalkLevel::Pdpt && entry & 0x80 == 0 ==> step is Read,
        entry & 1 != 0 && walk.level == WalkLevel::Pd && entry & 0x80 == 0 ==> step is Read,
        (step matches WalkStep::Read { walk: next, entry_addr } ==> {
            let index = match walk.level {
                WalkLevel::Pml4 => (walk.va >> 30) & 0x1FF,
                WalkLevel::Pdpt => (walk.va >> 21) & 0x1FF,
                _ => (walk.va >> 12) & 0x1FF,
            };
            &&& next.va == walk.va
            &&& next.directmap_base == walk.directmap_base
            &&& walk.level == WalkLevel::Pml4 ==> next.level == WalkLevel::Pdpt
            &&& walk.level == WalkLevel::Pdpt ==> next.level == WalkLevel::Pd
            &&& walk.level == WalkLevel::Pd ==> next.level == WalkLevel::Pt
            &&& entry_addr == (walk.directmap_base + (entry & 0x000F_FFFF_FFFF_F000) + 8 * index)
                % 0x1_0000_0000_0000_0000
        }),
{
    bits_of_an_entry_decide(walk, entry);
}

/// Starting a walk asks for the root entry of the address.
pub proof fn started_walks_ask_for_the_root(
    va: u64,
    directmap_base: u64,
    kernel_cr3: u64,
    step: WalkStep,
)
    requires
        call_ensures(virt_to_phys, (va, directmap_base, kernel_cr3), step),
    ensures
        (step matches WalkStep::Read { walk, entry_addr } && {
            &&& walk.level == WalkLevel::Pml4
            &&& walk.va == va
            &&& walk.directmap_base == directmap_base
            &&& entry_addr == (directmap_base + (kernel_cr3 & !0xFFFu64) + 8 * ((va >> 39) & 0x1FF))
                % 0x1_0000_0000_0000_0000
        }),
{
    walks_begin_at_the_root(kernel_cr3, va, directmap_base);
}

} // verus!
