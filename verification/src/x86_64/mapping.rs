//! What the page tables of a context translate addresses to.

use crate::ap_startup::page_walk;
use crate::bytes;
use crate::x86_64::paging;
use crate::x86_64::paging::TablePlan;
use crate::x86_64::pte_flags;
use crate::x86_64::{X86Error, X86Result};
use vstd::prelude::*;

verus! {

/// `memory` shows the bytes `s`, which start at the physical address
/// `phys_base`, through the direct map.
pub open spec fn shows(
    memory: spec_fn(u64) -> u64,
    s: Seq<u8>,
    phys_base: int,
    directmap_base: u64,
) -> bool {
    forall|offset: int|
        0 <= offset <= s.len() - 8 ==> memory(
            ((directmap_base + (phys_base + offset)) % 0x1_0000_0000_0000_0000) as u64,
        ) == #[trigger] bytes::le64(s, offset)
}

/// The entries that the translation of `va` goes through, from the root to the
/// one that maps a page or is absent.
pub open spec fn path(
    memory: spec_fn(u64) -> u64,
    cr3: u64,
    va: u64,
    directmap_base: u64,
) -> Seq<u64> {
    let pml4 = memory(
        page_walk::entry_address(
            cr3 - cr3 % 0x1000,
            va,
            page_walk::WalkLevel::Pml4,
            directmap_base,
        ),
    );
    let pdpt = memory(
        page_walk::entry_address(
            page_walk::frame(pml4, 0x1000),
            va,
            page_walk::WalkLevel::Pdpt,
            directmap_base,
        ),
    );
    let pd = memory(
        page_walk::entry_address(
            page_walk::frame(pdpt, 0x1000),
            va,
            page_walk::WalkLevel::Pd,
            directmap_base,
        ),
    );
    let pt = memory(
        page_walk::entry_address(
            page_walk::frame(pd, 0x1000),
            va,
            page_walk::WalkLevel::Pt,
            directmap_base,
        ),
    );
    if !page_walk::present(pml4) {
        seq![pml4]
    } else if !page_walk::present(pdpt) || page_walk::large_page(pdpt) {
        seq![pml4, pdpt]
    } else if !page_walk::present(pd) || page_walk::large_page(pd) {
        seq![pml4, pdpt, pd]
    } else {
        seq![pml4, pdpt, pd, pt]
    }
}

/// An entry that is present, writable, open to user mode and does not forbid
/// execution.
pub open spec fn user_entry(entry: u64) -> bool {
    &&& entry % 2 == 1
    &&& entry / 2 % 2 == 1
    &&& entry / 4 % 2 == 1
    &&& entry < 0x8000_0000_0000_0000
}

/// A path on which every entry is open to user mode. It ends in a directory
/// entry that maps a 2 MiB page if `large`, else in a page table entry.
pub open spec fn user_path(entries: Seq<u64>, large: bool) -> bool {
    &&& forall|i: int| 0 <= i < entries.len() ==> user_entry(#[trigger] entries[i])
    &&& entries.len() == if large {
        3nat
    } else {
        4nat
    }
    &&& large ==> page_walk::large_page(entries[2])
}

impl TablePlan {
    /// Number of bytes that the tables map: the context, rounded up to whole
    /// pages, as far as the root entry reaches.
    pub open spec fn mapped_size(self) -> int {
        let size = if self.large {
            paging::ceil_div(self.context_size, 0x20_0000) * 0x20_0000
        } else {
            paging::ceil_div(self.context_size, 0x1000) * 0x1000
        };
        if size > 0x80_0000_0000 {
            0x80_0000_0000
        } else {
            size
        }
    }

    /// Every table and every mapped page is aligned as the processor wants it
    /// and has an address that fits into an entry.
    pub open spec fn addressable(self) -> bool {
        &&& self.context_size >= 0
        &&& self.phys_base >= 0
        &&& self.top % 0x1000 == 0
        &&& self.phys_base % 0x1000 == 0
        &&& self.large ==> self.phys_base % 0x20_0000 == 0
        &&& self.phys_base + self.top <= 0x10_0000_0000_0000
        &&& self.phys_base + self.mapped_size() <= 0x10_0000_0000_0000
    }

    /// Reads the entry of an address in a table through the direct map.
    proof fn lemma_read(
        self,
        memory: spec_fn(u64) -> u64,
        s: Seq<u8>,
        directmap_base: u64,
        k: int,
        va: u64,
        level: page_walk::WalkLevel,
    )
        requires
            self.addressable(),
            self.page_count() * 4096 <= self.top <= s.len(),
            self.stands_in(s, self.page_count()),
            shows(memory, s, self.phys_base, directmap_base),
            0 <= k < self.page_count(),
        ensures
            memory(
                page_walk::entry_address(self.page_phys(k) as int, va, level, directmap_base),
            ) == self.entry(self.page_count(), k, page_walk::table_index(va, level)),
    {
        let i = page_walk::table_index(va, level);
        let offset = self.page_offset(k) + 8 * i;
        assert(0 <= i < 512);
        assert(self.stored(s, k, i) == self.entry(self.page_count(), k, i));
        assert(self.stored(s, k, i) == bytes::le64(s, offset));
        assert(self.page_phys(k) == self.phys_base + self.page_offset(k));
        assert(directmap_base + self.page_phys(k) as int + 8 * i == directmap_base + (
        self.phys_base + offset));
    }

    /// An entry that points to table `k` leads there.
    proof fn lemma_link(self, k: int)
        requires
            self.addressable(),
            0 <= k,
            (k + 1) * 4096 <= self.top,
        ensures
            page_walk::present(self.page_phys(k) | pte_flags::TABLE_ENTRY),
            user_entry(self.page_phys(k) | pte_flags::TABLE_ENTRY),
            !page_walk::large_page(self.page_phys(k) | pte_flags::TABLE_ENTRY),
            page_walk::frame(self.page_phys(k) | pte_flags::TABLE_ENTRY, 0x1000)
                == self.page_phys(k),
    {
        let pa = self.page_phys(k);
        assert(pa == self.phys_base + self.page_offset(k));
        assert(pa % 0x1000 == 0 && pa < 0x10_0000_0000_0000);
        assert(pa | 0x7 == pa + 7) by (bit_vector)
            requires
                pa % 0x1000 == 0,
                pa < 0x10_0000_0000_0000,
        ;
    }
}

/// Which entries an address below 512 GiB goes through, and that they exist
/// exactly for the mapped addresses.
proof fn lemma_position(plan: TablePlan, va: u64)
    requires
        plan.context_size >= 0,
        va < 0x80_0000_0000,
    ensures
        ({
            let g = va as int / 0x4000_0000;
            let m = va as int / 0x20_0000 % 512;
            let p = va as int / 0x1000 % 512;
            let vaddr = g * 0x4000_0000 + m * 0x20_0000 + p * 4096;
            &&& 0 <= g < 512
            &&& va as int / 0x4000_0000 % 512 == g
            &&& vaddr == va - va % 0x1000
            &&& g * 0x4000_0000 + m * 0x20_0000 == va - va % 0x20_0000
            &&& plan.large ==> ((va < plan.mapped_size()) == (g < plan.gb_regions() && m
                < plan.blocks(g)))
            &&& !plan.large ==> ((va < plan.mapped_size()) == (g < plan.gb_regions() && m
                < plan.blocks(g) && vaddr < plan.context_size))
        }),
{
    let g = va as int / 0x4000_0000;
    let m = va as int / 0x20_0000 % 512;
    lemma_digits(va);
    lemma_begun_block(plan, g, m);
    lemma_mapped(plan, va);
}

/// The parts of an address below 512 GiB.
proof fn lemma_digits(va: u64)
    requires
        va < 0x80_0000_0000,
    ensures
        ({
            let g = va as int / 0x4000_0000;
            let m = va as int / 0x20_0000 % 512;
            let p = va as int / 0x1000 % 512;
            &&& 0 <= g < 512
            &&& va as int / 0x4000_0000 % 512 == g
            &&& g * 0x4000_0000 + m * 0x20_0000 == va - va % 0x20_0000
            &&& g * 0x4000_0000 + m * 0x20_0000 + p * 4096 == va - va % 0x1000
        }),
{
    let g = va as int / 0x4000_0000;
    let m = va as int / 0x20_0000 % 512;
    let p = va as int / 0x1000 % 512;
    assert(va as int / 0x20_0000 == g * 512 + m);
    assert(va as int / 0x1000 == (g * 512 + m) * 512 + p);
}

/// A block has an entry if and only if the context begins it.
proof fn lemma_begun_block(plan: TablePlan, g: int, m: int)
    requires
        plan.context_size >= 0,
        0 <= g < 512,
        0 <= m < 512,
    ensures
        (g < plan.gb_regions() && m < plan.blocks(g)) == (g * 0x4000_0000 + m * 0x20_0000
            < plan.context_size),
{
}

/// What the tables lead to for an address that they map in large pages.
proof fn lemma_large(plan: TablePlan, va: u64, pd: u64)
    requires
        plan.addressable(),
        plan.large,
        va < 0x80_0000_0000,
        va as int / 0x4000_0000 < plan.gb_regions(),
        pd == plan.entry(
            plan.page_count(),
            plan.directory_page(va as int / 0x4000_0000),
            va as int / 0x20_0000 % 512,
        ),
    ensures
        page_walk::present(pd) == (va < plan.mapped_size()),
        page_walk::present(pd) ==> page_walk::large_page(pd) && user_entry(pd),
        page_walk::present(pd) ==> page_walk::page_address(pd, 0x20_0000, va) == plan.phys_base
            + va,
{
    let g = va as int / 0x4000_0000;
    let m = va as int / 0x20_0000 % 512;
    lemma_position(plan, va);
    if m < plan.blocks(g) {
        let x = (plan.phys_base + g * 0x4000_0000 + m * 0x20_0000) as u64;
        assert(x == plan.phys_base + (va - va % 0x20_0000));
        assert(x % 0x20_0000 == 0);
        assert(x < 0x10_0000_0000_0000);
        assert(x | 0x7 | 0x80 == x + 0x87) by (bit_vector)
            requires
                x % 0x20_0000 == 0,
                x < 0x10_0000_0000_0000,
        ;
        assert(pd == x + 0x87);
    }
}

/// What the tables lead to for an address that they map in small pages.
proof fn lemma_small(plan: TablePlan, va: u64, pt: u64)
    requires
        plan.addressable(),
        !plan.large,
        va < 0x80_0000_0000,
        va as int / 0x4000_0000 < plan.gb_regions(),
        va as int / 0x20_0000 % 512 < plan.blocks(va as int / 0x4000_0000),
        pt == plan.entry(
            plan.page_count(),
            plan.table_page(va as int / 0x4000_0000, va as int / 0x20_0000 % 512),
            va as int / 0x1000 % 512,
        ),
    ensures
        page_walk::present(pt) == (va < plan.mapped_size()),
        page_walk::present(pt) ==> user_entry(pt),
        page_walk::present(pt) ==> page_walk::page_address(pt, 0x1000, va) == plan.phys_base + va,
{
    let g = va as int / 0x4000_0000;
    let m = va as int / 0x20_0000 % 512;
    let p = va as int / 0x1000 % 512;
    let k = plan.table_page(g, m);
    lemma_position(plan, va);
    assert((k - 2) / 513 == g && (k - 2) % 513 == m + 1);
    let vaddr = g * 0x4000_0000 + m * 0x20_0000 + p * 4096;
    if vaddr < plan.context_size {
        let x = (plan.phys_base + vaddr) as u64;
        assert(x == plan.phys_base + (va - va % 0x1000));
        assert(x % 0x1000 == 0);
        assert(x < 0x10_0000_0000_0000);
        assert(x | 0x7 == x + 7) by (bit_vector)
            requires
                x % 0x1000 == 0,
                x < 0x10_0000_0000_0000,
        ;
        assert(pt == x + 7);
    }
}

/// The root entry of an address: it leads to the directory pointer table for
/// the addresses below 512 GiB and is absent for the others.
proof fn lemma_root(
    plan: TablePlan,
    s: Seq<u8>,
    memory: spec_fn(u64) -> u64,
    directmap_base: u64,
    va: u64,
    pml4: u64,
)
    requires
        plan.addressable(),
        plan.page_count() * 4096 <= plan.top <= s.len(),
        plan.stands_in(s, plan.page_count()),
        shows(memory, s, plan.phys_base, directmap_base),
        va < 0x1_0000_0000_0000,
        pml4 == memory(
            page_walk::entry_address(
                plan.page_phys(0) as int,
                va,
                page_walk::WalkLevel::Pml4,
                directmap_base,
            ),
        ),
    ensures
        page_walk::present(pml4) == (va < 0x80_0000_0000),
        va < 0x80_0000_0000 ==> page_walk::frame(pml4, 0x1000) == plan.page_phys(1),
        va < 0x80_0000_0000 ==> user_entry(pml4),
{
    plan.lemma_counts();
    plan.lemma_read(memory, s, directmap_base, 0, va, page_walk::WalkLevel::Pml4);
    plan.lemma_link(1);
}

/// The directory pointer entry of an address: it leads to the directory of a
/// gigabyte in which the context has a part and is absent for the others.
proof fn lemma_pointer(
    plan: TablePlan,
    s: Seq<u8>,
    memory: spec_fn(u64) -> u64,
    directmap_base: u64,
    va: u64,
    pdpt: u64,
)
    requires
        plan.addressable(),
        plan.page_count() * 4096 <= plan.top <= s.len(),
        plan.stands_in(s, plan.page_count()),
        shows(memory, s, plan.phys_base, directmap_base),
        va < 0x80_0000_0000,
        pdpt == memory(
            page_walk::entry_address(
                plan.page_phys(1) as int,
                va,
                page_walk::WalkLevel::Pdpt,
                directmap_base,
            ),
        ),
    ensures
        ({
            let g = va as int / 0x4000_0000;
            &&& page_walk::present(pdpt) == (g < plan.gb_regions())
            &&& g < plan.gb_regions() ==> !page_walk::large_page(pdpt) && user_entry(pdpt)
            &&& g < plan.gb_regions() ==> page_walk::frame(pdpt, 0x1000) == plan.page_phys(
                plan.directory_page(g),
            )
        }),
{
    let g = va as int / 0x4000_0000;
    plan.lemma_counts();
    plan.lemma_read(memory, s, directmap_base, 1, va, page_walk::WalkLevel::Pdpt);
    assert(page_walk::table_index(va, page_walk::WalkLevel::Pdpt) == g);
    if g < plan.gb_regions() {
        plan.lemma_link(plan.directory_page(g));
    }
}

/// The directory entry of an address, where directories point to page tables:
/// it leads to the page table of a block of the context and is absent for the
/// others.
proof fn lemma_directory(
    plan: TablePlan,
    s: Seq<u8>,
    memory: spec_fn(u64) -> u64,
    directmap_base: u64,
    va: u64,
    pd: u64,
)
    requires
        plan.addressable(),
        plan.page_count() * 4096 <= plan.top <= s.len(),
        plan.stands_in(s, plan.page_count()),
        shows(memory, s, plan.phys_base, directmap_base),
        !plan.large,
        va < 0x80_0000_0000,
        va as int / 0x4000_0000 < plan.gb_regions(),
        pd == memory(
            page_walk::entry_address(
                plan.page_phys(plan.directory_page(va as int / 0x4000_0000)) as int,
                va,
                page_walk::WalkLevel::Pd,
                directmap_base,
            ),
        ),
    ensures
        ({
            let g = va as int / 0x4000_0000;
            let m = va as int / 0x20_0000 % 512;
            &&& page_walk::present(pd) == (m < plan.blocks(g))
            &&& m < plan.blocks(g) ==> !page_walk::large_page(pd) && user_entry(pd)
            &&& m < plan.blocks(g) ==> page_walk::frame(pd, 0x1000) == plan.page_phys(
                plan.table_page(g, m),
            )
        }),
{
    let g = va as int / 0x4000_0000;
    let m = va as int / 0x20_0000 % 512;
    let k = plan.directory_page(g);
    plan.lemma_counts();
    plan.lemma_read(memory, s, directmap_base, k, va, page_walk::WalkLevel::Pd);
    assert((k - 2) / 513 == g && (k - 2) % 513 == 0);
    if m < plan.blocks(g) {
        plan.lemma_link(plan.table_page(g, m));
    }
}

/// The tables of a context map every address below its size, rounded up to
/// whole pages, onto the physical memory of the context, and nothing else. User
/// code may read, write and execute all of it. The pages are of 2 MiB if the
/// tables are for large pages, else of 4 KiB.
pub proof fn tables_map_the_context(
    plan: TablePlan,
    s: Seq<u8>,
    memory: spec_fn(u64) -> u64,
    directmap_base: u64,
    va: u64,
)
    requires
        plan.addressable(),
        plan.page_count() * 4096 <= plan.top <= s.len(),
        plan.stands_in(s, plan.page_count()),
        shows(memory, s, plan.phys_base, directmap_base),
        va < 0x1_0000_0000_0000,
    ensures
        page_walk::translate(memory, plan.page_phys(0), va, directmap_base) == if va
            < plan.mapped_size() {
            Some((plan.phys_base + va) as u64)
        } else {
            None
        },
        va < plan.mapped_size() ==> user_path(
            path(memory, plan.page_phys(0), va, directmap_base),
            plan.large,
        ),
{
    let root = plan.page_phys(0);
    let g = va as int / 0x4000_0000;
    let m = va as int / 0x20_0000 % 512;
    let k = plan.directory_page(g);
    let t1 = plan.page_phys(1) as int;
    let t2 = plan.page_phys(k) as int;
    let t3 = plan.page_phys(plan.table_page(g, m)) as int;
    let pml4 = entry_at(memory, root as int, va, page_walk::WalkLevel::Pml4, directmap_base);
    let pdpt = entry_at(memory, t1, va, page_walk::WalkLevel::Pdpt, directmap_base);
    let pd = entry_at(memory, t2, va, page_walk::WalkLevel::Pd, directmap_base);
    let pt = entry_at(memory, t3, va, page_walk::WalkLevel::Pt, directmap_base);
    lemma_root_aligned(plan);
    lemma_root(plan, s, memory, directmap_base, va, pml4);
    if va >= 0x80_0000_0000 {
        lemma_mapped(plan, va);
        lemma_walked(memory, root, va, directmap_base, t1, t2, t3);
    } else {
        lemma_pointer(plan, s, memory, directmap_base, va, pdpt);
        if g >= plan.gb_regions() {
            lemma_unmapped(plan, va);
            lemma_walked(memory, root, va, directmap_base, t1, t2, t3);
        } else if plan.large {
            lemma_leaf_entry(plan, s, memory, directmap_base, va);
            lemma_large(plan, va, pd);
            lemma_walked(memory, root, va, directmap_base, t1, t2, t3);
        } else {
            lemma_directory(plan, s, memory, directmap_base, va, pd);
            if m < plan.blocks(g) {
                lemma_leaf_entry(plan, s, memory, directmap_base, va);
                lemma_small(plan, va, pt);
            } else {
                lemma_unmapped(plan, va);
            }
            lemma_walked(memory, root, va, directmap_base, t1, t2, t3);
        }
    }
}

/// The entry of `va` in the table at `table_pa`.
spec fn entry_at(
    memory: spec_fn(u64) -> u64,
    table_pa: int,
    va: u64,
    level: page_walk::WalkLevel,
    directmap_base: u64,
) -> u64 {
    memory(page_walk::entry_address(table_pa, va, level, directmap_base))
}

/// Where the tables on the way are known, so are the entries on the way.
proof fn lemma_walked(
    memory: spec_fn(u64) -> u64,
    root: u64,
    va: u64,
    directmap_base: u64,
    t1: int,
    t2: int,
    t3: int,
)
    requires
        root as int % 0x1000 == 0,
        ({
            let pml4 = entry_at(memory, root as int, va, page_walk::WalkLevel::Pml4, directmap_base);
            let pdpt = entry_at(memory, t1, va, page_walk::WalkLevel::Pdpt, directmap_base);
            let pd = entry_at(memory, t2, va, page_walk::WalkLevel::Pd, directmap_base);
            &&& page_walk::present(pml4) ==> page_walk::frame(pml4, 0x1000) == t1
            &&& page_walk::present(pml4) && page_walk::present(pdpt) && !page_walk::large_page(pdpt)
                ==> page_walk::frame(pdpt, 0x1000) == t2
            &&& page_walk::present(pml4) && page_walk::present(pdpt) && !page_walk::large_page(pdpt)
                && page_walk::present(pd) && !page_walk::large_page(pd) ==> page_walk::frame(
                pd,
                0x1000,
            ) == t3
        }),
    ensures
        ({
            let pml4 = entry_at(memory, root as int, va, page_walk::WalkLevel::Pml4, directmap_base);
            let pdpt = entry_at(memory, t1, va, page_walk::WalkLevel::Pdpt, directmap_base);
            let pd = entry_at(memory, t2, va, page_walk::WalkLevel::Pd, directmap_base);
            let pt = entry_at(memory, t3, va, page_walk::WalkLevel::Pt, directmap_base);
            let found = page_walk::translate(memory, root, va, directmap_base);
            let entries = path(memory, root, va, directmap_base);
            if !page_walk::present(pml4) {
                found is None
            } else if !page_walk::present(pdpt) {
                found is None
            } else if page_walk::large_page(pdpt) {
                true
            } else if !page_walk::present(pd) {
                found is None
            } else if page_walk::large_page(pd) {
                &&& found == Some(page_walk::page_address(pd, 0x20_0000, va))
                &&& entries == seq![pml4, pdpt, pd]
            } else if !page_walk::present(pt) {
                found is None
            } else {
                &&& found == Some(page_walk::page_address(pt, 0x1000, va))
                &&& entries == seq![pml4, pdpt, pd, pt]
            }
        }),
{
    assert(root - root % 0x1000 == root);
}

proof fn lemma_root_aligned(plan: TablePlan)
    requires
        plan.addressable(),
        plan.page_count() * 4096 <= plan.top,
    ensures
        plan.page_phys(0) as int % 0x1000 == 0,
{
    plan.lemma_counts();
    assert(plan.page_phys(0) == plan.phys_base + plan.page_offset(0));
}

/// An address in a block that the context does not begin is not mapped.
proof fn lemma_unmapped(plan: TablePlan, va: u64)
    requires
        plan.context_size >= 0,
        va < 0x80_0000_0000,
        va as int / 0x4000_0000 >= plan.gb_regions() || va as int / 0x20_0000 % 512
            >= plan.blocks(va as int / 0x4000_0000),
    ensures
        va >= plan.mapped_size(),
{
    lemma_position(plan, va);
}

/// The entry that maps the page of an address, as memory shows it.
proof fn lemma_leaf_entry(
    plan: TablePlan,
    s: Seq<u8>,
    memory: spec_fn(u64) -> u64,
    directmap_base: u64,
    va: u64,
)
    requires
        plan.addressable(),
        plan.page_count() * 4096 <= plan.top <= s.len(),
        plan.stands_in(s, plan.page_count()),
        shows(memory, s, plan.phys_base, directmap_base),
        va < 0x80_0000_0000,
        va as int / 0x4000_0000 < plan.gb_regions(),
        !plan.large ==> va as int / 0x20_0000 % 512 < plan.blocks(va as int / 0x4000_0000),
    ensures
        ({
            let g = va as int / 0x4000_0000;
            let m = va as int / 0x20_0000 % 512;
            let k = plan.directory_page(g);
            let k2 = plan.table_page(g, m);
            &&& plan.large ==> entry_at(
                memory,
                plan.page_phys(k) as int,
                va,
                page_walk::WalkLevel::Pd,
                directmap_base,
            ) == plan.entry(plan.page_count(), k, m)
            &&& !plan.large ==> entry_at(
                memory,
                plan.page_phys(k2) as int,
                va,
                page_walk::WalkLevel::Pt,
                directmap_base,
            ) == plan.entry(plan.page_count(), k2, va as int / 0x1000 % 512)
        }),
{
    let g = va as int / 0x4000_0000;
    let m = va as int / 0x20_0000 % 512;
    plan.lemma_counts();
    if plan.large {
        let k = plan.directory_page(g);
        plan.lemma_read(memory, s, directmap_base, k, va, page_walk::WalkLevel::Pd);
    } else {
        let k2 = plan.table_page(g, m);
        plan.lemma_read(memory, s, directmap_base, k2, va, page_walk::WalkLevel::Pt);
    }
}

/// An address below 512 GiB leads into the context if and only if its page
/// begins below the end of the context, and then to the byte at the same offset
/// from the physical base. Every other address leads nowhere.
pub proof fn addresses_lead_into_the_context(
    plan: TablePlan,
    s: Seq<u8>,
    memory: spec_fn(u64) -> u64,
    directmap_base: u64,
    va: u64,
)
    requires
        plan.context_size >= 0,
        plan.phys_base >= 0,
        plan.top % 4096 == 0,
        plan.phys_base % 4096 == 0,
        plan.large ==> plan.phys_base % 0x20_0000 == 0,
        plan.phys_base + plan.top <= 0x10_0000_0000_0000,
        plan.phys_base + 0x1f_ffff + (if plan.context_size < 0x80_0000_0000 {
            plan.context_size
        } else {
            0x80_0000_0000
        }) <= 0x10_0000_0000_0000,
        plan.page_count() * 4096 <= plan.top <= s.len(),
        plan.stands_in(s, plan.page_count()),
        forall|offset: int|
            0 <= offset <= s.len() - 8 ==> memory(
                ((directmap_base + (plan.phys_base + offset)) % 0x1_0000_0000_0000_0000) as u64,
            ) == #[trigger] bytes::le64(s, offset),
        va < 0x1_0000_0000_0000,
    ensures
        ({
            let page = if plan.large {
                0x20_0000int
            } else {
                0x1000
            };
            let found = page_walk::translate(
                memory,
                (plan.phys_base + plan.top - 4096) as u64,
                va,
                directmap_base,
            );
            if va < 0x80_0000_0000 && va as int - va as int % page < plan.context_size {
                found == Some((plan.phys_base + va) as u64)
            } else {
                found is None
            }
        }),
{
    lemma_mapped(plan, va);
    assert(plan.page_phys(0) == (plan.phys_base + plan.top - 4096) as u64);
    tables_map_the_context(plan, s, memory, directmap_base, va);
}

proof fn lemma_mapped(plan: TablePlan, va: u64)
    requires
        plan.context_size >= 0,
    ensures
        plan.mapped_size() <= 0x80_0000_0000,
        plan.mapped_size() <= plan.context_size + 0x1f_ffff,
        plan.large ==> ((va < plan.mapped_size()) == (va < 0x80_0000_0000 && va as int - va as int
            % 0x20_0000 < plan.context_size)),
        !plan.large ==> ((va < plan.mapped_size()) == (va < 0x80_0000_0000 && va as int - va as int
            % 0x1000 < plan.context_size)),
{
}

/// The tables that are built for a context in whole pages translate every
/// address whose page begins below the end of the context to the byte at the
/// same offset in its physical memory, and no other address. Building succeeds
/// if and only if there is room for all tables, takes just that room, and
/// touches no other bytes.
pub proof fn built_tables_translate_the_context(
    storage: &mut [u8],
    stack_start: &mut usize,
    context_size: usize,
    phys_base: u64,
    use_large_pages: bool,
    result: X86Result<u64>,
    memory: spec_fn(u64) -> u64,
    directmap_base: u64,
    va: u64,
    j: int,
)
    requires
        call_ensures(
            paging::set_page_table,
            (storage, stack_start, context_size, phys_base, use_large_pages),
            result,
        ),
        *old(stack_start) <= old(storage)@.len(),
        0 <= j < old(storage)@.len(),
    ensures
        ({
            let top = *old(stack_start) as int;
            let gigabytes = (context_size + 0x3fff_ffff) / 0x4000_0000;
            let blocks = (context_size + 0x1f_ffff) / 0x20_0000;
            let tables = 2 + (if gigabytes < 1 {
                1
            } else if gigabytes > 512 {
                512
            } else {
                gigabytes
            }) + (if use_large_pages {
                0
            } else if blocks > 0x4_0000 {
                0x4_0000
            } else {
                blocks
            });
            let page = if use_large_pages {
                0x20_0000int
            } else {
                0x1000
            };
            &&& result is Ok <==> tables * 4096 <= top
            &&& result is Err ==> result->Err_0 == X86Error::ContextTooSmall
            &&& result is Ok ==> *final(stack_start) == top - tables * 4096
            &&& result is Err ==> *final(stack_start) == top % 4096
            &&& j < *final(stack_start) || top <= j ==> final(storage)@[j] == old(storage)@[j]
            &&& result is Ok && phys_base + top <= u64::MAX ==> result->Ok_0 == phys_base + top
                - 4096
            &&& {
                &&& result is Ok
                &&& top % 4096 == 0
                &&& phys_base as int % page == 0
                &&& phys_base + top <= 0x10_0000_0000_0000
                &&& context_size <= 0x80_0000_0000
                &&& phys_base + 0x1f_ffff + context_size <= 0x10_0000_0000_0000
                &&& va < 0x1_0000_0000_0000
                &&& shows(memory, final(storage)@, phys_base as int, directmap_base)
            } ==> page_walk::translate(memory, result->Ok_0, va, directmap_base) == if va as int
                - va as int % page < context_size {
                Some((phys_base + va) as u64)
            } else {
                None
            }
        }),
{
    let plan = TablePlan {
        top: *old(stack_start) as int,
        context_size: context_size as int,
        phys_base: phys_base as int,
        large: use_large_pages,
    };
    paging::tables_taken_by_a_context(plan);
    if result is Ok && phys_base + plan.top <= u64::MAX {
        paging::root_is_the_highest_page(plan);
    }
    if {
        &&& result is Ok
        &&& plan.top % 4096 == 0
        &&& phys_base as int % (if use_large_pages {
            0x20_0000int
        } else {
            0x1000
        }) == 0
        &&& phys_base + plan.top <= 0x10_0000_0000_0000
        &&& context_size <= 0x80_0000_0000
        &&& phys_base + 0x1f_ffff + context_size <= 0x10_0000_0000_0000
        &&& va < 0x1_0000_0000_0000
        &&& shows(memory, final(storage)@, phys_base as int, directmap_base)
    } {
        addresses_lead_into_the_context(plan, final(storage)@, memory, directmap_base, va);
        if va >= 0x80_0000_0000 {
            assert(va as int - va as int % 0x20_0000 >= 0x80_0000_0000);
            assert(va as int - va as int % 0x1000 >= 0x80_0000_0000);
        }
    }
}

} // verus!
