//! Four-level page tables that map a context onto its physical memory.
//!
//! The tables are taken page by page from the top of the context downwards:
//! first the root table, then the table below it, then for every gigabyte a
//! page directory and, where small pages are used, the page tables of that
//! directory.

use crate::bytes;
use crate::x86_64::pte_flags;
use crate::x86_64::{X86Error, X86Result, PAGE_SIZE};
use vstd::prelude::*;

verus! {

/// What one entry of a page directory pointer table maps.
pub const GIGABYTE: usize = 0x4000_0000;

/// What one entry of a page directory maps.
pub const BLOCK_SIZE: usize = 0x20_0000;

/// Entries of a table.
pub const TABLE_ENTRIES: usize = 512;

/// `n / d`, rounded up.
pub open spec fn ceil_div(n: int, d: int) -> int {
    (n + d - 1) / d
}

/// The arrangement of the tables of a context.
///
/// Tables are numbered in the order in which they are taken: table `k` fills
/// the page that ends `k` pages below `top`.
pub struct TablePlan {
    /// End of the table area, an offset into the context.
    pub top: int,
    /// Number of bytes to map.
    pub context_size: int,
    /// Physical address of offset zero.
    pub phys_base: int,
    /// Whether directories map 2 MiB pages themselves.
    pub large: bool,
}

impl TablePlan {
    /// Number of page directories.
    pub open spec fn gb_regions(self) -> int {
        let n = ceil_div(self.context_size, 0x4000_0000);
        if n < 1 {
            1
        } else if n > 512 {
            512
        } else {
            n
        }
    }

    /// Number of 2 MiB blocks of the context in gigabyte `g`.
    pub open spec fn blocks(self, g: int) -> int {
        let rest = self.context_size - g * 0x4000_0000;
        if rest <= 0 {
            0
        } else if rest >= 0x4000_0000 {
            512
        } else {
            ceil_div(rest, 0x20_0000)
        }
    }

    /// The table that is the page directory of gigabyte `g`.
    pub open spec fn directory_page(self, g: int) -> int {
        if self.large {
            2 + g
        } else {
            2 + 513 * g
        }
    }

    /// The table that maps block `m` of gigabyte `g` in small pages.
    pub open spec fn table_page(self, g: int, m: int) -> int {
        2 + 513 * g + 1 + m
    }

    /// Number of tables.
    pub open spec fn page_count(self) -> int {
        let last = self.gb_regions() - 1;
        if self.large {
            self.directory_page(last) + 1
        } else {
            self.directory_page(last) + 1 + self.blocks(last)
        }
    }

    /// Number of tables for which there is room.
    pub open spec fn built(self) -> int {
        if self.top / 4096 < self.page_count() {
            self.top / 4096
        } else {
            self.page_count()
        }
    }

    /// Offset of table `k` in the context.
    pub open spec fn page_offset(self, k: int) -> int {
        self.top - (k + 1) * 4096
    }

    /// Physical address of table `k`.
    pub open spec fn page_phys(self, k: int) -> u64 {
        (self.phys_base + self.page_offset(k)) as u64
    }

    /// The table that entry `i` of table `k` points to, or -1 where the entry
    /// points to no table.
    pub open spec fn link_target(self, k: int, i: int) -> int {
        if k == 0 {
            if i == 0 {
                1
            } else {
                -1
            }
        } else if k == 1 {
            if i < self.gb_regions() {
                self.directory_page(i)
            } else {
                -1
            }
        } else if !self.large && (k - 2) % 513 == 0 && i < self.blocks((k - 2) / 513) {
            self.table_page((k - 2) / 513, i)
        } else {
            -1
        }
    }

    /// The offset of the page that entry `i` of table `k` maps, where it maps one.
    pub open spec fn page_vaddr(self, k: int, i: int) -> int {
        if self.large {
            (k - 2) * 0x4000_0000 + i * 0x20_0000
        } else {
            (k - 2) / 513 * 0x4000_0000 + ((k - 2) % 513 - 1) * 0x20_0000 + i * 4096
        }
    }

    /// Whether entry `i` of table `k` maps a page.
    pub open spec fn maps_page(self, k: int, i: int) -> bool {
        &&& k >= 2
        &&& if self.large {
            i < self.blocks(k - 2)
        } else {
            (k - 2) % 513 >= 1 && self.page_vaddr(k, i) < self.context_size
        }
    }

    /// Every page that the tables map, as far as there is room for them, has a
    /// 64-bit physical address.
    pub open spec fn pages_addressed(self) -> bool {
        forall|k: int, i: int|
            0 <= k < self.built() && 0 <= i < 512 && #[trigger] self.maps_page(k, i)
                ==> self.phys_base + self.page_vaddr(k, i) <= u64::MAX
    }

    /// The value of entry `i` of table `k`, where the entry points to no table:
    /// the page that it maps, or zero.
    pub open spec fn leaf(self, k: int, i: int) -> u64 {
        if !self.maps_page(k, i) {
            0
        } else if self.large {
            (self.phys_base + self.page_vaddr(k, i)) as u64 | pte_flags::USER_PAGE
                | pte_flags::HUGE_PAGE
        } else {
            (self.phys_base + self.page_vaddr(k, i)) as u64 | pte_flags::USER_PAGE
        }
    }

    /// The value of entry `i` of table `k` once the first `built` tables exist.
    pub open spec fn entry(self, built: int, k: int, i: int) -> u64 {
        let target = self.link_target(k, i);
        if target < 0 {
            self.leaf(k, i)
        } else if target < built {
            self.page_phys(target) | pte_flags::TABLE_ENTRY
        } else {
            0
        }
    }

    /// Entry `i` of table `k` in the bytes of a context.
    pub open spec fn stored(self, s: Seq<u8>, k: int, i: int) -> int {
        bytes::le64(s, self.page_offset(k) + 8 * i)
    }

    /// The first `built` tables stand in `s`.
    pub open spec fn stands_in(self, s: Seq<u8>, built: int) -> bool {
        forall|k: int, i: int|
            0 <= k < built && 0 <= i < 512 ==> #[trigger] self.stored(s, k, i) == self.entry(
                built,
                k,
                i,
            )
    }

    /// Every gigabyte but the last is full, and the counts are within a table.
    pub proof fn lemma_counts(self)
        requires
            self.context_size >= 0,
        ensures
            1 <= self.gb_regions() <= 512,
            forall|g: int| 0 <= g < self.gb_regions() - 1 ==> #[trigger] self.blocks(g) == 512,
            forall|g: int| 0 <= #[trigger] self.blocks(g) <= 512,
            self.page_count() >= 3,
            forall|g: int|
                0 <= g < self.gb_regions() ==> 2 <= #[trigger] self.directory_page(g)
                    < self.page_count(),
            forall|g: int, m: int|
                0 <= g < self.gb_regions() && 0 <= m < self.blocks(g) && !self.large ==> 3
                    <= #[trigger] self.table_page(g, m) < self.page_count(),
    {
    }

    /// No two entries point to the same table.
    proof fn lemma_one_link(self, k: int, i: int, k2: int, i2: int)
        requires
            0 <= k,
            0 <= i < 512,
            0 <= k2,
            0 <= i2 < 512,
            self.link_target(k, i) >= 0,
            self.link_target(k, i) == self.link_target(k2, i2),
        ensures
            k == k2,
            i == i2,
    {
        if k >= 2 {
            assert(self.blocks((k - 2) / 513) <= 512);
        }
        if k2 >= 2 {
            assert(self.blocks((k2 - 2) / 513) <= 512);
        }
    }

    /// One more table, with the entry that points to it.
    proof fn lemma_add_page(self, s0: Seq<u8>, s1: Seq<u8>, built: int, k: int, i: int)
        requires
            self.stands_in(s0, built),
            0 <= k < built,
            0 <= i < 512,
            self.link_target(k, i) == built,
            s1.len() == s0.len(),
            (built + 1) * 4096 <= self.top <= s0.len(),
            forall|j: int|
                0 <= j < s0.len() && !(self.page_offset(built) <= j < self.page_offset(built)
                    + 4096) && !(self.page_offset(k) + 8 * i <= j < self.page_offset(k) + 8 * i
                    + 8) ==> #[trigger] s1[j] == s0[j],
            self.stored(s1, k, i) == self.page_phys(built) | pte_flags::TABLE_ENTRY,
            forall|n: int|
                0 <= n < 512 ==> #[trigger] self.stored(s1, built, n) == self.entry(
                    built + 1,
                    built,
                    n,
                ),
        ensures
            self.stands_in(s1, built + 1),
    {
        assert forall|k2: int, i2: int|
            0 <= k2 < built + 1 && 0 <= i2 < 512 implies #[trigger] self.stored(s1, k2, i2)
            == self.entry(built + 1, k2, i2) by {
            if k2 < built && !(k2 == k && i2 == i) {
                if self.link_target(k2, i2) == built {
                    self.lemma_one_link(k, i, k2, i2);
                }
                assert(self.entry(built + 1, k2, i2) == self.entry(built, k2, i2));
                assert(self.stored(s0, k2, i2) == self.entry(built, k2, i2));
                let at = self.page_offset(k2) + 8 * i2;
                assert(forall|b: int| at <= b < at + 8 ==> #[trigger] s1[b] == s0[b]);
            }
        }
    }
}

/// The entries of a cleared table are zero.
proof fn lemma_zero_table(s: Seq<u8>, at: int)
    requires
        bytes::zeroed(s, at, at + 4096),
    ensures
        forall|i: int| 0 <= i < 512 ==> #[trigger] bytes::le64(s, at + 8 * i) == 0,
{
}

/// An entry outside the page at `page` is not touched by a change of that page.
proof fn lemma_same_entry(s0: Seq<u8>, s1: Seq<u8>, page: int, at: int)
    requires
        bytes::same_outside(s0, s1, page, page + 4096),
        0 <= at <= s0.len() - 8,
        at + 8 <= page || page + 4096 <= at,
    ensures
        bytes::le64(s1, at) == bytes::le64(s0, at),
{
    assert(forall|b: int| at <= b < at + 8 ==> #[trigger] s1[b] == s0[b]);
}

/// Writes a page table entry.
fn write_pte(storage: &mut [u8], table_offset: usize, index: usize, value: u64)
    requires
        table_offset + index * 8 + 8 <= old(storage)@.len(),
    ensures
        bytes::le64(final(storage)@, table_offset + index * 8) == value,
        bytes::same_outside(
            old(storage)@,
            final(storage)@,
            table_offset + index * 8,
            table_offset + index * 8 + 8,
        ),
{
    assert(storage.len() == storage@.len());
    let offset: usize = table_offset + index * 8;
    bytes::put_u64(storage, offset, value);
}

/// Takes the next page below `stack_start` for a table and clears it.
fn take_table(storage: &mut [u8], stack_start: &mut usize) -> (taken: bool)
    requires
        *old(stack_start) >= PAGE_SIZE ==> *old(stack_start) <= old(storage)@.len(),
    ensures
        taken == (*old(stack_start) >= PAGE_SIZE),
        !taken ==> *final(stack_start) == *old(stack_start) && final(storage)@ == old(storage)@,
        taken ==> {
            &&& *final(stack_start) == *old(stack_start) - PAGE_SIZE
            &&& bytes::zeroed(final(storage)@, *final(stack_start) as int, *old(stack_start) as int)
            &&& bytes::same_outside(
                old(storage)@,
                final(storage)@,
                *final(stack_start) as int,
                *old(stack_start) as int,
            )
        },
{
    if *stack_start < PAGE_SIZE {
        return false;
    }
    *stack_start = *stack_start - PAGE_SIZE;
    let from: usize = *stack_start;
    bytes::fill_zero(storage, from, from + PAGE_SIZE);
    true
}

/// Maps the first `count` blocks of a gigabyte in its directory, as large pages.
fn map_blocks(storage: &mut [u8], pd_offset: usize, count: usize, gb_start: usize, phys_base: u64)
    requires
        pd_offset + 4096 <= old(storage)@.len(),
        count <= 512,
        bytes::zeroed(old(storage)@, pd_offset as int, pd_offset + 4096),
        count > 0 ==> gb_start + (count - 1) * 0x20_0000 <= usize::MAX,
        count > 0 ==> phys_base + gb_start + (count - 1) * 0x20_0000 <= u64::MAX,
    ensures
        bytes::same_outside(old(storage)@, final(storage)@, pd_offset as int, pd_offset + 4096),
        forall|i: int|
            0 <= i < 512 ==> #[trigger] bytes::le64(final(storage)@, pd_offset + 8 * i) == if i < count {
                (phys_base + gb_start + i * 0x20_0000) as u64 | pte_flags::USER_PAGE
                    | pte_flags::HUGE_PAGE
            } else {
                0
            },
{
    let mut mb_idx: usize = 0;
    while mb_idx < count
        invariant
            mb_idx <= count <= 512,
            pd_offset + 4096 <= storage@.len(),
            count > 0 ==> gb_start + (count - 1) * 0x20_0000 <= usize::MAX,
            count > 0 ==> phys_base + gb_start + (count - 1) * 0x20_0000 <= u64::MAX,
            bytes::same_outside(old(storage)@, storage@, pd_offset as int, pd_offset + 4096),
            forall|i: int|
                0 <= i < 512 ==> #[trigger] bytes::le64(storage@, pd_offset + 8 * i) == if i < mb_idx {
                    (phys_base + gb_start + i * 0x20_0000) as u64 | pte_flags::USER_PAGE
                        | pte_flags::HUGE_PAGE
                } else {
                    0
                },
        decreases count - mb_idx,
    {
        let vaddr: usize = gb_start + mb_idx * BLOCK_SIZE;
        let paddr: u64 = phys_base + vaddr as u64;
        let ghost before = storage@;
        write_pte(
            storage,
            pd_offset,
            mb_idx,
            paddr | pte_flags::USER_PAGE | pte_flags::HUGE_PAGE,
        );
        proof {
            assert forall|i: int| 0 <= i < 512 && i != mb_idx implies #[trigger] bytes::le64(
                storage@,
                pd_offset + 8 * i,
            ) == bytes::le64(before, pd_offset + 8 * i) by {
                let at = pd_offset + 8 * i;
                assert(forall|b: int| at <= b < at + 8 ==> #[trigger] storage@[b] == before[b]);
            }
        }
        mb_idx = mb_idx + 1;
    }
}

/// Where page `i` of the block at `vaddr` starts.
spec fn page_start(vaddr: int, i: int) -> int {
    vaddr + i * 4096
}

/// Maps one block in its page table, page by page, as far as the context reaches.
fn map_pages(
    storage: &mut [u8],
    pt_offset: usize,
    vaddr: usize,
    context_size: usize,
    phys_base: u64,
)
    requires
        pt_offset + 4096 <= old(storage)@.len(),
        bytes::zeroed(old(storage)@, pt_offset as int, pt_offset + 4096),
        vaddr <= context_size,
        context_size + 0x4000_0000 <= usize::MAX,
        forall|i: int|
            0 <= i < 512 && #[trigger] page_start(vaddr as int, i) < context_size ==> phys_base
                + page_start(vaddr as int, i) <= u64::MAX,
    ensures
        bytes::same_outside(old(storage)@, final(storage)@, pt_offset as int, pt_offset + 4096),
        forall|i: int|
            0 <= i < 512 ==> #[trigger] bytes::le64(final(storage)@, pt_offset + 8 * i) == if vaddr + i
                * 4096 < context_size {
                (phys_base + vaddr + i * 4096) as u64 | pte_flags::USER_PAGE
            } else {
                0
            },
{
    let mut page_idx: usize = 0;
    while page_idx < TABLE_ENTRIES
        invariant_except_break
            vaddr + page_idx * 4096 <= context_size + 4096,
        invariant
            page_idx <= 512,
            pt_offset + 4096 <= storage@.len(),
            vaddr <= context_size,
            context_size + 0x4000_0000 <= usize::MAX,
            forall|i: int|
                0 <= i < 512 && #[trigger] page_start(vaddr as int, i) < context_size ==> phys_base
                    + page_start(vaddr as int, i) <= u64::MAX,
            bytes::same_outside(old(storage)@, storage@, pt_offset as int, pt_offset + 4096),
            forall|i: int|
                0 <= i < 512 ==> #[trigger] bytes::le64(storage@, pt_offset + 8 * i) == if i < page_idx
                    && vaddr + i * 4096 < context_size {
                    (phys_base + vaddr + i * 4096) as u64 | pte_flags::USER_PAGE
                } else {
                    0
                },
        ensures
            page_idx == 512 || vaddr + page_idx * 4096 >= context_size,
        decreases 512 - page_idx,
    {
        let page_vaddr: usize = vaddr + page_idx * PAGE_SIZE;
        if page_vaddr >= context_size {
            break;
        }
        assert(page_vaddr == page_start(vaddr as int, page_idx as int));
        let page_paddr: u64 = phys_base + page_vaddr as u64;
        let ghost before = storage@;
        write_pte(storage, pt_offset, page_idx, page_paddr | pte_flags::USER_PAGE);
        proof {
            assert forall|i: int| 0 <= i < 512 && i != page_idx implies #[trigger] bytes::le64(
                storage@,
                pt_offset + 8 * i,
            ) == bytes::le64(before, pt_offset + 8 * i) by {
                let at = pt_offset + 8 * i;
                assert(forall|b: int| at <= b < at + 8 ==> #[trigger] storage@[b] == before[b]);
            }
        }
        page_idx = page_idx + 1;
    }
}

/// Sets up four-level page tables that map the first `context_size` bytes of a context.
///
/// The tables are taken from below `stack_start`, which ends up at the lowest
/// of them. With `use_large_pages` the context is mapped in 2 MiB pages, else
/// in 4 KiB pages. Returns the physical address of the root table. Where the
/// room does not suffice the tables that fit are left in place.
pub fn set_page_table(
    storage: &mut [u8],
    stack_start: &mut usize,
    context_size: usize,
    phys_base: u64,
    use_large_pages: bool,
) -> (result: X86Result<u64>)
    requires
        *old(stack_start) >= 4096 ==> *old(stack_start) <= old(storage)@.len(),
        *old(stack_start) >= 4096 ==> phys_base + (*old(stack_start) - 4096) <= u64::MAX,
        *old(stack_start) >= 2 * 4096 ==> context_size + 0x4000_0000 <= usize::MAX,
        (TablePlan {
            top: *old(stack_start) as int,
            context_size: context_size as int,
            phys_base: phys_base as int,
            large: use_large_pages,
        }).pages_addressed(),
    ensures
        ({
            let top = *old(stack_start) as int;
            let plan = TablePlan {
                top,
                context_size: context_size as int,
                phys_base: phys_base as int,
                large: use_large_pages,
            };
            let built = plan.built();
            &&& *final(stack_start) == top - 4096 * built
            &&& bytes::same_outside(old(storage)@, final(storage)@, *final(stack_start) as int, top)
            &&& plan.stands_in(final(storage)@, built)
            &&& result == if built == plan.page_count() {
                Ok(plan.page_phys(0))
            } else {
                Err(X86Error::ContextTooSmall)
            }
        }),
{
    let ghost top = *stack_start as int;
    let ghost plan = TablePlan {
        top,
        context_size: context_size as int,
        phys_base: phys_base as int,
        large: use_large_pages,
    };
    proof {
        plan.lemma_counts();
    }
    // Root table.
    if !take_table(storage, stack_start) {
        return Err(X86Error::ContextTooSmall);
    }
    let pml4_offset: usize = *stack_start;
    let pml4_phys: u64 = phys_base + pml4_offset as u64;
    proof {
        lemma_zero_table(storage@, pml4_offset as int);
        assert(plan.page_offset(0) == pml4_offset);
        assert forall|k: int, i: int| 0 <= k < 1 && 0 <= i < 512 implies #[trigger] plan.stored(
            storage@,
            k,
            i,
        ) == plan.entry(1, k, i) by {
            assert(bytes::le64(storage@, pml4_offset + 8 * i) == 0);
        }
    }
    // Directory pointer table.
    let ghost s0 = storage@;
    if !take_table(storage, stack_start) {
        return Err(X86Error::ContextTooSmall);
    }
    let pdpt_offset: usize = *stack_start;
    let pdpt_phys: u64 = phys_base + pdpt_offset as u64;
    let ghost s1 = storage@;
    write_pte(storage, pml4_offset, 0, pdpt_phys | pte_flags::TABLE_ENTRY);
    proof {
        lemma_zero_table(s1, pdpt_offset as int);
        assert forall|n: int| 0 <= n < 512 implies #[trigger] plan.stored(storage@, 1, n)
            == plan.entry(2, 1, n) by {
            lemma_same_entry(s1, storage@, pml4_offset as int, pdpt_offset + 8 * n);
            assert(bytes::le64(s1, pdpt_offset + 8 * n) == 0);
        }
        plan.lemma_add_page(s0, storage@, 1, 0, 0);
    }
    let mut num_gb_regions: usize = (context_size + (GIGABYTE - 1)) / GIGABYTE;
    if num_gb_regions < 1 {
        num_gb_regions = 1;
    }
    if num_gb_regions > TABLE_ENTRIES {
        num_gb_regions = TABLE_ENTRIES;
    }
    let mut gb_idx: usize = 0;
    while gb_idx < num_gb_regions
        invariant
            plan == (TablePlan {
                top,
                context_size: context_size as int,
                phys_base: phys_base as int,
                large: use_large_pages,
            }),
            top == *old(stack_start) <= old(storage)@.len(),
            num_gb_regions == plan.gb_regions(),
            gb_idx <= num_gb_regions <= 512,
            pdpt_offset == plan.page_offset(1),
            pml4_phys == plan.page_phys(0),
            context_size + 0x4000_0000 <= usize::MAX,
            phys_base + (top - 4096) <= u64::MAX,
            plan.pages_addressed(),
            gb_idx < num_gb_regions ==> *stack_start == top - 4096 * plan.directory_page(
                gb_idx as int,
            ),
            gb_idx < num_gb_regions ==> plan.stands_in(
                storage@,
                plan.directory_page(gb_idx as int),
            ),
            gb_idx == num_gb_regions ==> *stack_start == top - 4096 * plan.page_count(),
            gb_idx == num_gb_regions ==> plan.stands_in(storage@, plan.page_count()),
            bytes::same_outside(old(storage)@, storage@, *stack_start as int, top),
        decreases num_gb_regions - gb_idx,
    {
        let ghost g = gb_idx as int;
        let ghost first = plan.directory_page(g);
        let ghost before = storage@;
        proof {
            plan.lemma_counts();
        }
        if !take_table(storage, stack_start) {
            return Err(X86Error::ContextTooSmall);
        }
        let pd_offset: usize = *stack_start;
        let pd_phys: u64 = phys_base + pd_offset as u64;
        let ghost cleared = storage@;
        write_pte(storage, pdpt_offset, gb_idx, pd_phys | pte_flags::TABLE_ENTRY);
        let gb_start: usize = gb_idx * GIGABYTE;
        let mut gb_end: usize = (gb_idx + 1) * GIGABYTE;
        if gb_end > context_size {
            gb_end = context_size;
        }
        let mut num_2mb_regions: usize = 0;
        if gb_start < context_size {
            num_2mb_regions = (gb_end - gb_start + (BLOCK_SIZE - 1)) / BLOCK_SIZE;
        }
        assert(num_2mb_regions == plan.blocks(g));
        let ghost linked = storage@;
        proof {
            lemma_zero_table(cleared, pd_offset as int);
            assert forall|j: int| pd_offset <= j < pd_offset + 4096 implies #[trigger] linked[j]
                == 0 by {
                assert(linked[j] == cleared[j]);
            }
            lemma_zero_table(linked, pd_offset as int);
        }
        if use_large_pages {
            assert(num_2mb_regions > 0 ==> plan.maps_page(first, num_2mb_regions - 1));
            map_blocks(storage, pd_offset, num_2mb_regions, gb_start, phys_base);
            proof {
                assert(plan.page_offset(first) == pd_offset);
                assert forall|n: int| 0 <= n < 512 implies #[trigger] plan.stored(
                    storage@,
                    first,
                    n,
                ) == plan.entry(first + 1, first, n) by {
                    assert(bytes::le64(storage@, pd_offset + 8 * n) == plan.leaf(first, n));
                }
                lemma_same_entry(linked, storage@, pd_offset as int, pdpt_offset + 8 * g);
                plan.lemma_add_page(before, storage@, first, 1, g);
            }
        } else {
            proof {
                assert(plan.page_offset(first) == pd_offset);
                assert forall|n: int| 0 <= n < 512 implies #[trigger] plan.stored(
                    storage@,
                    first,
                    n,
                ) == plan.entry(first + 1, first, n) by {
                    assert(bytes::le64(storage@, pd_offset + 8 * n) == 0);
                }
                plan.lemma_add_page(before, storage@, first, 1, g);
            }
            let mut mb_idx: usize = 0;
            while mb_idx < num_2mb_regions
                invariant
                    plan == (TablePlan {
                        top,
                        context_size: context_size as int,
                        phys_base: phys_base as int,
                        large: use_large_pages,
                    }),
                    !use_large_pages,
                    top == *old(stack_start) <= old(storage)@.len(),
                    g == gb_idx < plan.gb_regions() <= 512,
                    first == plan.directory_page(g),
                    pd_offset == plan.page_offset(first),
                    gb_start == g * 0x4000_0000,
                    context_size + 0x4000_0000 <= usize::MAX,
                    phys_base + (top - 4096) <= u64::MAX,
                    plan.pages_addressed(),
                    mb_idx <= num_2mb_regions == plan.blocks(g),
                    *stack_start == top - 4096 * plan.table_page(g, mb_idx as int),
                    plan.stands_in(storage@, plan.table_page(g, mb_idx as int)),
                    bytes::same_outside(old(storage)@, storage@, *stack_start as int, top),
                decreases num_2mb_regions - mb_idx,
            {
                let ghost m = mb_idx as int;
                let ghost number = plan.table_page(g, m);
                let ghost s2 = storage@;
                proof {
                    plan.lemma_counts();
                }
                let vaddr: usize = gb_start + mb_idx * BLOCK_SIZE;
                if !take_table(storage, stack_start) {
                    return Err(X86Error::ContextTooSmall);
                }
                let pt_offset: usize = *stack_start;
                let pt_phys: u64 = phys_base + pt_offset as u64;
                let ghost s3 = storage@;
                write_pte(storage, pd_offset, mb_idx, pt_phys | pte_flags::TABLE_ENTRY);
                let ghost s4 = storage@;
                proof {
                    assert forall|j: int| pt_offset <= j < pt_offset + 4096 implies #[trigger] s4[j]
                        == 0 by {
                        assert(s4[j] == s3[j]);
                    }
                }
                proof {
                    assert((number - 2) / 513 == g && (number - 2) % 513 == m + 1);
                    assert forall|i: int|
                        0 <= i < 512 && #[trigger] page_start(vaddr as int, i)
                            < context_size implies phys_base + page_start(vaddr as int, i)
                        <= u64::MAX by {
                        assert(plan.maps_page(number, i));
                    }
                }
                map_pages(storage, pt_offset, vaddr, context_size, phys_base);
                proof {
                    assert(plan.page_offset(number) == pt_offset);
                    assert forall|n: int| 0 <= n < 512 implies #[trigger] plan.stored(
                        storage@,
                        number,
                        n,
                    ) == plan.entry(number + 1, number, n) by {
                        assert(bytes::le64(storage@, pt_offset + 8 * n) == plan.leaf(number, n));
                    }
                    lemma_same_entry(s4, storage@, pt_offset as int, pd_offset + 8 * m);
                    plan.lemma_add_page(s2, storage@, number, first, m);
                }
                mb_idx = mb_idx + 1;
            }
        }
        gb_idx = gb_idx + 1;
    }
    Ok(pml4_phys)
}

/// How many tables a context takes: one root table and one below it, one for
/// every gigabyte begun, at least one and at most 512, and with small pages one
/// for every 2 MiB begun in these gigabytes. They are built as far as there is
/// room for whole pages below `top`, and all of them if and only if all fit.
pub proof fn tables_taken_by_a_context(plan: TablePlan)
    requires
        plan.context_size >= 0,
        plan.top >= 0,
    ensures
        ({
            let gigabytes = (plan.context_size + 0x3fff_ffff) / 0x4000_0000;
            let blocks = (plan.context_size + 0x1f_ffff) / 0x20_0000;
            let directories = if gigabytes < 1 {
                1
            } else if gigabytes > 512 {
                512
            } else {
                gigabytes
            };
            let tables = if plan.large {
                0
            } else if blocks > 0x4_0000 {
                0x4_0000
            } else {
                blocks
            };
            &&& plan.page_count() == 2 + directories + tables
            &&& (plan.built() == plan.page_count()) == (plan.page_count() * 4096 <= plan.top)
            &&& plan.built() < plan.page_count() ==> plan.built() * 4096 <= plan.top < (
            plan.built() + 1) * 4096
            &&& 0 <= plan.built() <= plan.page_count()
        }),
{
    plan.lemma_counts();
}

/// The root of the tables is the page below `top`.
pub proof fn root_is_the_highest_page(plan: TablePlan)
    requires
        0 <= plan.phys_base + plan.top - 4096 <= u64::MAX,
    ensures
        plan.page_phys(0) == plan.phys_base + plan.top - 4096,
{
}

/// The bytes of the root table and of the directory pointer table, once the
/// first `built` tables stand: the first root entry leads to the pointer table,
/// entry `i` of that to the directory of gigabyte `i`, if it stands. All other
/// entries are zero. Links are present, writable and open to user mode.
pub proof fn upper_tables_lead_to_directories(plan: TablePlan, s: Seq<u8>, built: int, i: int)
    requires
        plan.stands_in(s, built),
        plan.context_size >= 0,
        0 <= i < 512,
    ensures
        built >= 1 ==> bytes::le64(s, plan.top - 4096 + 8 * i) == if i == 0 && built >= 2 {
            (plan.phys_base + plan.top - 2 * 4096) as u64 | 7
        } else {
            0
        },
        built >= 2 ==> ({
            let number = if plan.large {
                2 + i
            } else {
                2 + 513 * i
            };
            bytes::le64(s, plan.top - 2 * 4096 + 8 * i) == if number < built && (i == 0 || i
                * 0x4000_0000 < plan.context_size) {
                (plan.phys_base + plan.top - 4096 * (number + 1)) as u64 | 7
            } else {
                0
            }
        }),
{
    if built >= 1 {
        assert(plan.stored(s, 0, i) == plan.entry(built, 0, i));
        assert(plan.page_offset(1) == plan.top - 2 * 4096);
    }
    if built >= 2 {
        assert(plan.stored(s, 1, i) == plan.entry(built, 1, i));
        let number = plan.directory_page(i);
        assert(plan.page_offset(number) == plan.top - 4096 * (number + 1));
        assert((i < plan.gb_regions()) == (i == 0 || i * 0x4000_0000 < plan.context_size));
    }
}

/// The bytes of the directory of gigabyte `g` in tables for large pages: entry
/// `i` maps 2 MiB block `i` of the gigabyte where the context begins that block,
/// onto the same offset from the physical base; all others are zero.
pub proof fn directories_map_large_pages(
    plan: TablePlan,
    s: Seq<u8>,
    built: int,
    g: int,
    i: int,
)
    requires
        plan.stands_in(s, built),
        plan.context_size >= 0,
        plan.large,
        0 <= g,
        2 + g < built <= plan.page_count(),
        0 <= i < 512,
    ensures
        bytes::le64(s, plan.top - 4096 * (3 + g) + 8 * i) == if g * 0x4000_0000 + i * 0x20_0000
            < plan.context_size {
            (plan.phys_base + (g * 0x4000_0000 + i * 0x20_0000)) as u64 | 7 | 0x80
        } else {
            0
        },
{
    let k = 2 + g;
    assert(plan.stored(s, k, i) == plan.entry(built, k, i));
    assert(plan.page_offset(k) == plan.top - 4096 * (3 + g));
    assert((i < plan.blocks(g)) == (g * 0x4000_0000 + i * 0x20_0000 < plan.context_size));
}

/// The bytes of the directory of gigabyte `g` in tables for small pages: entry
/// `i` leads to the page table of block `i`, where the context begins that block
/// and the table stands; all others are zero.
pub proof fn directories_lead_to_page_tables(
    plan: TablePlan,
    s: Seq<u8>,
    built: int,
    g: int,
    i: int,
)
    requires
        plan.stands_in(s, built),
        plan.context_size >= 0,
        !plan.large,
        0 <= g,
        2 + 513 * g < built <= plan.page_count(),
        0 <= i < 512,
    ensures
        bytes::le64(s, plan.top - 4096 * (3 + 513 * g) + 8 * i) == if g * 0x4000_0000 + i
            * 0x20_0000 < plan.context_size && 3 + 513 * g + i < built {
            (plan.phys_base + plan.top - 4096 * (4 + 513 * g + i)) as u64 | 7
        } else {
            0
        },
{
    let k = 2 + 513 * g;
    assert((k - 2) / 513 == g && (k - 2) % 513 == 0);
    assert(plan.stored(s, k, i) == plan.entry(built, k, i));
    assert(plan.page_offset(k) == plan.top - 4096 * (3 + 513 * g));
    let number = 3 + 513 * g + i;
    assert(plan.page_offset(number) == plan.top - 4096 * (4 + 513 * g + i));
    assert((i < plan.blocks(g)) == (g * 0x4000_0000 + i * 0x20_0000 < plan.context_size));
}

/// The bytes of the page table of block `m` of gigabyte `g`: entry `i` maps page
/// `i` of the block where the context begins that page, onto the same offset
/// from the physical base; all others are zero.
pub proof fn page_tables_map_small_pages(
    plan: TablePlan,
    s: Seq<u8>,
    built: int,
    g: int,
    m: int,
    i: int,
)
    requires
        plan.stands_in(s, built),
        plan.context_size >= 0,
        !plan.large,
        0 <= g,
        0 <= m < 512,
        3 + 513 * g + m < built <= plan.page_count(),
        0 <= i < 512,
    ensures
        ({
            let vaddr = g * 0x4000_0000 + m * 0x20_0000 + i * 4096;
            bytes::le64(s, plan.top - 4096 * (4 + 513 * g + m) + 8 * i) == if vaddr
                < plan.context_size {
                (plan.phys_base + vaddr) as u64 | 7
            } else {
                0
            }
        }),
{
    let k = 3 + 513 * g + m;
    assert((k - 2) / 513 == g && (k - 2) % 513 == m + 1);
    assert(plan.stored(s, k, i) == plan.entry(built, k, i));
    assert(plan.page_offset(k) == plan.top - 4096 * (4 + 513 * g + m));
}

} // verus!
