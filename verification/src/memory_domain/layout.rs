//! Where the parts of a context are placed.

use crate::errors::DandelionError;
use crate::x86_64::interrupts::{GDT_SIZE, IDT_SIZE, INTERRUPT_STACK_SIZE, TSS_SIZE};
use crate::x86_64::paging::TablePlan;
use crate::x86_64::PAGE_SIZE;
use vstd::prelude::*;

verus! {

/// Size below which the tables and handlers do not fit: 2 MiB.
pub const MIN_CONTEXT_SIZE: usize = 0x20_0000;

/// Size of the trampoline region: one page for each direction.
pub const TRAMPOLINE_REGION_SIZE: usize = 8192;

/// Offsets of the parts of a context.
///
/// ```text
/// [page tables]                      page_table_offset .. total_size
/// [trampolines]                      trampoline_offset ..
/// [interrupt stack]                  interrupt_stack_offset ..
/// [interrupt descriptor table]       idt_offset ..
/// [task state segment]               tss_offset ..
/// [global descriptor table]          gdt_offset ..
/// [interrupt handlers]               handler_offset ..
/// [user code, data and stack]        0 .. handler_offset
/// ```
#[derive(Debug, Clone, Copy)]
pub struct UnikraftLayout {
    /// Total size of the context.
    pub total_size: usize,
    /// Where the page tables start; the root table is at the highest address.
    pub page_table_offset: usize,
    /// Physical address of the root table.
    pub pml4_phys: u64,
    /// Where the trampolines start.
    pub trampoline_offset: usize,
    /// Where the interrupt stack starts: its lowest byte.
    pub interrupt_stack_offset: usize,
    /// Where the interrupt descriptor table starts.
    pub idt_offset: usize,
    /// Where the task state segment starts.
    pub tss_offset: usize,
    /// Where the global descriptor table starts.
    pub gdt_offset: usize,
    /// Where the interrupt handlers start.
    pub handler_offset: usize,
    /// Top of the user stack, which grows down.
    pub user_stack_top: usize,
    /// Entry of the trampoline from the kernel to user code.
    pub k2u_entry_offset: usize,
    /// Entry of the trampoline from user code to the kernel.
    pub u2k_entry_offset: usize,
}

impl Default for UnikraftLayout {
    fn default() -> (layout: Self)
        ensures
            layout == (UnikraftLayout {
                total_size: 0,
                page_table_offset: 0,
                pml4_phys: 0,
                trampoline_offset: 0,
                interrupt_stack_offset: 0,
                idt_offset: 0,
                tss_offset: 0,
                gdt_offset: 0,
                handler_offset: 0,
                user_stack_top: 0,
                k2u_entry_offset: 0,
                u2k_entry_offset: 0,
            }),
    {
        UnikraftLayout {
            total_size: 0,
            page_table_offset: 0,
            pml4_phys: 0,
            trampoline_offset: 0,
            interrupt_stack_offset: 0,
            idt_offset: 0,
            tss_offset: 0,
            gdt_offset: 0,
            handler_offset: 0,
            user_stack_top: 0,
            k2u_entry_offset: 0,
            u2k_entry_offset: 0,
        }
    }
}

/// The largest multiple of `align` that is at most `x`.
pub open spec fn align_down(x: int, align: int) -> int {
    x - x % align
}

/// Number of pages reserved for the page tables: the root table, the table
/// below it, a directory for every gigabyte begun, and four tables for small pages.
pub open spec fn page_table_pages(context_size: int) -> int {
    let gigabytes = (context_size + 0x3fff_ffff) / 0x4000_0000;
    6 + if gigabytes < 1 {
        1
    } else {
        gigabytes
    }
}

impl UnikraftLayout {
    /// The offsets of the parts, one below the other, in a context of the given size.
    pub open spec fn of_size(self, context_size: usize) -> bool {
        let tables = context_size - 4096 * page_table_pages(context_size as int);
        let trampolines = tables - 8192;
        let stack = trampolines - 4096;
        let idt = align_down(stack - 528, 8);
        let tss = align_down(idt - 104, 4);
        let gdt = align_down(tss - 64, 8);
        let handlers = align_down(gdt - 4096, 4096);
        &&& self.total_size == context_size
        &&& self.page_table_offset == tables
        &&& self.pml4_phys == 0
        &&& self.trampoline_offset == trampolines
        &&& self.k2u_entry_offset == trampolines
        &&& self.u2k_entry_offset == trampolines + 4096
        &&& self.interrupt_stack_offset == stack
        &&& self.idt_offset == idt
        &&& self.tss_offset == tss
        &&& self.gdt_offset == gdt
        &&& self.handler_offset == handlers
        &&& self.user_stack_top == handlers
    }

    /// Calculates the layout of a context of the given size.
    pub fn calculate(context_size: usize) -> (result: Result<UnikraftLayout, DandelionError>)
        requires
            context_size + 0x3fff_ffff <= usize::MAX,
        ensures
            context_size < MIN_CONTEXT_SIZE ==> result == Err::<UnikraftLayout, _>(
                DandelionError::MemoryAllocationError,
            ),
            context_size >= MIN_CONTEXT_SIZE ==> (result matches Ok(layout) && layout.of_size(
                context_size,
            )),
    {
        if context_size < MIN_CONTEXT_SIZE {
            return Err(DandelionError::MemoryAllocationError);
        }
        let mut layout: UnikraftLayout = UnikraftLayout::default();
        layout.total_size = context_size;
        let mut current: usize = context_size;

        let page_table_pages: usize = Self::estimate_page_table_pages(context_size);
        current = current - page_table_pages * PAGE_SIZE;
        layout.page_table_offset = current;

        current = current - TRAMPOLINE_REGION_SIZE;
        layout.trampoline_offset = current;
        layout.k2u_entry_offset = current;
        layout.u2k_entry_offset = current + PAGE_SIZE;

        current = current - INTERRUPT_STACK_SIZE;
        layout.interrupt_stack_offset = current;

        current = current - IDT_SIZE;
        current = current - current % 8;
        layout.idt_offset = current;

        current = current - TSS_SIZE;
        current = current - current % 4;
        layout.tss_offset = current;

        current = current - GDT_SIZE;
        current = current - current % 8;
        layout.gdt_offset = current;

        current = current - PAGE_SIZE;
        current = current - current % PAGE_SIZE;
        layout.handler_offset = current;

        layout.user_stack_top = layout.handler_offset;
        Ok(layout)
    }

    /// Estimates the number of pages that the page tables need.
    pub fn estimate_page_table_pages(context_size: usize) -> (pages: usize)
        requires
            context_size + 0x3fff_ffff <= usize::MAX,
        ensures
            pages == page_table_pages(context_size as int),
    {
        let pml4_pages: usize = 1;
        let pdpt_pages: usize = 1;
        let gb_regions: usize = (context_size + 0x3fff_ffff) / 0x4000_0000;
        let pd_pages: usize = if gb_regions < 1 {
            1
        } else {
            gb_regions
        };
        let pt_pages: usize = 4;
        pml4_pages + pdpt_pages + pd_pages + pt_pages
    }

    /// Total size of the context.
    pub fn size(&self) -> (size: usize)
        ensures
            size == self.total_size,
    {
        self.total_size
    }

    /// Space for user code and data, from offset zero up to the handlers.
    pub fn user_space_size(&self) -> (size: usize)
        ensures
            size == self.handler_offset,
    {
        self.handler_offset
    }
}

/// The parts of a calculated layout lie one above the other without overlap,
/// inside the context, each with room for what it holds and aligned as it has to be.
pub proof fn parts_are_disjoint(layout: UnikraftLayout, context_size: usize)
    requires
        context_size >= MIN_CONTEXT_SIZE,
        layout.of_size(context_size),
    ensures
        0 < layout.user_stack_top == layout.handler_offset,
        layout.handler_offset + PAGE_SIZE <= layout.gdt_offset,
        layout.gdt_offset + GDT_SIZE <= layout.tss_offset,
        layout.tss_offset + TSS_SIZE <= layout.idt_offset,
        layout.idt_offset + IDT_SIZE <= layout.interrupt_stack_offset,
        layout.interrupt_stack_offset + INTERRUPT_STACK_SIZE == layout.trampoline_offset,
        layout.trampoline_offset == layout.k2u_entry_offset,
        layout.k2u_entry_offset + PAGE_SIZE == layout.u2k_entry_offset,
        layout.u2k_entry_offset + PAGE_SIZE == layout.page_table_offset,
        layout.page_table_offset < layout.total_size,
        layout.idt_offset % 8 == 0,
        layout.tss_offset % 4 == 0,
        layout.gdt_offset % 8 == 0,
        layout.handler_offset % PAGE_SIZE == 0,
{
}

/// The pages reserved for the page tables of a context of at most 512 GiB are
/// exactly four more than tables that map it in large pages take.
pub proof fn four_pages_are_spare(context_size: usize, tables: TablePlan)
    requires
        context_size <= 0x80_0000_0000,
        tables.context_size == context_size,
        tables.large,
    ensures
        page_table_pages(context_size as int) == tables.page_count() + 4,
        tables.built() == tables.page_count() ==> tables.top - 4096 * tables.built() == tables.top
            - 4096 * (page_table_pages(context_size as int) - 4),
{
    tables.lemma_counts();
}

/// The page tables of a context fit into what its layout reserves for them,
/// when they map it in large pages; up to 512 GiB exactly four pages are left.
pub proof fn reserved_room_holds_the_tables(
    layout: UnikraftLayout,
    context_size: usize,
    tables: TablePlan,
)
    requires
        context_size >= MIN_CONTEXT_SIZE,
        layout.of_size(context_size),
        tables.top == context_size,
        tables.context_size == context_size,
        tables.large,
    ensures
        tables.built() == tables.page_count(),
        tables.page_offset(tables.page_count() - 1) >= layout.page_table_offset,
        context_size <= 0x80_0000_0000 ==> tables.page_offset(tables.page_count() - 1)
            == layout.page_table_offset + 4 * 4096,
{
    tables.lemma_counts();
}

/// The sizes from which a layout is made.
pub proof fn layout_sizes()
    ensures
        MIN_CONTEXT_SIZE == 2 * 1024 * 1024,
        TRAMPOLINE_REGION_SIZE == 2 * 4096,
{
}

/// The number of pages reserved for the tables is six more than the number of
/// gigabytes that just hold the context, of which there is at least one.
pub proof fn pages_reserved_for_tables(context_size: int)
    requires
        context_size >= 0,
    ensures
        ({
            let gigabytes = page_table_pages(context_size) - 6;
            &&& gigabytes >= 1
            &&& context_size <= gigabytes * 0x4000_0000
            &&& gigabytes > 1 ==> (gigabytes - 1) * 0x4000_0000 < context_size
        }),
{
}

/// A layout is of the whole context. From the end of the context downwards
/// come the tables, the trampolines and the interrupt stack, then each of the
/// other parts at the highest place below that is aligned as it has to be. The
/// user stack begins at the handlers, and no table is there yet.
pub proof fn parts_are_placed_from_the_end(layout: UnikraftLayout, context_size: usize)
    requires
        context_size >= MIN_CONTEXT_SIZE,
        layout.of_size(context_size),
    ensures
        layout.total_size == context_size,
        layout.pml4_phys == 0,
        (context_size - layout.page_table_offset) % 4096 == 0,
        7 * 4096 <= context_size - layout.page_table_offset,
        context_size <= ((context_size - layout.page_table_offset) / 4096 - 6) * 0x4000_0000,
        (context_size - layout.page_table_offset) / 4096 > 7 ==> ((context_size
            - layout.page_table_offset) / 4096 - 7) * 0x4000_0000 < context_size,
        layout.trampoline_offset == layout.page_table_offset - 8192,
        layout.k2u_entry_offset == layout.trampoline_offset,
        layout.u2k_entry_offset == layout.trampoline_offset + 4096,
        layout.interrupt_stack_offset == layout.trampoline_offset - 4096,
        layout.idt_offset % 8 == 0,
        layout.interrupt_stack_offset - 528 - 8 < layout.idt_offset
            <= layout.interrupt_stack_offset - 528,
        layout.tss_offset % 4 == 0,
        layout.idt_offset - 104 - 4 < layout.tss_offset <= layout.idt_offset - 104,
        layout.gdt_offset % 8 == 0,
        layout.tss_offset - 64 - 8 < layout.gdt_offset <= layout.tss_offset - 64,
        layout.handler_offset % 4096 == 0,
        layout.gdt_offset - 4096 - 4096 < layout.handler_offset <= layout.gdt_offset - 4096,
        layout.user_stack_top == layout.handler_offset,
{
    let pages = page_table_pages(context_size as int);
    pages_reserved_for_tables(context_size as int);
    assert((context_size - layout.page_table_offset) == 4096 * pages);
}

/// A layout is calculated for every size from 2 MiB on, and for no other. It
/// spans the size, and its parts are placed in it from the end.
pub proof fn layouts_span_the_context(
    context_size: usize,
    result: Result<UnikraftLayout, DandelionError>,
)
    requires
        call_ensures(UnikraftLayout::calculate, (context_size,), result),
    ensures
        result is Ok <==> context_size >= 2 * 1024 * 1024,
        (result matches Err(e) ==> e == DandelionError::MemoryAllocationError),
        (result matches Ok(layout) ==> {
            &&& layout.total_size == context_size
            &&& layout.pml4_phys == 0
            &&& (context_size - layout.page_table_offset) % 4096 == 0
            &&& context_size <= ((context_size - layout.page_table_offset) / 4096 - 6) * 0x4000_0000
            &&& layout.trampoline_offset == layout.page_table_offset - 8192
            &&& layout.k2u_entry_offset == layout.trampoline_offset
            &&& layout.u2k_entry_offset == layout.trampoline_offset + 4096
            &&& layout.interrupt_stack_offset == layout.trampoline_offset - 4096
            &&& layout.idt_offset % 8 == 0 && layout.interrupt_stack_offset - 528 - 8
                < layout.idt_offset <= layout.interrupt_stack_offset - 528
            &&& layout.tss_offset % 4 == 0 && layout.idt_offset - 104 - 4 < layout.tss_offset
                <= layout.idt_offset - 104
            &&& layout.gdt_offset % 8 == 0 && layout.tss_offset - 64 - 8 < layout.gdt_offset
                <= layout.tss_offset - 64
            &&& layout.handler_offset % 4096 == 0 && layout.gdt_offset - 8192
                < layout.handler_offset <= layout.gdt_offset - 4096
            &&& layout.user_stack_top == layout.handler_offset
        }),
{
    if let Ok(layout) = result {
        parts_are_placed_from_the_end(layout, context_size);
    }
}

/// The estimate counts one page for the root table, one for the table below it,
/// four for small pages and one for every gigabyte begun, at least one.
pub proof fn estimates_count_gigabytes(context_size: usize, pages: usize)
    requires
        call_ensures(UnikraftLayout::estimate_page_table_pages, (context_size,), pages),
    ensures
        pages >= 7,
        context_size <= (pages - 6) * 0x4000_0000,
        pages > 7 ==> (pages - 7) * 0x4000_0000 < context_size,
{
    pages_reserved_for_tables(context_size as int);
}

/// The size of a layout is that of the context, the space for the user ends at
/// the handlers.
pub proof fn sizes_of_a_layout(layout: UnikraftLayout, size: usize, user: usize)
    requires
        call_ensures(UnikraftLayout::size, (&layout,), size),
        call_ensures(UnikraftLayout::user_space_size, (&layout,), user),
    ensures
        size == layout.total_size,
        user == layout.handler_offset,
{
}

} // verus!
