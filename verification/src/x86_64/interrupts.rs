//! Global descriptor table, task state segment and interrupt descriptor table.
//!
//! They are taken from the top of the context downwards: the interrupt stack,
//! the handler code, and below it the three tables one after the other.

use crate::bytes;
use crate::x86_64::selectors;
use crate::x86_64::{X86Error, X86Result, PAGE_SIZE};
use vstd::prelude::*;

verus! {

/// Entries of the global descriptor table; the task state segment takes two.
pub const GDT_ENTRIES: usize = 8;

pub const GDT_SIZE: usize = 64;

/// Size of a 64-bit task state segment.
pub const TSS_SIZE: usize = 104;

/// Size of a gate descriptor.
pub const IDT_ENTRY_SIZE: usize = 16;

/// Number of gates: vectors 0 to 32.
pub const IDT_ENTRIES: usize = 33;

pub const IDT_SIZE: usize = 528;

/// Size of the interrupt stack, in pages.
pub const INTERRUPT_STACK_PAGES: usize = 1;

pub const INTERRUPT_STACK_SIZE: usize = 4096;

/// Size of the three tables together.
const STRUCTURES_SIZE: usize = 696;

/// The low half of the descriptor of a task state segment at `base`: limit 103,
/// present, and the bits of the base below 32.
pub open spec fn tss_descriptor_low(base: u64) -> int {
    0x8900_0000_0067 + base % 0x100_0000 * 0x1_0000 + base / 0x100_0000 % 0x100
        * 0x100_0000_0000_0000
}

/// The eight entries of the global descriptor table at `at`.
pub open spec fn gdt_stands(s: Seq<u8>, at: int, tss_base: u64) -> bool {
    &&& bytes::le64(s, at) == 0
    &&& bytes::le64(s, at + 8) == 0x00AF_9A00_0000_FFFF
    &&& bytes::le64(s, at + 16) == 0x00CF_9200_0000_FFFF
    &&& bytes::le64(s, at + 24) == 0x00AF_FA00_0000_FFFF
    &&& bytes::le64(s, at + 32) == 0x00CF_F200_0000_FFFF
    &&& bytes::le64(s, at + 40) == tss_descriptor_low(tss_base)
    &&& bytes::le64(s, at + 48) == tss_base / 0x1_0000_0000
    &&& bytes::le64(s, at + 56) == 0
}

/// The fields of the task state segment at `at` that are set: the stack for
/// privilege level 0, the first interrupt stack and the end of the I/O map.
pub open spec fn tss_fields_stand(s: Seq<u8>, at: int, interrupt_stack_top: u64) -> bool {
    &&& bytes::le64(s, at + 0x04) == interrupt_stack_top
    &&& bytes::le64(s, at + 0x24) == interrupt_stack_top
    &&& s[at + 0x66] == 0x68
    &&& s[at + 0x67] == 0
}

/// The task state segment at `at`: its fields, and zero everywhere else.
pub open spec fn tss_stands(s: Seq<u8>, at: int, interrupt_stack_top: u64) -> bool {
    &&& tss_fields_stand(s, at, interrupt_stack_top)
    &&& bytes::zeroed(s, at, at + 0x04)
    &&& bytes::zeroed(s, at + 0x0C, at + 0x24)
    &&& bytes::zeroed(s, at + 0x2C, at + 0x66)
}

/// An interrupt gate at `at`.
pub open spec fn gate_stands(
    s: Seq<u8>,
    at: int,
    selector: u16,
    handler_addr: u64,
    dpl: u8,
    ist: u8,
) -> bool {
    &&& bytes::le16(s, at) == handler_addr % 0x1_0000
    &&& bytes::le16(s, at + 2) == selector
    &&& s[at + 4] == ist % 8
    &&& s[at + 5] == 0x8E + dpl % 4 * 0x20
    &&& bytes::le16(s, at + 6) == handler_addr / 0x1_0000 % 0x1_0000
    &&& bytes::le32(s, at + 8) == handler_addr / 0x1_0000_0000
    &&& bytes::le32(s, at + 12) == 0
}

/// The gates of all vectors at `at`, each leading to its handler.
pub open spec fn idt_stands(
    s: Seq<u8>,
    at: int,
    handler_base_va: u64,
    handler_offsets: Seq<usize>,
) -> bool {
    forall|v: int|
        0 <= v < 33 ==> #[trigger] gate_stands(
            s,
            at + 16 * v,
            selectors::KERNEL_CODE_64,
            (handler_base_va + handler_offsets[v]) as u64,
            3,
            1,
        )
}

/// Where the parts are placed below `top`.
pub struct InterruptPlan {
    /// End of the area, an offset into the context.
    pub top: int,
    /// Size of the handler code.
    pub handler_size: int,
}

impl InterruptPlan {
    /// Size of the handler region: the code in whole pages, at least one.
    pub open spec fn handler_alloc(self) -> int {
        if self.handler_size == 0 {
            4096
        } else {
            (self.handler_size + 4095) / 4096 * 4096
        }
    }

    pub open spec fn stack_offset(self) -> int {
        self.top - 4096
    }

    pub open spec fn handler_offset(self) -> int {
        self.stack_offset() - self.handler_alloc()
    }

    pub open spec fn gdt_offset(self) -> int {
        self.handler_offset() - 696
    }

    pub open spec fn tss_offset(self) -> int {
        self.gdt_offset() + 64
    }

    pub open spec fn idt_offset(self) -> int {
        self.tss_offset() + 104
    }

    /// The handler region: the code, followed by zeros.
    pub open spec fn handlers_stand(self, s: Seq<u8>, handler_code: Seq<u8>) -> bool {
        let at = self.handler_offset();
        &&& s.subrange(at, at + handler_code.len()) == handler_code
        &&& bytes::zeroed(s, at + handler_code.len(), self.stack_offset())
    }

    /// Everything stands in `s`, in a context at the physical address `phys_base`.
    pub open spec fn stands_in(
        self,
        s: Seq<u8>,
        phys_base: u64,
        handler_code: Seq<u8>,
        handler_offsets: Seq<usize>,
    ) -> bool {
        &&& bytes::zeroed(s, self.stack_offset(), self.top)
        &&& self.handlers_stand(s, handler_code)
        &&& gdt_stands(s, self.gdt_offset(), (phys_base + self.tss_offset()) as u64)
        &&& tss_stands(s, self.tss_offset(), (phys_base + self.top) as u64)
        &&& idt_stands(
            s,
            self.idt_offset(),
            (phys_base + self.handler_offset()) as u64,
            handler_offsets,
        )
    }
}

impl InterruptPlan {
    /// What stands in a context stays when only bytes below it change.
    pub proof fn lemma_kept(
        self,
        s0: Seq<u8>,
        s1: Seq<u8>,
        phys_base: u64,
        handler_code: Seq<u8>,
        handler_offsets: Seq<usize>,
    )
        requires
            0 <= self.gdt_offset(),
            self.top <= s0.len(),
            self.handler_size == handler_code.len(),
            bytes::same_outside(s0, s1, 0, self.gdt_offset()),
            self.stands_in(s0, phys_base, handler_code, handler_offsets),
        ensures
            self.stands_in(s1, phys_base, handler_code, handler_offsets),
    {
        let at = self.handler_offset();
        assert(s1.subrange(at, at + handler_code.len()) =~= s0.subrange(
            at,
            at + handler_code.len(),
        ));
        lemma_gdt_kept(s0, s1, self.gdt_offset(), (phys_base + self.tss_offset()) as u64);
        let base = (phys_base + self.handler_offset()) as u64;
        assert forall|v: int| 0 <= v < 33 implies #[trigger] gate_stands(
            s1,
            self.idt_offset() + 16 * v,
            selectors::KERNEL_CODE_64,
            (base + handler_offsets[v]) as u64,
            3,
            1,
        ) by {
            let gate = self.idt_offset() + 16 * v;
            assert(gate_stands(
                s0,
                gate,
                selectors::KERNEL_CODE_64,
                (base + handler_offsets[v]) as u64,
                3,
                1,
            ));
            assert(forall|b: int| gate <= b < gate + 16 ==> #[trigger] s1[b] == s0[b]);
        }
    }
}

/// Writes an entry of the global descriptor table.
fn write_gdt_entry(storage: &mut [u8], gdt_offset: usize, index: usize, value: u64)
    requires
        gdt_offset + index * 8 + 8 <= old(storage)@.len(),
    ensures
        bytes::le64(final(storage)@, gdt_offset + index * 8) == value,
        bytes::same_outside(
            old(storage)@,
            final(storage)@,
            gdt_offset + index * 8,
            gdt_offset + index * 8 + 8,
        ),
{
    assert(storage.len() == storage@.len());
    let offset: usize = gdt_offset + index * 8;
    bytes::put_u64(storage, offset, value);
}

/// Sets up the global descriptor table with kernel and user segments.
fn setup_gdt(storage: &mut [u8], gdt_offset: usize, tss_offset: usize, phys_base: u64) -> (result:
    X86Result<()>)
    requires
        gdt_offset + 64 <= old(storage)@.len(),
        phys_base + tss_offset <= u64::MAX,
    ensures
        result == Ok::<(), X86Error>(()),
        gdt_stands(final(storage)@, gdt_offset as int, (phys_base + tss_offset) as u64),
        bytes::same_outside(old(storage)@, final(storage)@, gdt_offset as int, gdt_offset + 64),
{
    let tss_base: u64 = phys_base + tss_offset as u64;
    write_gdt_entry(storage, gdt_offset, 0, 0);
    write_gdt_entry(storage, gdt_offset, 1, 0x00AF_9A00_0000_FFFF);
    write_gdt_entry(storage, gdt_offset, 2, 0x00CF_9200_0000_FFFF);
    write_gdt_entry(storage, gdt_offset, 3, 0x00AF_FA00_0000_FFFF);
    write_gdt_entry(storage, gdt_offset, 4, 0x00CF_F200_0000_FFFF);
    let tss_desc_low: u64 = 0x0000_8900_0000_0067u64 | ((tss_base & 0xFFFF) << 16) | ((tss_base
        & 0xFF_0000) << 16) | ((tss_base & 0xFF00_0000) << 32);
    let tss_desc_high: u64 = (tss_base >> 32) & 0xFFFF_FFFF;
    proof {
        assert(0x0000_8900_0000_0067u64 | ((tss_base & 0xFFFF) << 16) | ((tss_base & 0xFF_0000)
            << 16) | ((tss_base & 0xFF00_0000) << 32) == 0x8900_0000_0067 + tss_base % 0x100_0000
            * 0x1_0000 + tss_base / 0x100_0000 % 0x100 * 0x100_0000_0000_0000) by (bit_vector);
        assert((tss_base >> 32) & 0xFFFF_FFFF == tss_base / 0x1_0000_0000) by (bit_vector);
    }
    write_gdt_entry(storage, gdt_offset, 5, tss_desc_low);
    write_gdt_entry(storage, gdt_offset, 6, tss_desc_high);
    write_gdt_entry(storage, gdt_offset, 7, 0);
    Ok(())
}

/// Writes a 64-bit field of the task state segment.
fn write_tss_field(storage: &mut [u8], tss_offset: usize, field_offset: usize, value: u64)
    requires
        tss_offset + field_offset + 8 <= old(storage)@.len(),
    ensures
        bytes::le64(final(storage)@, tss_offset + field_offset) == value,
        bytes::same_outside(
            old(storage)@,
            final(storage)@,
            tss_offset + field_offset,
            tss_offset + field_offset + 8,
        ),
{
    assert(storage.len() == storage@.len());
    let offset: usize = tss_offset + field_offset;
    bytes::put_u64(storage, offset, value);
}

/// Sets up the task state segment with the interrupt stack.
fn setup_tss(storage: &mut [u8], tss_offset: usize, interrupt_stack_top: u64) -> (result:
    X86Result<()>)
    requires
        tss_offset + 104 <= old(storage)@.len(),
    ensures
        result == Ok::<(), X86Error>(()),
        tss_fields_stand(final(storage)@, tss_offset as int, interrupt_stack_top),
        bytes::same_outside(old(storage)@, final(storage)@, tss_offset as int, tss_offset + 104),
        forall|j: int|
            tss_offset <= j < tss_offset + 0x04 || tss_offset + 0x0C <= j < tss_offset + 0x24
                || tss_offset + 0x2C <= j < tss_offset + 0x66 ==> #[trigger] final(storage)@[j]
                == old(storage)@[j],
{
    write_tss_field(storage, tss_offset, 0x04, interrupt_stack_top);
    write_tss_field(storage, tss_offset, 0x24, interrupt_stack_top);
    assert(storage.len() == storage@.len());
    storage[tss_offset + 0x66] = 0x68;
    storage[tss_offset + 0x67] = 0x00;
    Ok(())
}

/// Sets up the interrupt descriptor table, one gate for every vector.
fn setup_idt(
    storage: &mut [u8],
    idt_offset: usize,
    handler_base_va: u64,
    handler_offsets: &[usize],
) -> (result: X86Result<()>)
    requires
        idt_offset + 528 <= old(storage)@.len(),
        handler_offsets@.len() >= 33,
        forall|v: int| 0 <= v < 33 ==> handler_base_va + #[trigger] handler_offsets@[v] <= u64::MAX,
    ensures
        result == Ok::<(), X86Error>(()),
        idt_stands(final(storage)@, idt_offset as int, handler_base_va, handler_offsets@),
        bytes::same_outside(old(storage)@, final(storage)@, idt_offset as int, idt_offset + 528),
{
    let mut vector: usize = 0;
    while vector < IDT_ENTRIES
        invariant
            vector <= 33,
            idt_offset + 528 <= storage@.len(),
            handler_offsets@.len() >= 33,
            forall|v: int|
                0 <= v < 33 ==> handler_base_va + #[trigger] handler_offsets@[v] <= u64::MAX,
            bytes::same_outside(old(storage)@, storage@, idt_offset as int, idt_offset + 528),
            forall|v: int|
                0 <= v < vector ==> #[trigger] gate_stands(
                    storage@,
                    idt_offset + 16 * v,
                    selectors::KERNEL_CODE_64,
                    (handler_base_va + handler_offsets@[v]) as u64,
                    3,
                    1,
                ),
        decreases 33 - vector,
    {
        let handler_va: u64 = handler_base_va + handler_offsets[vector] as u64;
        let ghost before = storage@;
        setup_interrupt_gate(
            storage,
            idt_offset,
            vector,
            selectors::KERNEL_CODE_64,
            handler_va,
            3,
            1,
        );
        proof {
            assert forall|v: int| 0 <= v < vector implies #[trigger] gate_stands(
                storage@,
                idt_offset + 16 * v,
                selectors::KERNEL_CODE_64,
                (handler_base_va + handler_offsets@[v]) as u64,
                3,
                1,
            ) by {
                let at = idt_offset + 16 * v;
                assert(gate_stands(
                    before,
                    at,
                    selectors::KERNEL_CODE_64,
                    (handler_base_va + handler_offsets@[v]) as u64,
                    3,
                    1,
                ));
                assert(forall|b: int| at <= b < at + 16 ==> #[trigger] storage@[b] == before[b]);
            }
        }
        vector = vector + 1;
    }
    Ok(())
}

/// Sets up a single interrupt gate.
fn setup_interrupt_gate(
    storage: &mut [u8],
    idt_offset: usize,
    vector: usize,
    selector: u16,
    handler_addr: u64,
    dpl: u8,
    ist: u8,
)
    requires
        idt_offset + vector * 16 + 16 <= old(storage)@.len(),
    ensures
        gate_stands(
            final(storage)@,
            idt_offset + 16 * vector,
            selector,
            handler_addr,
            dpl,
            ist,
        ),
        bytes::same_outside(
            old(storage)@,
            final(storage)@,
            idt_offset + 16 * vector,
            idt_offset + 16 * vector + 16,
        ),
{
    assert(storage.len() == storage@.len());
    let entry_offset: usize = idt_offset + vector * IDT_ENTRY_SIZE;
    proof {
        assert(handler_addr & 0xFFFF == handler_addr % 0x1_0000) by (bit_vector);
        assert((handler_addr >> 16) & 0xFFFF == handler_addr / 0x1_0000 % 0x1_0000)
            by (bit_vector);
        assert((handler_addr >> 32) & 0xFFFF_FFFF == handler_addr / 0x1_0000_0000)
            by (bit_vector);
        assert(0x8Eu8 | ((dpl & 0x3) << 5) == 0x8E + dpl % 4 * 0x20) by (bit_vector);
        assert(ist & 0x7 == ist % 8) by (bit_vector);
    }
    let offset_low: u16 = (handler_addr & 0xFFFF) as u16;
    let offset_mid: u16 = ((handler_addr >> 16) & 0xFFFF) as u16;
    let offset_high: u32 = ((handler_addr >> 32) & 0xFFFF_FFFF) as u32;
    let type_attr: u8 = 0x8E | ((dpl & 0x3) << 5);
    bytes::put_u16(storage, entry_offset, offset_low);
    bytes::put_u16(storage, entry_offset + 2, selector);
    storage[entry_offset + 4] = ist & 0x7;
    storage[entry_offset + 5] = type_attr;
    bytes::put_u16(storage, entry_offset + 6, offset_mid);
    bytes::put_u32(storage, entry_offset + 8, offset_high);
    bytes::fill_zero(storage, entry_offset + 12, entry_offset + 16);
}

proof fn lemma_gdt_kept(s0: Seq<u8>, s1: Seq<u8>, at: int, tss_base: u64)
    requires
        gdt_stands(s0, at, tss_base),
        forall|j: int| at <= j < at + 64 ==> #[trigger] s1[j] == s0[j],
    ensures
        gdt_stands(s1, at, tss_base),
{
}

/// Clears the room of the three tables and sets them up one after the other.
fn place_tables(
    storage: &mut [u8],
    gdt_offset: usize,
    phys_base: u64,
    interrupt_stack_top: u64,
    handler_base_va: u64,
    handler_offsets: &[usize],
) -> (result: X86Result<()>)
    requires
        gdt_offset + 696 <= old(storage)@.len(),
        phys_base + gdt_offset + 64 <= u64::MAX,
        handler_offsets@.len() >= 33,
        forall|v: int| 0 <= v < 33 ==> handler_base_va + #[trigger] handler_offsets@[v] <= u64::MAX,
    ensures
        result == Ok::<(), X86Error>(()),
        gdt_stands(final(storage)@, gdt_offset as int, (phys_base + gdt_offset + 64) as u64),
        tss_stands(final(storage)@, gdt_offset + 64, interrupt_stack_top),
        idt_stands(final(storage)@, gdt_offset + 168, handler_base_va, handler_offsets@),
        bytes::same_outside(old(storage)@, final(storage)@, gdt_offset as int, gdt_offset + 696),
{
    assert(storage.len() == storage@.len());
    let tss_offset: usize = gdt_offset + GDT_SIZE;
    let idt_offset: usize = tss_offset + TSS_SIZE;
    bytes::fill_zero(storage, gdt_offset, gdt_offset + STRUCTURES_SIZE);
    let ghost s3 = storage@;
    match setup_gdt(storage, gdt_offset, tss_offset, phys_base) {
        Ok(_) => {},
        Err(e) => return Err(e),
    }
    let ghost s4 = storage@;
    match setup_tss(storage, tss_offset, interrupt_stack_top) {
        Ok(_) => {},
        Err(e) => return Err(e),
    }
    let ghost s5 = storage@;
    match setup_idt(storage, idt_offset, handler_base_va, handler_offsets) {
        Ok(_) => {},
        Err(e) => return Err(e),
    }
    proof {
        let s = storage@;
        assert forall|j: int| gdt_offset <= j < tss_offset implies #[trigger] s[j] == s4[j] by {
            assert(s5[j] == s4[j]);
        }
        lemma_gdt_kept(s4, s, gdt_offset as int, (phys_base + tss_offset) as u64);
        assert forall|j: int| tss_offset <= j < idt_offset implies #[trigger] s[j] == s5[j] by {}
        assert forall|j: int| tss_offset <= j < idt_offset implies #[trigger] s4[j] == 0 by {
            assert(s4[j] == s3[j]);
        }
        assert(tss_stands(s, tss_offset as int, interrupt_stack_top));
    }
    Ok(())
}

/// Sets up the interrupt stack, the interrupt handlers and the three descriptor tables.
///
/// They are taken from below `stack_start`, which ends up at the global
/// descriptor table. Each vector is led to its handler, at its offset in
/// `handler_code`. Returns the offsets of the global descriptor table, the
/// task state segment, the interrupt descriptor table and the handlers, and the
/// physical address of the top of the interrupt stack.
#[verifier::rlimit(30)]
pub fn set_interrupt_tables(
    storage: &mut [u8],
    stack_start: &mut usize,
    phys_base: u64,
    handler_code: &[u8],
    handler_offsets: &[usize],
) -> (result: X86Result<(usize, usize, usize, usize, u64)>)
    requires
        *old(stack_start) >= 4096 ==> *old(stack_start) <= old(storage)@.len(),
        *old(stack_start) >= 4096 ==> phys_base + *old(stack_start) <= u64::MAX,
        handler_code@.len() + 4095 <= usize::MAX,
        handler_offsets@.len() >= 33,
        ({
            let plan = InterruptPlan {
                top: *old(stack_start) as int,
                handler_size: handler_code@.len() as int,
            };
            plan.gdt_offset() >= 0 ==> forall|v: int|
                0 <= v < 33 ==> phys_base + plan.handler_offset() + #[trigger] handler_offsets@[v]
                    <= u64::MAX
        }),
    ensures
        ({
            let top = *old(stack_start) as int;
            let plan = InterruptPlan { top, handler_size: handler_code@.len() as int };
            let s0 = old(storage)@;
            let s = final(storage)@;
            if plan.stack_offset() < 0 {
                &&& result == Err::<(usize, usize, usize, usize, u64), _>(X86Error::ContextTooSmall)
                &&& *final(stack_start) == top
                &&& s == s0
            } else if plan.handler_offset() < 0 {
                &&& result == Err::<(usize, usize, usize, usize, u64), _>(X86Error::ContextTooSmall)
                &&& *final(stack_start) == plan.stack_offset()
                &&& bytes::zeroed(s, plan.stack_offset(), top)
                &&& bytes::same_outside(s0, s, plan.stack_offset(), top)
            } else if plan.gdt_offset() < 0 {
                &&& result == Err::<(usize, usize, usize, usize, u64), _>(X86Error::ContextTooSmall)
                &&& *final(stack_start) == plan.handler_offset()
                &&& bytes::zeroed(s, plan.stack_offset(), top)
                &&& plan.handlers_stand(s, handler_code@)
                &&& bytes::same_outside(s0, s, plan.handler_offset(), top)
            } else {
                &&& result == Ok::<_, X86Error>(
                    (
                        plan.gdt_offset() as usize,
                        plan.tss_offset() as usize,
                        plan.idt_offset() as usize,
                        plan.handler_offset() as usize,
                        (phys_base + top) as u64,
                    ),
                )
                &&& *final(stack_start) == plan.gdt_offset()
                &&& plan.stands_in(s, phys_base, handler_code@, handler_offsets@)
                &&& bytes::same_outside(s0, s, plan.gdt_offset(), top)
            }
        }),
{
    let ghost top = *stack_start as int;
    let ghost plan = InterruptPlan { top, handler_size: handler_code@.len() as int };
    if *stack_start < INTERRUPT_STACK_SIZE {
        return Err(X86Error::ContextTooSmall);
    }
    *stack_start = *stack_start - INTERRUPT_STACK_SIZE;
    let interrupt_stack_offset: usize = *stack_start;
    let interrupt_stack_top: u64 = phys_base + interrupt_stack_offset as u64
        + INTERRUPT_STACK_SIZE as u64;
    bytes::fill_zero(
        storage,
        interrupt_stack_offset,
        interrupt_stack_offset + INTERRUPT_STACK_SIZE,
    );
    let handler_size: usize = handler_code.len();
    let mut handler_pages: usize = (handler_size + (PAGE_SIZE - 1)) / PAGE_SIZE;
    if handler_pages < 1 {
        handler_pages = 1;
    }
    let handler_alloc: usize = handler_pages * PAGE_SIZE;
    assert(handler_alloc == plan.handler_alloc());
    if *stack_start < handler_alloc {
        return Err(X86Error::ContextTooSmall);
    }
    *stack_start = *stack_start - handler_alloc;
    let handler_offset: usize = *stack_start;
    bytes::fill_zero(storage, handler_offset, handler_offset + handler_alloc);
    let ghost s1 = storage@;
    bytes::copy_into(storage, handler_offset, handler_code);
    let ghost s2 = storage@;
    proof {
        assert forall|j: int|
            handler_offset + handler_size <= j < handler_offset + handler_alloc implies #[trigger] s2[j]
            == 0 by {
            assert(s2[j] == s1[j]);
        }
        assert(plan.handlers_stand(s2, handler_code@));
    }
    if *stack_start < STRUCTURES_SIZE {
        return Err(X86Error::ContextTooSmall);
    }
    *stack_start = *stack_start - STRUCTURES_SIZE;
    let gdt_offset: usize = *stack_start;
    let tss_offset: usize = gdt_offset + GDT_SIZE;
    let idt_offset: usize = tss_offset + TSS_SIZE;
    let handler_base_va: u64 = phys_base + handler_offset as u64;
    match place_tables(
        storage,
        gdt_offset,
        phys_base,
        interrupt_stack_top,
        handler_base_va,
        handler_offsets,
    ) {
        Ok(_) => {},
        Err(e) => return Err(e),
    }
    proof {
        let code_end = handler_offset + handler_size;
        assert(storage@.subrange(handler_offset as int, code_end) =~= s2.subrange(
            handler_offset as int,
            code_end,
        ));
        assert(plan.handlers_stand(storage@, handler_code@));
    }
    Ok((gdt_offset, tss_offset, idt_offset, handler_offset, interrupt_stack_top))
}

/// Creates the operand of a descriptor table load: a 2-byte limit and an 8-byte base.
pub fn create_descriptor(base: u64, limit: u16) -> (desc: [u8; 10])
    ensures
        bytes::le16(desc@, 0) == limit,
        bytes::le64(desc@, 2) == base,
{
    let mut desc: [u8; 10] = [0u8; 10];
    bytes::put_u16(&mut desc, 0, limit);
    bytes::put_u64(&mut desc, 2, base);
    desc
}

/// The address of the handler that a gate at `at` leads to.
pub open spec fn gate_handler(s: Seq<u8>, at: int) -> int {
    bytes::le16(s, at) + 0x1_0000 * bytes::le16(s, at + 6) + 0x1_0000_0000 * bytes::le32(s, at + 8)
}

/// The base address in a descriptor of a task state segment at `at`.
pub open spec fn tss_descriptor_base(s: Seq<u8>, at: int) -> int {
    bytes::le64(s, at) / 0x1_0000 % 0x100_0000 + bytes::le64(s, at) / 0x100_0000_0000_0000
        * 0x100_0000 + bytes::le64(s, at + 8) * 0x1_0000_0000
}

proof fn lemma_descriptor_base(base: u64)
    ensures
        tss_descriptor_low(base) / 0x1_0000 % 0x100_0000 == base % 0x100_0000,
        tss_descriptor_low(base) / 0x100_0000_0000_0000 == base / 0x100_0000 % 0x100,
        base % 0x100_0000 + base / 0x100_0000 % 0x100 * 0x100_0000 + base / 0x1_0000_0000
            * 0x1_0000_0000 == base,
{
    let a = base as int % 0x100_0000;
    let h = base as int / 0x100_0000 % 0x100;
    let low = tss_descriptor_low(base);
    let upper = a + 0x100_0000 * (0x89 + 0x1_0000 * h);
    assert(low == 0x1_0000 * upper + 0x67);
    assert(low / 0x1_0000 == upper);
    assert(upper % 0x100_0000 == a);
    let rest = 0x8900_0000_0067 + a * 0x1_0000;
    assert(0 <= rest < 0x100_0000_0000_0000);
    assert(low == 0x100_0000_0000_0000 * h + rest);
    assert(low / 0x100_0000_0000_0000 == h);
    assert(base as int / 0x100_0000 == base as int / 0x1_0000_0000 * 0x100 + h);
}

proof fn lemma_gate_handler(
    s: Seq<u8>,
    at: int,
    selector: u16,
    handler_addr: u64,
    dpl: u8,
    ist: u8,
)
    requires
        gate_stands(s, at, selector, handler_addr, dpl, ist),
    ensures
        gate_handler(s, at) == handler_addr,
{
}

/// Every vector has an entry that leads to the handler of that vector.
pub proof fn gates_lead_to_their_handlers(
    s: Seq<u8>,
    idt_offset: int,
    handler_base_va: u64,
    handler_offsets: Seq<usize>,
    vector: int,
)
    requires
        idt_stands(s, idt_offset, handler_base_va, handler_offsets),
        0 <= vector < 33,
        handler_base_va + handler_offsets[vector] <= u64::MAX,
    ensures
        gate_handler(s, idt_offset + 16 * vector) == handler_base_va + handler_offsets[vector],
{
    let handler = (handler_base_va + handler_offsets[vector]) as u64;
    let at = idt_offset + 16 * vector;
    assert(gate_stands(s, at, selectors::KERNEL_CODE_64, handler, 3, 1));
    lemma_gate_handler(s, at, selectors::KERNEL_CODE_64, handler, 3, 1);
}

/// The selector of the task state segment picks the descriptor whose base is
/// the address of the segment.
pub proof fn selector_leads_to_task_state(s: Seq<u8>, gdt_offset: int, tss_base: u64)
    requires
        gdt_stands(s, gdt_offset, tss_base),
    ensures
        tss_descriptor_base(s, gdt_offset + selectors::TSS) == tss_base,
{
    lemma_descriptor_base(tss_base);
    let low = bytes::le64(s, gdt_offset + 40);
    assert(low == tss_descriptor_low(tss_base));
}

/// Where the parts are: the stack is the page below `top`, the handlers have the
/// fewest whole pages that hold them, at least one, below it, and below these
/// are the three tables, one after the other, with no gap.
pub proof fn parts_follow_each_other(plan: InterruptPlan)
    requires
        plan.handler_size >= 0,
    ensures
        plan.stack_offset() + 4096 == plan.top,
        (plan.stack_offset() - plan.handler_offset()) % 4096 == 0,
        plan.handler_offset() + 4096 <= plan.stack_offset(),
        plan.handler_offset() + plan.handler_size <= plan.stack_offset(),
        plan.handler_size > 0 ==> plan.stack_offset() < plan.handler_offset() + plan.handler_size
            + 4096,
        plan.handler_size <= 4096 ==> plan.handler_offset() + 4096 == plan.stack_offset(),
        plan.gdt_offset() + 8 * 8 == plan.tss_offset(),
        plan.tss_offset() + 104 == plan.idt_offset(),
        plan.idt_offset() + 33 * 16 == plan.handler_offset(),
{
}

/// The sizes of the tables and of the stack.
pub proof fn tables_have_their_sizes()
    ensures
        GDT_SIZE == 8 * GDT_ENTRIES,
        GDT_ENTRIES == 8,
        TSS_SIZE == 104,
        IDT_ENTRY_SIZE == 16,
        IDT_ENTRIES == 33,
        IDT_SIZE == IDT_ENTRIES * IDT_ENTRY_SIZE,
        INTERRUPT_STACK_PAGES == 1,
        INTERRUPT_STACK_SIZE == 4096,
{
}

/// Both stack pointers in the task state segment, the one for privilege level 0
/// and the first of the interrupt stacks, are the returned top of the interrupt
/// stack: the physical address of its end.
pub proof fn interrupts_enter_at_the_top_of_the_stack(
    plan: InterruptPlan,
    s: Seq<u8>,
    phys_base: u64,
    handler_code: Seq<u8>,
    handler_offsets: Seq<usize>,
    tss_offset: usize,
    interrupt_stack_top: u64,
)
    requires
        plan.stands_in(s, phys_base, handler_code, handler_offsets),
        0 <= plan.top,
        phys_base + plan.top <= u64::MAX,
        tss_offset == plan.tss_offset(),
        interrupt_stack_top == (phys_base + plan.top) as u64,
    ensures
        bytes::le64(s, tss_offset + 0x04) == interrupt_stack_top,
        bytes::le64(s, tss_offset + 0x24) == interrupt_stack_top,
        interrupt_stack_top == phys_base + plan.stack_offset() + 4096,
{
    let at = tss_offset as int;
    lemma_task_state_stands(plan, s, phys_base, handler_code, handler_offsets);
    stack_pointers_are_the_top(s, at, interrupt_stack_top);
}

/// Both stack pointers in a task state segment are the top of the interrupt stack.
pub proof fn stack_pointers_are_the_top(s: Seq<u8>, at: int, interrupt_stack_top: u64)
    requires
        tss_stands(s, at, interrupt_stack_top),
    ensures
        bytes::le64(s, at + 0x04) == interrupt_stack_top,
        bytes::le64(s, at + 0x24) == interrupt_stack_top,
{
}

proof fn lemma_task_state_stands(
    plan: InterruptPlan,
    s: Seq<u8>,
    phys_base: u64,
    handler_code: Seq<u8>,
    handler_offsets: Seq<usize>,
)
    requires
        plan.stands_in(s, phys_base, handler_code, handler_offsets),
    ensures
        tss_stands(s, plan.tss_offset(), (phys_base + plan.top) as u64),
{
}

/// The interrupt stack is clear: every byte of the page that ends at its top.
pub proof fn interrupt_stack_is_clear(
    plan: InterruptPlan,
    s: Seq<u8>,
    phys_base: u64,
    handler_code: Seq<u8>,
    handler_offsets: Seq<usize>,
    j: int,
)
    requires
        plan.stands_in(s, phys_base, handler_code, handler_offsets),
        plan.top - 4096 <= j < plan.top,
    ensures
        s[j] == 0,
{
    assert(bytes::zeroed(s, plan.stack_offset(), plan.top));
}

/// The I/O map starts behind the task state segment, and every byte of the
/// segment but this and the two stack pointers is zero.
pub proof fn task_state_is_otherwise_empty(
    s: Seq<u8>,
    at: int,
    interrupt_stack_top: u64,
    j: int,
)
    requires
        tss_stands(s, at, interrupt_stack_top),
        0 <= j < 104,
    ensures
        s[at + 0x66] == 104,
        s[at + 0x67] == 0,
        j < 0x04 || 0x0C <= j < 0x24 || 0x2C <= j < 0x66 ==> s[at + j] == 0,
{
    assert(tss_fields_stand(s, at, interrupt_stack_top));
    if j < 0x04 {
        assert(bytes::zeroed(s, at, at + 0x04));
    } else if 0x0C <= j < 0x24 {
        assert(bytes::zeroed(s, at + 0x0C, at + 0x24));
    } else if 0x2C <= j < 0x66 {
        assert(bytes::zeroed(s, at + 0x2C, at + 0x66));
    }
}

/// The global descriptor table: an empty entry, flat 64-bit code and data for
/// the kernel, the same for user code, the descriptor of the task state segment
/// with its address and its last offset, and an empty entry.
pub proof fn descriptors_describe_their_segments(
    plan: InterruptPlan,
    s: Seq<u8>,
    phys_base: u64,
    handler_code: Seq<u8>,
    handler_offsets: Seq<usize>,
    gdt_offset: usize,
)
    requires
        plan.stands_in(s, phys_base, handler_code, handler_offsets),
        0 <= plan.tss_offset(),
        phys_base + plan.tss_offset() <= u64::MAX,
        gdt_offset == plan.gdt_offset(),
    ensures
        bytes::le64(s, gdt_offset as int) == 0,
        bytes::le64(s, gdt_offset + 8) == 0x00AF_9A00_0000_FFFF,
        bytes::le64(s, gdt_offset + 16) == 0x00CF_9200_0000_FFFF,
        bytes::le64(s, gdt_offset + 24) == 0x00AF_FA00_0000_FFFF,
        bytes::le64(s, gdt_offset + 32) == 0x00CF_F200_0000_FFFF,
        bytes::le16(s, gdt_offset + 40) == 104 - 1,
        s[gdt_offset + 45] == 0x89,
        s[gdt_offset + 46] == 0,
        bytes::le16(s, gdt_offset + 42) + 0x1_0000 * s[gdt_offset + 44] + 0x100_0000 * s[gdt_offset
            + 47] + 0x1_0000_0000 * bytes::le32(s, gdt_offset + 48) == phys_base + (gdt_offset
            + 64),
        bytes::le32(s, gdt_offset + 52) == 0,
        bytes::le64(s, gdt_offset + 56) == 0,
{
    let at = gdt_offset + 40;
    let base = (phys_base + plan.tss_offset()) as u64;
    let a = base as int % 0x100_0000;
    let h = base as int / 0x100_0000 % 0x100;
    lemma_descriptor_base(base);
    assert(bytes::le64(s, at) == 0x67 + 0x1_0000 * (a + 0x100_0000 * (0x89 + 0x1_0000 * h)));
    let low16 = s[at] + 0x100 * s[at + 1];
    let addr = s[at + 2] + 0x100 * s[at + 3] + 0x1_0000 * s[at + 4];
    let kind = s[at + 5] + 0x100 * s[at + 6];
    assert(bytes::le64(s, at) == low16 + 0x1_0000 * (addr + 0x100_0000 * (kind + 0x1_0000 * s[at
        + 7])));
    lemma_parts(
        low16,
        addr,
        kind,
        s[at + 7] as int,
        0x67,
        a,
        0x89,
        h,
    );
    let high = base as int / 0x1_0000_0000;
    assert(bytes::le64(s, at + 8) == bytes::le32(s, at + 8) + 0x1_0000_0000 * bytes::le32(
        s,
        at + 12,
    ));
    assert(bytes::le64(s, at + 8) == high);
    assert(0 <= high < 0x1_0000_0000);
}

/// Numbers made of parts in the same way are equal only if the parts are.
proof fn lemma_parts(
    a0: int,
    a1: int,
    a2: int,
    a3: int,
    b0: int,
    b1: int,
    b2: int,
    b3: int,
)
    requires
        0 <= a0 < 0x1_0000,
        0 <= b0 < 0x1_0000,
        0 <= a1 < 0x100_0000,
        0 <= b1 < 0x100_0000,
        0 <= a2 < 0x1_0000,
        0 <= b2 < 0x1_0000,
        a0 + 0x1_0000 * (a1 + 0x100_0000 * (a2 + 0x1_0000 * a3)) == b0 + 0x1_0000 * (b1
            + 0x100_0000 * (b2 + 0x1_0000 * b3)),
    ensures
        a0 == b0,
        a1 == b1,
        a2 == b2,
        a3 == b3,
{
    let (qa2, qb2) = (a2 + 0x1_0000 * a3, b2 + 0x1_0000 * b3);
    let (qa1, qb1) = (a1 + 0x100_0000 * qa2, b1 + 0x100_0000 * qb2);
    let x = a0 + 0x1_0000 * qa1;
    vstd::arithmetic::div_mod::lemma_fundamental_div_mod_converse(x, 0x1_0000, qa1, a0);
    vstd::arithmetic::div_mod::lemma_fundamental_div_mod_converse(x, 0x1_0000, qb1, b0);
    vstd::arithmetic::div_mod::lemma_fundamental_div_mod_converse(qa1, 0x100_0000, qa2, a1);
    vstd::arithmetic::div_mod::lemma_fundamental_div_mod_converse(qa1, 0x100_0000, qb2, b1);
    vstd::arithmetic::div_mod::lemma_fundamental_div_mod_converse(qa2, 0x1_0000, a3, a2);
    vstd::arithmetic::div_mod::lemma_fundamental_div_mod_converse(qa2, 0x1_0000, b3, b2);
}

/// Each vector is led to its handler in the kernel code segment, on the first
/// interrupt stack, and may be raised by user code. The code of the handlers
/// stands where the vectors lead, followed by zeros up to the stack.
pub proof fn vectors_reach_their_handlers(
    plan: InterruptPlan,
    s: Seq<u8>,
    phys_base: u64,
    handler_code: Seq<u8>,
    handler_offsets: Seq<usize>,
    idt_offset: usize,
    handler_offset: usize,
    v: int,
    j: int,
)
    requires
        plan.stands_in(s, phys_base, handler_code, handler_offsets),
        plan.handler_size == handler_code.len(),
        plan.top <= s.len(),
        idt_offset == plan.idt_offset(),
        handler_offset == plan.handler_offset(),
        0 <= v < 33,
        phys_base + handler_offset + handler_offsets[v] <= u64::MAX,
    ensures
        ({
            let gate = idt_offset + 16 * v;
            &&& bytes::le16(s, gate) + 0x1_0000 * bytes::le16(s, gate + 6) + 0x1_0000_0000
                * bytes::le32(s, gate + 8) == phys_base + handler_offset + handler_offsets[v]
            &&& bytes::le16(s, gate + 2) == 8
            &&& s[gate + 4] == 1
            &&& s[gate + 5] == 0x8E + 3 * 0x20
            &&& bytes::le32(s, gate + 12) == 0
        }),
        0 <= j < handler_code.len() ==> s[handler_offset + j] == handler_code[j],
        handler_code.len() <= j < plan.top - 4096 - handler_offset ==> s[handler_offset + j] == 0,
{
    let base = (phys_base + plan.handler_offset()) as u64;
    gates_lead_to_their_handlers(s, idt_offset as int, base, handler_offsets, v);
    assert(gate_stands(
        s,
        idt_offset + 16 * v,
        selectors::KERNEL_CODE_64,
        (base + handler_offsets[v]) as u64,
        3,
        1,
    ));
    if 0 <= j < handler_code.len() {
        assert(s.subrange(handler_offset as int, handler_offset + handler_code.len())[j]
            == handler_code[j]);
    }
}

/// The operand of a descriptor table load holds its limit in the first two bytes
/// and its base in the eight that follow, both lowest byte first.
pub proof fn operands_hold_limit_and_base(base: u64, limit: u16, desc: [u8; 10])
    requires
        call_ensures(create_descriptor, (base, limit), desc),
    ensures
        desc@[0] + 0x100 * desc@[1] == limit,
        bytes::le64(desc@, 2) == base,
{
}

/// The code of the handlers stands at the place of the handlers.
pub proof fn handlers_stand_where_they_were_put(
    plan: InterruptPlan,
    s: Seq<u8>,
    phys_base: u64,
    handler_code: Seq<u8>,
    handler_offsets: Seq<usize>,
    j: int,
)
    requires
        plan.stands_in(s, phys_base, handler_code, handler_offsets),
        0 <= plan.handler_offset(),
        plan.handler_size == handler_code.len(),
        plan.top <= s.len(),
    ensures
        0 <= j < handler_code.len() ==> s[plan.handler_offset() + j] == handler_code[j],
{
    let at = plan.handler_offset();
    assert(plan.handlers_stand(s, handler_code));
    assert(0 <= j < handler_code.len() ==> s[at + j] == s.subrange(at, at + handler_code.len())[j]);
}

/// What is set up for interrupts is consistent: the stack pointers in the task
/// state segment are the returned top of the stack, the descriptor of the
/// segment gives its physical address, and each vector leads to its handler.
/// The tables end where the handlers begin. Bytes below them and at or above
/// `stack_start` are not touched.
pub proof fn interrupt_tables_fit_together(
    storage: &mut [u8],
    stack_start: &mut usize,
    phys_base: u64,
    handler_code: &[u8],
    handler_offsets: &[usize],
    result: X86Result<(usize, usize, usize, usize, u64)>,
    v: int,
    j: int,
)
    requires
        call_ensures(
            set_interrupt_tables,
            (storage, stack_start, phys_base, handler_code, handler_offsets),
            result,
        ),
        *old(stack_start) <= old(storage)@.len(),
        phys_base + *old(stack_start) <= u64::MAX,
        0 <= v < 33,
        0 <= j < old(storage)@.len(),
    ensures
        (result matches Ok((gdt, tss, idt, handlers, stack_top)) ==> {
            let s = final(storage)@;
            let gate = idt + 16 * v;
            &&& stack_top == phys_base + *old(stack_start)
            &&& bytes::le64(s, tss + 0x04) == stack_top
            &&& bytes::le64(s, tss + 0x24) == stack_top
            &&& tss_descriptor_base(s, gdt + 5 * 8) == phys_base + tss
            &&& phys_base + handlers + handler_offsets@[v] <= u64::MAX ==> bytes::le16(s, gate)
                + 0x1_0000 * bytes::le16(s, gate + 6) + 0x1_0000_0000 * bytes::le32(s, gate + 8)
                == phys_base + handlers + handler_offsets@[v]
            &&& tss == gdt + 8 * 8
            &&& idt == tss + 104
            &&& handlers == idt + 33 * 16
            &&& *final(stack_start) == gdt
            &&& handlers + handler_code@.len() + 4096 <= *old(stack_start)
            &&& j < handler_code@.len() ==> s[handlers + j] == handler_code@[j]
            &&& *old(stack_start) - 4096 <= j < *old(stack_start) ==> s[j] == 0
            &&& j < gdt ==> s[j] == old(storage)@[j]
        }),
        j >= *old(stack_start) ==> final(storage)@[j] == old(storage)@[j],
        result is Err ==> result->Err_0 == X86Error::ContextTooSmall,
        result is Ok <==> *old(stack_start) >= 4096 + 696 + 4096 * (if handler_code@.len() == 0 {
            1
        } else {
            (handler_code@.len() + 4095) / 4096
        }),
{
    let plan = InterruptPlan {
        top: *old(stack_start) as int,
        handler_size: handler_code@.len() as int,
    };
    let s = final(storage)@;
    parts_follow_each_other(plan);
    if plan.gdt_offset() >= 0 {
        interrupts_enter_at_the_top_of_the_stack(
            plan,
            s,
            phys_base,
            handler_code@,
            handler_offsets@,
            plan.tss_offset() as usize,
            (phys_base + plan.top) as u64,
        );
        if plan.stack_offset() <= j < plan.top {
            interrupt_stack_is_clear(plan, s, phys_base, handler_code@, handler_offsets@, j);
        }
        assert(gdt_stands(s, plan.gdt_offset(), (phys_base + plan.tss_offset()) as u64));
        selector_leads_to_task_state(
            s,
            plan.gdt_offset(),
            (phys_base + plan.tss_offset()) as u64,
        );
        if phys_base + plan.handler_offset() + handler_offsets@[v] <= u64::MAX {
            vectors_reach_their_handlers(
                plan,
                s,
                phys_base,
                handler_code@,
                handler_offsets@,
                plan.idt_offset() as usize,
                plan.handler_offset() as usize,
                v,
                j,
            );
        }
        assert(plan.handlers_stand(s, handler_code@));
        assert(j < handler_code@.len() ==> s[plan.handler_offset() + j] == s.subrange(
            plan.handler_offset(),
            plan.handler_offset() + handler_code@.len(),
        )[j]);
    }
}

/// Where there is no room for a part, that part and what would follow it are
/// left out: the room taken is that of the parts before it, and no byte below
/// that room is touched.
pub proof fn refused_tables_take_no_room(
    storage: &mut [u8],
    stack_start: &mut usize,
    phys_base: u64,
    handler_code: &[u8],
    handler_offsets: &[usize],
    result: X86Result<(usize, usize, usize, usize, u64)>,
    j: int,
)
    requires
        call_ensures(
            set_interrupt_tables,
            (storage, stack_start, phys_base, handler_code, handler_offsets),
            result,
        ),
        result is Err,
        *old(stack_start) <= old(storage)@.len(),
        0 <= j < old(storage)@.len(),
    ensures
        ({
            let top = *old(stack_start) as int;
            let handlers = 4096 * (if handler_code@.len() == 0 {
                1
            } else {
                (handler_code@.len() + 4095) / 4096
            });
            &&& top < 4096 ==> *final(stack_start) == top
            &&& 4096 <= top < 4096 + handlers ==> *final(stack_start) == top - 4096
            &&& 4096 + handlers <= top ==> *final(stack_start) == top - 4096 - handlers
            &&& j < *final(stack_start) || top <= j ==> final(storage)@[j] == old(storage)@[j]
        }),
{
}

} // verus!
