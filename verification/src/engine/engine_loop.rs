//! The loop that executes functions on one processor.

use crate::ap_startup::page_walk;
use crate::bytes;
use crate::engine::driver::FunctionConfig;
use crate::errors::{DandelionError, RunError};
use crate::memory_domain::context::UnikraftContext;
use crate::memory_domain::layout::{UnikraftLayout, MIN_CONTEXT_SIZE, TRAMPOLINE_REGION_SIZE};
use crate::x86_64::interrupts::{
    InterruptPlan, GDT_SIZE, IDT_SIZE, INTERRUPT_STACK_SIZE, TSS_SIZE,
};
use crate::x86_64::{interrupts, mapping};
use crate::x86_64::paging::TablePlan;
use crate::x86_64::{selectors, set_interrupt_tables, set_page_table, X86Error, PAGE_SIZE};
use vstd::prelude::*;

verus! {

/// The code of the interrupt handlers and the offset of the handler of each vector in it.
#[derive(Debug)]
pub struct InterruptHandlers {
    pub code: Vec<u8>,
    pub offsets: Vec<usize>,
}

/// The code of the trampolines from the kernel to user code and back. Each has
/// a page of its own.
#[derive(Debug)]
pub struct TrampolineCode {
    pub k2u: Vec<u8>,
    pub u2k: Vec<u8>,
}

/// The values that go into the trampolines and handlers of a context.
#[derive(Debug, Clone, Copy, PartialEq, Eq, Structural)]
pub struct TrampolinePatches {
    /// Where the trampoline to user code is.
    pub k2u_entry_offset: usize,
    pub user_cr3: u64,
    pub gdt_base: u64,
    pub gdt_limit: u16,
    pub idt_base: u64,
    pub idt_limit: u16,
    pub tss_selector: u16,
    pub user_stack_top: u64,
    pub user_entry_point: u64,
    /// Where the trampoline back to the kernel is.
    pub u2k_entry_offset: usize,
    pub kernel_cr3: u64,
    /// Where the handlers are.
    pub handler_offset: usize,
    /// Address of the trampoline back to the kernel, which the handlers jump to.
    pub u2k_va: u64,
}

/// What the run of a function needs of its configuration.
#[derive(Debug, Clone, Copy, PartialEq, Eq, Structural)]
pub struct RunPlan {
    pub entry_point: usize,
    pub system_data_offset: usize,
}

/// The context that a function is to run in.
#[derive(Debug, Clone, Copy, PartialEq, Eq, Structural)]
pub enum ContextKind {
    Unikraft { initialized: bool },
    /// A context of another domain.
    Other,
}

/// What has happened during the run of a function.
#[derive(Debug, PartialEq, Eq)]
pub enum RunEvent<E> {
    /// The input structures are set up in a context of the given kind.
    InputsReady(ContextKind),
    /// The context is initialized.
    Initialized,
    /// The user code was executed.
    Executed,
    /// The output structures were read.
    OutputsRead,
    /// The last action failed.
    Failed(RunError<E>),
}

/// What to do next in the run of a function.
#[derive(Debug, PartialEq, Eq)]
pub enum RunAction<E> {
    Initialize { entry_point: usize },
    Execute { entry_point: usize },
    ReadOutputs { system_data_offset: usize },
    Finish,
    Fail(RunError<E>),
}

impl RunPlan {
    /// What follows an event.
    pub open spec fn after<E>(self, event: RunEvent<E>) -> RunAction<E> {
        match event {
            RunEvent::InputsReady(ContextKind::Other) => RunAction::Fail(
                RunError::Engine(DandelionError::ContextMissmatch),
            ),
            RunEvent::InputsReady(ContextKind::Unikraft { initialized }) => if initialized {
                RunAction::Execute { entry_point: self.entry_point }
            } else {
                RunAction::Initialize { entry_point: self.entry_point }
            },
            RunEvent::Initialized => RunAction::Execute { entry_point: self.entry_point },
            RunEvent::Executed => RunAction::ReadOutputs {
                system_data_offset: self.system_data_offset,
            },
            RunEvent::OutputsRead => RunAction::Finish,
            RunEvent::Failed(error) => RunAction::Fail(error),
        }
    }

    /// Decides what to do next in the run of a function.
    pub fn next<E>(&self, event: RunEvent<E>) -> (action: RunAction<E>)
        ensures
            action == self.after(event),
    {
        match event {
            RunEvent::InputsReady(kind) => match kind {
                ContextKind::Other => RunAction::Fail(
                    RunError::Engine(DandelionError::ContextMissmatch),
                ),
                ContextKind::Unikraft { initialized } => {
                    if !initialized {
                        RunAction::Initialize { entry_point: self.entry_point }
                    } else {
                        RunAction::Execute { entry_point: self.entry_point }
                    }
                },
            },
            RunEvent::Initialized => RunAction::Execute { entry_point: self.entry_point },
            RunEvent::Executed => RunAction::ReadOutputs {
                system_data_offset: self.system_data_offset,
            },
            RunEvent::OutputsRead => RunAction::Finish,
            RunEvent::Failed(error) => RunAction::Fail(error),
        }
    }
}

/// User code is executed only in an initialized context of the domain, and at
/// the entry point of the function.
pub proof fn only_initialized_contexts_execute<E>(plan: RunPlan, event: RunEvent<E>)
    ensures
        (plan.after(event) matches RunAction::Execute { entry_point } ==> {
            &&& entry_point == plan.entry_point
            &&& event == RunEvent::<E>::Initialized || event == RunEvent::<E>::InputsReady(
                ContextKind::Unikraft { initialized: true },
            )
        }),
{
}

/// A run that fails does so with the error that was raised: that of the last
/// action, or that the context is of another domain.
pub proof fn errors_are_handed_on<E>(plan: RunPlan, event: RunEvent<E>)
    ensures
        (plan.after(event) matches RunAction::Fail(error) ==> {
            ||| event == RunEvent::Failed(error)
            ||| event == RunEvent::<E>::InputsReady(ContextKind::Other) && error
                == RunError::<E>::Engine(DandelionError::ContextMissmatch)
        }),
        (event matches RunEvent::Failed(error) ==> plan.after(event) == RunAction::Fail(error)),
{
}

/// Where the parts of a context end up when it is initialized.
pub struct InitPlan {
    /// Size of the context.
    pub total_size: int,
    /// Physical address of the context.
    pub phys_base: u64,
    /// Size of the handler code.
    pub handler_size: int,
}

impl InitPlan {
    /// The page tables, at the end of the context.
    pub open spec fn tables(self) -> TablePlan {
        TablePlan {
            top: self.total_size,
            context_size: self.total_size,
            phys_base: self.phys_base as int,
            large: true,
        }
    }

    pub open spec fn tables_fit(self) -> bool {
        self.tables().built() == self.tables().page_count()
    }

    pub open spec fn page_table_offset(self) -> int {
        self.total_size - 4096 * self.tables().built()
    }

    /// The interrupt stack, the handlers and the descriptor tables, below the page tables.
    pub open spec fn interrupts(self) -> InterruptPlan {
        InterruptPlan { top: self.page_table_offset(), handler_size: self.handler_size }
    }

    pub open spec fn interrupts_fit(self) -> bool {
        self.interrupts().gdt_offset() >= 0
    }

    /// The trampolines, below the descriptor tables.
    pub open spec fn trampoline_offset(self) -> int {
        self.interrupts().gdt_offset() - 8192
    }

    pub open spec fn trampolines_fit(self) -> bool {
        self.trampoline_offset() >= 0
    }

    pub open spec fn fits(self) -> bool {
        self.tables_fit() && self.interrupts_fit() && self.trampolines_fit()
    }

    /// The layout that initialization leaves behind in place of `layout`.
    pub open spec fn layout_after(self, layout: UnikraftLayout) -> UnikraftLayout {
        if !self.tables_fit() {
            layout
        } else {
            let with_tables = UnikraftLayout {
                pml4_phys: self.tables().page_phys(0),
                page_table_offset: self.page_table_offset() as usize,
                ..layout
            };
            if !self.interrupts_fit() {
                with_tables
            } else {
                let with_interrupts = UnikraftLayout {
                    gdt_offset: self.interrupts().gdt_offset() as usize,
                    tss_offset: self.interrupts().tss_offset() as usize,
                    idt_offset: self.interrupts().idt_offset() as usize,
                    handler_offset: self.interrupts().handler_offset() as usize,
                    interrupt_stack_offset: self.interrupts().stack_offset() as usize,
                    ..with_tables
                };
                if !self.trampolines_fit() {
                    with_interrupts
                } else {
                    UnikraftLayout {
                        trampoline_offset: self.trampoline_offset() as usize,
                        k2u_entry_offset: self.trampoline_offset() as usize,
                        u2k_entry_offset: (self.trampoline_offset() + 4096) as usize,
                        user_stack_top: self.trampoline_offset() as usize,
                        ..with_interrupts
                    }
                }
            }
        }
    }

    /// Below the descriptor tables, `s` is `s0` with the trampolines in their place.
    pub open spec fn trampolines_stand(
        self,
        s0: Seq<u8>,
        s: Seq<u8>,
        trampolines: TrampolineCode,
    ) -> bool {
        let at = self.trampoline_offset();
        let placed = bytes::overwritten(
            bytes::overwritten(s0, at, trampolines.k2u@),
            at + 4096,
            trampolines.u2k@,
        );
        forall|j: int| 0 <= j < self.interrupts().gdt_offset() ==> #[trigger] s[j] == placed[j]
    }

    /// Initialization turns the bytes `s0` of a context into `s`.
    pub open spec fn turns(
        self,
        s0: Seq<u8>,
        s: Seq<u8>,
        handlers: InterruptHandlers,
        trampolines: TrampolineCode,
    ) -> bool {
        let ints = self.interrupts();
        &&& self.tables().stands_in(s, self.tables().built())
        &&& if !self.tables_fit() || ints.stack_offset() < 0 {
            bytes::same_outside(s0, s, self.page_table_offset(), self.total_size)
        } else if ints.handler_offset() < 0 {
            &&& bytes::zeroed(s, ints.stack_offset(), ints.top)
            &&& bytes::same_outside(s0, s, ints.stack_offset(), self.total_size)
        } else if !self.interrupts_fit() {
            &&& bytes::zeroed(s, ints.stack_offset(), ints.top)
            &&& ints.handlers_stand(s, handlers.code@)
            &&& bytes::same_outside(s0, s, ints.handler_offset(), self.total_size)
        } else if !self.trampolines_fit() {
            &&& ints.stands_in(s, self.phys_base, handlers.code@, handlers.offsets@)
            &&& bytes::same_outside(s0, s, ints.gdt_offset(), self.total_size)
        } else {
            &&& ints.stands_in(s, self.phys_base, handlers.code@, handlers.offsets@)
            &&& self.trampolines_stand(s0, s, trampolines)
            &&& s.len() == s0.len()
        }
    }
}

/// Every context from the smallest size up to 512 GiB can be initialized, with
/// handlers of up to a page.
pub proof fn contexts_can_be_initialized(plan: InitPlan)
    requires
        MIN_CONTEXT_SIZE <= plan.total_size <= 0x80_0000_0000,
        0 <= plan.handler_size <= 4096,
    ensures
        plan.fits(),
{
    plan.tables().lemma_counts();
}

/// Once a context is initialized, the code of each trampoline stands where its
/// entry is.
pub proof fn trampolines_stand_at_their_entries(
    plan: InitPlan,
    before: Seq<u8>,
    s: Seq<u8>,
    handlers: InterruptHandlers,
    trampolines: TrampolineCode,
    layout: UnikraftLayout,
)
    requires
        plan.total_size == before.len() == s.len() == layout.total_size,
        plan.handler_size >= 0,
        trampolines.k2u@.len() <= 4096,
        trampolines.u2k@.len() <= 4096,
        plan.fits(),
        plan.turns(before, s, handlers, trampolines),
    ensures
        ({
            let after = plan.layout_after(layout);
            let k2u = after.k2u_entry_offset as int;
            let u2k = after.u2k_entry_offset as int;
            &&& s.subrange(k2u, k2u + trampolines.k2u@.len()) == trampolines.k2u@
            &&& s.subrange(u2k, u2k + trampolines.u2k@.len()) == trampolines.u2k@
        }),
{
    plan.tables().lemma_counts();
    let at = plan.trampoline_offset();
    assert(s.subrange(at, at + trampolines.k2u@.len()) =~= trampolines.k2u@);
    assert(s.subrange(at + 4096, at + 4096 + trampolines.u2k@.len()) =~= trampolines.u2k@);
}

/// The page tables that initialization leaves behind map every address below
/// the size of the context, rounded up to whole pages, onto the physical memory
/// of the context, in 2 MiB pages that user code may read, write and execute,
/// and nothing else.
pub proof fn initialized_tables_map_the_context(
    plan: InitPlan,
    before: Seq<u8>,
    s: Seq<u8>,
    handlers: InterruptHandlers,
    trampolines: TrampolineCode,
    layout: UnikraftLayout,
    memory: spec_fn(u64) -> u64,
    directmap_base: u64,
    va: u64,
)
    requires
        plan.total_size == s.len(),
        plan.tables_fit(),
        plan.tables().addressable(),
        plan.turns(before, s, handlers, trampolines),
        mapping::shows(memory, s, plan.phys_base as int, directmap_base),
        va < 0x1_0000_0000_0000,
    ensures
        page_walk::translate(memory, plan.layout_after(layout).pml4_phys, va, directmap_base)
            == if va < plan.tables().mapped_size() {
            Some((plan.phys_base + va) as u64)
        } else {
            None
        },
        plan.total_size <= 0x80_0000_0000 ==> plan.total_size <= plan.tables().mapped_size(),
        va < plan.tables().mapped_size() ==> mapping::user_path(
            mapping::path(memory, plan.layout_after(layout).pml4_phys, va, directmap_base),
            true,
        ),
{
    mapping::tables_map_the_context(plan.tables(), s, memory, directmap_base, va);
}

/// What initialization places in a context lies one above the other without
/// overlap: the user stack, the two trampolines, the three descriptor tables,
/// the handlers, the interrupt stack and the page tables at the end of the
/// context.
pub proof fn initialized_parts_are_disjoint(plan: InitPlan, layout: UnikraftLayout)
    requires
        layout.total_size == plan.total_size,
        plan.handler_size >= 0,
        plan.tables_fit(),
        plan.interrupts_fit(),
    ensures
        ({
            let after = plan.layout_after(layout);
            &&& after.gdt_offset + GDT_SIZE == after.tss_offset
            &&& after.tss_offset + TSS_SIZE == after.idt_offset
            &&& after.idt_offset + IDT_SIZE == after.handler_offset
            &&& after.handler_offset + plan.handler_size <= after.interrupt_stack_offset
            &&& after.interrupt_stack_offset + INTERRUPT_STACK_SIZE == after.page_table_offset
            &&& after.page_table_offset < after.total_size == layout.total_size
            &&& plan.fits() ==> {
                &&& after.user_stack_top == after.trampoline_offset
                &&& after.k2u_entry_offset == after.trampoline_offset
                &&& after.u2k_entry_offset == after.trampoline_offset + PAGE_SIZE
                &&& after.u2k_entry_offset + PAGE_SIZE <= after.gdt_offset
            }
        }),
{
    plan.tables().lemma_counts();
}

/// The loop that executes functions on one processor.
#[derive(Debug, Clone, Copy, PartialEq, Eq, Structural)]
pub struct UnikraftLoop {
    /// The processor that the loop is bound to.
    pub cpu_slot: u8,
}

impl UnikraftLoop {
    /// The loop for a processor.
    pub fn init(core_id: u8) -> (result: Result<UnikraftLoop, DandelionError>)
        ensures
            result == Ok::<UnikraftLoop, DandelionError>(UnikraftLoop { cpu_slot: core_id }),
    {
        Ok(UnikraftLoop { cpu_slot: core_id })
    }

    /// Sets up the page tables, the interrupt handlers, the descriptor tables and
    /// the trampolines of a context.
    ///
    /// `walked` is what a walk of the kernel page tables found for the context.
    pub fn initialize_context(
        &self,
        context: &mut UnikraftContext,
        walked: Option<u64>,
        handlers: &InterruptHandlers,
        trampolines: &TrampolineCode,
    ) -> (result: Result<(), DandelionError>)
        requires
            old(context).wf(),
            trampolines.k2u@.len() <= 4096,
            trampolines.u2k@.len() <= 4096,
            handlers.code@.len() + 4095 <= usize::MAX,
            handlers.offsets@.len() >= 33,
            old(context).layout.total_size + 0x4000_0000 <= usize::MAX,
            old(context).layout.total_size >= 4096 ==> old(context).phys_base(walked) + (
            old(context).layout.total_size - 4096) <= u64::MAX,
            ({
                let plan = InitPlan {
                    total_size: old(context).layout.total_size as int,
                    phys_base: old(context).phys_base(walked),
                    handler_size: handlers.code@.len() as int,
                };
                &&& plan.tables().pages_addressed()
                &&& plan.tables_fit() && plan.interrupts_fit() ==> forall|v: int|
                    0 <= v < 33 ==> plan.phys_base + plan.interrupts().handler_offset()
                        + #[trigger] handlers.offsets@[v] <= u64::MAX
            }),
        ensures
            ({
                let plan = InitPlan {
                    total_size: old(context).layout.total_size as int,
                    phys_base: old(context).phys_base(walked),
                    handler_size: handlers.code@.len() as int,
                };
                &&& result == if plan.fits() {
                    Ok(())
                } else {
                    Err(DandelionError::MemoryAllocationError)
                }
                &&& final(context).wf()
                &&& final(context).layout == plan.layout_after(old(context).layout)
                &&& final(context).initialized == (old(context).initialized || plan.fits())
                &&& final(context).same_place(old(context))
                &&& plan.turns(old(context)@, final(context)@, *handlers, *trampolines)
            }),
    {
        let phys_base: u64 = context.get_phys_base(walked);
        let layout: UnikraftLayout = context.layout;
        let (layout, done) = set_up(
            context.as_slice_mut(),
            layout,
            phys_base,
            handlers,
            trampolines,
        );
        let ghost bytes = context@;
        context.layout = layout;
        assert(context@ =~= bytes);
        if !done {
            return Err(DandelionError::MemoryAllocationError);
        }
        context.initialized = true;
        assert(context@ =~= bytes);
        Ok(())
    }

    /// What has to be patched into the trampolines and handlers of a context so
    /// that user code is executed at `entry_point`.
    ///
    /// `walked` is what a walk of the kernel page tables found for the context.
    pub fn execute_user_code(
        &self,
        context: &UnikraftContext,
        entry_point: usize,
        walked: Option<u64>,
        kernel_cr3: u64,
    ) -> (patches: TrampolinePatches)
        requires
            context.phys_base(walked) + context.layout.gdt_offset <= u64::MAX,
            context.phys_base(walked) + context.layout.idt_offset <= u64::MAX,
            context.phys_base(walked) + context.layout.user_stack_top <= u64::MAX,
            context.phys_base(walked) + context.layout.u2k_entry_offset <= u64::MAX,
        ensures
            patches == (TrampolinePatches {
                k2u_entry_offset: context.layout.k2u_entry_offset,
                user_cr3: context.layout.pml4_phys,
                gdt_base: (context.phys_base(walked) + context.layout.gdt_offset) as u64,
                gdt_limit: 63,
                idt_base: (context.phys_base(walked) + context.layout.idt_offset) as u64,
                idt_limit: 527,
                tss_selector: selectors::TSS,
                user_stack_top: (context.phys_base(walked) + context.layout.user_stack_top) as u64,
                user_entry_point: entry_point as u64,
                u2k_entry_offset: context.layout.u2k_entry_offset,
                kernel_cr3,
                handler_offset: context.layout.handler_offset,
                u2k_va: (context.phys_base(walked) + context.layout.u2k_entry_offset) as u64,
            }),
    {
        let phys_base: u64 = context.get_phys_base(walked);
        TrampolinePatches {
            k2u_entry_offset: context.layout.k2u_entry_offset,
            user_cr3: context.layout.pml4_phys,
            gdt_base: phys_base + context.layout.gdt_offset as u64,
            gdt_limit: (GDT_SIZE - 1) as u16,
            idt_base: phys_base + context.layout.idt_offset as u64,
            idt_limit: (IDT_SIZE - 1) as u16,
            tss_selector: selectors::TSS,
            user_stack_top: phys_base + context.layout.user_stack_top as u64,
            user_entry_point: entry_point as u64,
            u2k_entry_offset: context.layout.u2k_entry_offset,
            kernel_cr3,
            handler_offset: context.layout.handler_offset,
            u2k_va: phys_base + context.layout.u2k_entry_offset as u64,
        }
    }

    /// Begins the run of a function: what it needs, or why it cannot run here.
    ///
    /// The caller sets up the input structures at the system data and goes on
    /// with `RunPlan::next`.
    pub fn run<P>(&self, config: &FunctionConfig<P>) -> (result: Result<RunPlan, DandelionError>)
        ensures
            result == match *config {
                FunctionConfig::ElfConfig(elf) => Ok(
                    RunPlan {
                        entry_point: elf.entry_point,
                        system_data_offset: elf.system_data_offset,
                    },
                ),
                FunctionConfig::Other => Err(DandelionError::ConfigMissmatch),
            },
    {
        match config {
            FunctionConfig::ElfConfig(elf) => Ok(
                RunPlan {
                    entry_point: elf.entry_point,
                    system_data_offset: elf.system_data_offset,
                },
            ),
            FunctionConfig::Other => Err(DandelionError::ConfigMissmatch),
        }
    }
}

/// Sets up everything in the bytes of a context, as far as there is room.
/// Returns its layout then, and whether there was room for everything.
#[verifier::rlimit(30)]
fn set_up(
    storage: &mut [u8],
    layout: UnikraftLayout,
    phys_base: u64,
    handlers: &InterruptHandlers,
    trampolines: &TrampolineCode,
) -> (result: (UnikraftLayout, bool))
    requires
        old(storage)@.len() == layout.total_size,
        trampolines.k2u@.len() <= 4096,
        trampolines.u2k@.len() <= 4096,
        handlers.code@.len() + 4095 <= usize::MAX,
        handlers.offsets@.len() >= 33,
        layout.total_size + 0x4000_0000 <= usize::MAX,
        layout.total_size >= 4096 ==> phys_base + (layout.total_size - 4096) <= u64::MAX,
        ({
            let plan = InitPlan {
                total_size: layout.total_size as int,
                phys_base,
                handler_size: handlers.code@.len() as int,
            };
            &&& plan.tables().pages_addressed()
            &&& plan.tables_fit() && plan.interrupts_fit() ==> forall|v: int|
                0 <= v < 33 ==> plan.phys_base + plan.interrupts().handler_offset()
                    + #[trigger] handlers.offsets@[v] <= u64::MAX
        }),
    ensures
        ({
            let plan = InitPlan {
                total_size: layout.total_size as int,
                phys_base,
                handler_size: handlers.code@.len() as int,
            };
            &&& result.0 == plan.layout_after(layout)
            &&& result.1 == plan.fits()
            &&& plan.turns(old(storage)@, final(storage)@, *handlers, *trampolines)
            &&& final(storage)@.len() == old(storage)@.len()
        }),
{
    let ghost plan = InitPlan {
        total_size: layout.total_size as int,
        phys_base,
        handler_size: handlers.code@.len() as int,
    };
    let ghost s0 = storage@;
    let mut layout: UnikraftLayout = layout;
    let context_size: usize = layout.total_size;
    let mut stack_start: usize = context_size;
    let pml4_phys: u64 = match set_page_table(
        storage,
        &mut stack_start,
        context_size,
        phys_base,
        true,
    ) {
        Ok(pml4_phys) => pml4_phys,
        Err(_) => return (layout, false),
    };
    let ghost s1 = storage@;
    layout.pml4_phys = pml4_phys;
    layout.page_table_offset = stack_start;
    let parts: Result<(usize, usize, usize, usize, u64), X86Error> = set_interrupt_tables(
        storage,
        &mut stack_start,
        phys_base,
        handlers.code.as_slice(),
        handlers.offsets.as_slice(),
    );
    let ghost s2 = storage@;
    proof {
        lemma_tables_kept(plan, s1, s2);
    }
    let (gdt_offset, tss_offset, idt_offset, handler_offset, interrupt_stack_top) = match parts {
        Ok(parts) => parts,
        Err(_) => return (layout, false),
    };
    layout.gdt_offset = gdt_offset;
    layout.tss_offset = tss_offset;
    layout.idt_offset = idt_offset;
    layout.handler_offset = handler_offset;
    layout.interrupt_stack_offset = (interrupt_stack_top - phys_base) as usize
        - INTERRUPT_STACK_SIZE;
    if stack_start < TRAMPOLINE_REGION_SIZE {
        return (layout, false);
    }
    let trampoline_offset: usize = stack_start - TRAMPOLINE_REGION_SIZE;
    copy_trampolines(storage, trampoline_offset, trampoline_offset + PAGE_SIZE, trampolines);
    proof {
        lemma_trampolines_added(plan, s0, s2, storage@, *handlers, *trampolines);
    }
    layout.trampoline_offset = trampoline_offset;
    layout.k2u_entry_offset = trampoline_offset;
    layout.u2k_entry_offset = trampoline_offset + PAGE_SIZE;
    layout.user_stack_top = trampoline_offset;
    (layout, true)
}

/// Copies the trampolines to where their entries are.
fn copy_trampolines(
    storage: &mut [u8],
    k2u_offset: usize,
    u2k_offset: usize,
    trampolines: &TrampolineCode,
)
    requires
        k2u_offset + trampolines.k2u@.len() <= old(storage)@.len(),
        u2k_offset + trampolines.u2k@.len() <= old(storage)@.len(),
    ensures
        final(storage)@ == bytes::overwritten(
            bytes::overwritten(old(storage)@, k2u_offset as int, trampolines.k2u@),
            u2k_offset as int,
            trampolines.u2k@,
        ),
{
    bytes::copy_into(storage, k2u_offset, trampolines.k2u.as_slice());
    bytes::copy_into(storage, u2k_offset, trampolines.u2k.as_slice());
}

/// The trampolines below the descriptor tables complete what stands above them.
proof fn lemma_trampolines_added(
    plan: InitPlan,
    s0: Seq<u8>,
    s2: Seq<u8>,
    s3: Seq<u8>,
    handlers: InterruptHandlers,
    trampolines: TrampolineCode,
)
    requires
        plan.total_size == s0.len() == s2.len(),
        plan.handler_size == handlers.code@.len(),
        plan.fits(),
        plan.tables().stands_in(s2, plan.tables().built()),
        plan.interrupts().stands_in(s2, plan.phys_base, handlers.code@, handlers.offsets@),
        bytes::same_outside(s0, s2, plan.interrupts().gdt_offset(), plan.total_size),
        trampolines.k2u@.len() <= 4096,
        trampolines.u2k@.len() <= 4096,
        s3 == bytes::overwritten(
            bytes::overwritten(s2, plan.trampoline_offset(), trampolines.k2u@),
            plan.trampoline_offset() + 4096,
            trampolines.u2k@,
        ),
    ensures
        plan.turns(s0, s3, handlers, trampolines),
{
    plan.tables().lemma_counts();
    assert(bytes::same_outside(s2, s3, 0, plan.interrupts().gdt_offset()));
    assert(bytes::same_outside(s2, s3, 0, plan.page_table_offset()));
    lemma_tables_kept(plan, s2, s3);
    plan.interrupts().lemma_kept(
        s2,
        s3,
        plan.phys_base,
        handlers.code@,
        handlers.offsets@,
    );
}

/// The page tables stay as they are when what lies below them changes.
proof fn lemma_tables_kept(plan: InitPlan, s1: Seq<u8>, s2: Seq<u8>)
    requires
        plan.tables().stands_in(s1, plan.tables().built()),
        plan.tables().built() * 4096 <= plan.total_size == s1.len(),
        bytes::same_outside(s1, s2, 0, plan.page_table_offset()),
    ensures
        plan.tables().stands_in(s2, plan.tables().built()),
{
    let tables = plan.tables();
    assert forall|k: int, i: int|
        0 <= k < tables.built() && 0 <= i < 512 implies #[trigger] tables.stored(s2, k, i)
        == tables.entry(tables.built(), k, i) by {
        assert(tables.stored(s1, k, i) == tables.entry(tables.built(), k, i));
        let at = tables.page_offset(k) + 8 * i;
        assert(forall|b: int| at <= b < at + 8 ==> #[trigger] s2[b] == s1[b]);
    }
}

/// A run initializes its context where that is still to be done, then executes
/// the function at its entry point, then reads the outputs at its system data,
/// and is finished then. A context of another domain ends it.
pub proof fn runs_go_through_their_steps<E>(plan: RunPlan)
    ensures
        plan.after(RunEvent::<E>::InputsReady(ContextKind::Unikraft { initialized: false })) == (
        RunAction::<E>::Initialize { entry_point: plan.entry_point }),
        plan.after(RunEvent::<E>::InputsReady(ContextKind::Unikraft { initialized: true })) == (
        RunAction::<E>::Execute { entry_point: plan.entry_point }),
        plan.after(RunEvent::<E>::Initialized) == (RunAction::<E>::Execute {
            entry_point: plan.entry_point,
        }),
        plan.after(RunEvent::<E>::Executed) == (RunAction::<E>::ReadOutputs {
            system_data_offset: plan.system_data_offset,
        }),
        plan.after(RunEvent::<E>::OutputsRead) == RunAction::<E>::Finish,
        plan.after(RunEvent::<E>::InputsReady(ContextKind::Other)) == RunAction::<E>::Fail(
            RunError::Engine(DandelionError::ContextMissmatch),
        ),
{
}

/// What an initialized context holds: page tables at its end that map all of it
/// in large pages, and right below them the interrupt stack, the handlers and
/// the descriptor tables, each with the handlers that were given.
pub proof fn initialized_contexts_hold_their_tables(
    plan: InitPlan,
    before: Seq<u8>,
    s: Seq<u8>,
    handlers: InterruptHandlers,
    trampolines: TrampolineCode,
)
    requires
        plan.handler_size >= 0,
        plan.turns(before, s, handlers, trampolines),
    ensures
        plan.tables().top == plan.total_size,
        plan.tables().context_size == plan.total_size,
        plan.tables().phys_base == plan.phys_base,
        plan.tables().large,
        plan.interrupts().top == plan.total_size - 4096 * plan.tables().built(),
        plan.interrupts().handler_size == plan.handler_size,
        plan.tables().stands_in(s, plan.tables().built()),
        plan.fits() ==> plan.tables().built() == plan.tables().page_count(),
        plan.fits() ==> plan.interrupts().stands_in(
            s,
            plan.phys_base,
            handlers.code@,
            handlers.offsets@,
        ),
{
}

/// Where initialization puts the parts of a context of a given size, from its
/// end downwards: a page for each table, a page of stack, the handlers in whole
/// pages, 696 bytes of descriptor tables and two pages of trampolines. It
/// succeeds if and only if there is room for all of it. The layout says where
/// each part is as far as they were set up, and the rest of it stays.
pub proof fn initialization_places_the_parts(plan: InitPlan, layout: UnikraftLayout)
    requires
        layout.total_size == plan.total_size,
        plan.handler_size >= 0,
        plan.phys_base + plan.total_size <= u64::MAX,
    ensures
        ({
            let after = plan.layout_after(layout);
            let gigabytes = (plan.total_size + 0x3fff_ffff) / 0x4000_0000;
            let tables = 4096 * (2 + if gigabytes < 1 {
                1
            } else if gigabytes > 512 {
                512
            } else {
                gigabytes
            });
            let handlers = if plan.handler_size == 0 {
                4096
            } else {
                (plan.handler_size + 4095) / 4096 * 4096
            };
            let stack = plan.total_size - tables - 4096;
            let gdt = stack - handlers - 696;
            &&& plan.fits() == (gdt >= 8192)
            &&& after.total_size == layout.total_size
            &&& plan.total_size < tables ==> after == layout
            &&& plan.total_size >= tables ==> {
                &&& after.pml4_phys == plan.phys_base + plan.total_size - 4096
                &&& after.page_table_offset == plan.total_size - tables
            }
            &&& plan.total_size >= tables && gdt < 0 ==> {
                &&& after.interrupt_stack_offset == layout.interrupt_stack_offset
                &&& after.handler_offset == layout.handler_offset
                &&& after.gdt_offset == layout.gdt_offset
                &&& after.tss_offset == layout.tss_offset
                &&& after.idt_offset == layout.idt_offset
            }
            &&& gdt >= 0 ==> {
                &&& after.interrupt_stack_offset == stack
                &&& after.handler_offset == stack - handlers
                &&& after.gdt_offset == gdt
                &&& after.tss_offset == gdt + 64
                &&& after.idt_offset == gdt + 64 + 104
            }
            &&& gdt < 8192 ==> {
                &&& after.trampoline_offset == layout.trampoline_offset
                &&& after.k2u_entry_offset == layout.k2u_entry_offset
                &&& after.u2k_entry_offset == layout.u2k_entry_offset
                &&& after.user_stack_top == layout.user_stack_top
            }
            &&& gdt >= 8192 ==> {
                &&& after.trampoline_offset == gdt - 8192
                &&& after.k2u_entry_offset == gdt - 8192
                &&& after.u2k_entry_offset == gdt - 4096
                &&& after.user_stack_top == gdt - 8192
            }
        }),
{
    plan.tables().lemma_counts();
}

/// Initialization leaves the part of a context that is for the user as it was,
/// and so the bytes behind each trampoline up to the end of its page.
pub proof fn initialization_spares_the_user(
    plan: InitPlan,
    before: Seq<u8>,
    s: Seq<u8>,
    handlers: InterruptHandlers,
    trampolines: TrampolineCode,
    layout: UnikraftLayout,
    j: int,
)
    requires
        plan.total_size == before.len() == s.len() == layout.total_size,
        plan.handler_size >= 0,
        trampolines.k2u@.len() <= 4096,
        trampolines.u2k@.len() <= 4096,
        plan.fits(),
        plan.turns(before, s, handlers, trampolines),
        0 <= j < plan.layout_after(layout).gdt_offset,
    ensures
        ({
            let after = plan.layout_after(layout);
            let k2u = after.k2u_entry_offset;
            let u2k = after.u2k_entry_offset;
            &&& j < after.user_stack_top ==> s[j] == before[j]
            &&& k2u <= j < k2u + trampolines.k2u@.len() ==> s[j] == trampolines.k2u@[j - k2u]
            &&& k2u + trampolines.k2u@.len() <= j < u2k ==> s[j] == before[j]
            &&& u2k <= j < u2k + trampolines.u2k@.len() ==> s[j] == trampolines.u2k@[j - u2k]
            &&& u2k + trampolines.u2k@.len() <= j ==> s[j] == before[j]
        }),
{
    plan.tables().lemma_counts();
}

/// Where there is no room for everything, initialization leaves the bytes below
/// what it has set up as they were.
pub proof fn failed_initialization_spares_the_rest(
    plan: InitPlan,
    before: Seq<u8>,
    s: Seq<u8>,
    handlers: InterruptHandlers,
    trampolines: TrampolineCode,
    j: int,
)
    requires
        plan.total_size == before.len(),
        plan.handler_size >= 0,
        !plan.fits(),
        plan.turns(before, s, handlers, trampolines),
        0 <= j < before.len(),
    ensures
        s.len() == before.len(),
        !plan.tables_fit() && j < plan.total_size % 4096 ==> s[j] == before[j],
        plan.tables_fit() && j < plan.page_table_offset() - 4096 - plan.interrupts().handler_alloc()
            - 696 ==> s[j] == before[j],
        plan.tables_fit() && plan.page_table_offset() < 4096 && j < plan.page_table_offset()
            ==> s[j] == before[j],
{
    plan.tables().lemma_counts();
}

/// What is patched for an execution: the page tables of the context, the places
/// of its descriptor tables with the last offset in each, the top of its stack,
/// the entry point, the kernel page tables, and the trampoline back as the
/// target of the handlers, all as physical addresses in the context.
pub proof fn patches_point_into_the_context(
    engine: UnikraftLoop,
    context: UnikraftContext,
    entry_point: usize,
    walked: Option<u64>,
    kernel_cr3: u64,
    patches: TrampolinePatches,
)
    requires
        call_ensures(
            UnikraftLoop::execute_user_code,
            (&engine, &context, entry_point, walked, kernel_cr3),
            patches,
        ),
        context.phys_base(walked) + context.layout.gdt_offset <= u64::MAX,
        context.phys_base(walked) + context.layout.idt_offset <= u64::MAX,
        context.phys_base(walked) + context.layout.user_stack_top <= u64::MAX,
        context.phys_base(walked) + context.layout.u2k_entry_offset <= u64::MAX,
    ensures
        patches.user_cr3 == context.layout.pml4_phys,
        patches.kernel_cr3 == kernel_cr3,
        patches.user_entry_point == entry_point,
        patches.gdt_base - context.phys_base(walked) == context.layout.gdt_offset,
        patches.gdt_limit == 8 * 8 - 1,
        patches.idt_base - context.phys_base(walked) == context.layout.idt_offset,
        patches.idt_limit == 33 * 16 - 1,
        patches.tss_selector == 5 * 8,
        patches.user_stack_top - context.phys_base(walked) == context.layout.user_stack_top,
        patches.u2k_va - context.phys_base(walked) == context.layout.u2k_entry_offset,
        patches.k2u_entry_offset == context.layout.k2u_entry_offset,
        patches.u2k_entry_offset == context.layout.u2k_entry_offset,
        patches.handler_offset == context.layout.handler_offset,
{
}

/// A run takes its entry point and its system data from the configuration of an
/// ELF function and refuses every other configuration.
pub proof fn runs_take_their_configuration<P>(
    engine: UnikraftLoop,
    config: FunctionConfig<P>,
    result: Result<RunPlan, DandelionError>,
)
    requires
        call_ensures(UnikraftLoop::run::<P>, (&engine, &config), result),
    ensures
        (config matches FunctionConfig::ElfConfig(elf) ==> (result matches Ok(plan)
            && plan.entry_point == elf.entry_point && plan.system_data_offset
            == elf.system_data_offset)),
        config is Other ==> (result matches Err(e) && e == DandelionError::ConfigMissmatch),
{
}

/// What follows an event in a run is what the steps of the run say.
pub proof fn runs_decide_by_the_event<E>(plan: RunPlan, event: RunEvent<E>, action: RunAction<E>)
    requires
        call_ensures(RunPlan::next::<E>, (&plan, event), action),
    ensures
        match event {
            RunEvent::InputsReady(ContextKind::Other) => action == RunAction::<E>::Fail(
                RunError::Engine(DandelionError::ContextMissmatch),
            ),
            RunEvent::InputsReady(ContextKind::Unikraft { initialized }) => if initialized {
                action == (RunAction::<E>::Execute { entry_point: plan.entry_point })
            } else {
                action == (RunAction::<E>::Initialize { entry_point: plan.entry_point })
            },
            RunEvent::Initialized => action == (RunAction::<E>::Execute {
                entry_point: plan.entry_point,
            }),
            RunEvent::Executed => action == (RunAction::<E>::ReadOutputs {
                system_data_offset: plan.system_data_offset,
            }),
            RunEvent::OutputsRead => action == RunAction::<E>::Finish,
            RunEvent::Failed(error) => action == RunAction::Fail(error),
        },
{
}

/// A context of at least 2 MiB and at most 512 GiB is initialized, with handlers
/// of up to a page. Its layout then says where its parts are, below one another,
/// and nothing outside the context has changed.
pub proof fn initialization_makes_a_context_ready(
    engine: UnikraftLoop,
    context: &mut UnikraftContext,
    walked: Option<u64>,
    handlers: InterruptHandlers,
    trampolines: TrampolineCode,
    result: Result<(), DandelionError>,
)
    requires
        call_ensures(
            UnikraftLoop::initialize_context,
            (&engine, context, walked, &handlers, &trampolines),
            result,
        ),
        0x20_0000 <= old(context).layout.total_size <= 0x80_0000_0000,
        old(context).phys_base(walked) + old(context).layout.total_size <= u64::MAX,
        handlers.code@.len() <= 4096,
    ensures
        result is Ok,
        final(context).initialized,
        lies_below_its_tables(
            final(context).layout,
            old(context).layout.total_size as int,
            old(context).phys_base(walked),
        ),
        final(context).start == old(context).start,
        final(context).storage_addr == old(context).storage_addr,
        final(context).storage@.len() == old(context).storage@.len(),
{
    let plan = InitPlan {
        total_size: old(context).layout.total_size as int,
        phys_base: old(context).phys_base(walked),
        handler_size: handlers.code@.len() as int,
    };
    contexts_can_be_initialized(plan);
    lemma_ready_layout(plan, old(context).layout);
}

/// The parts of a context of the given size with a page of handlers, from its end
/// downwards.
pub open spec fn lies_below_its_tables(
    layout: UnikraftLayout,
    size: int,
    phys_base: u64,
) -> bool {
    let gdt = layout.gdt_offset;
    &&& layout.total_size == size
    &&& (size - layout.page_table_offset) % 4096 == 0
    &&& ((size - layout.page_table_offset) / 4096 - 2) * 0x4000_0000 >= size
    &&& layout.pml4_phys == phys_base + size - 4096
    &&& layout.interrupt_stack_offset == layout.page_table_offset - 4096
    &&& layout.handler_offset == layout.interrupt_stack_offset - 4096
    &&& layout.idt_offset == layout.handler_offset - 33 * 16
    &&& layout.tss_offset == layout.idt_offset - 104
    &&& layout.gdt_offset == layout.tss_offset - 8 * 8
    &&& layout.u2k_entry_offset == gdt - 4096
    &&& layout.k2u_entry_offset == gdt - 8192
    &&& layout.trampoline_offset == gdt - 8192
    &&& layout.user_stack_top == gdt - 8192
}

proof fn lemma_ready_layout(plan: InitPlan, layout: UnikraftLayout)
    requires
        layout.total_size == plan.total_size,
        0x20_0000 <= plan.total_size <= 0x80_0000_0000,
        0 <= plan.handler_size <= 4096,
        plan.phys_base + plan.total_size <= u64::MAX,
    ensures
        lies_below_its_tables(plan.layout_after(layout), plan.total_size, plan.phys_base),
{
    initialization_places_the_parts(plan, layout);
    let gigabytes = (plan.total_size + 0x3fff_ffff) / 0x4000_0000;
    let after = plan.layout_after(layout);
    assert(1 <= gigabytes <= 512);
    assert(plan.total_size - after.page_table_offset == 4096 * (2 + gigabytes));
    assert((plan.total_size - after.page_table_offset) / 4096 == 2 + gigabytes);
}

/// Once a context is initialized, the trampolines and the handlers that were
/// given stand where its layout says, both stack pointers in its task state
/// segment are the end of its interrupt stack, and the bytes below the top of
/// the user stack are as they were.
#[verifier::rlimit(60)]
pub proof fn ready_contexts_hold_their_code(
    engine: UnikraftLoop,
    context: &mut UnikraftContext,
    walked: Option<u64>,
    handlers: InterruptHandlers,
    trampolines: TrampolineCode,
    result: Result<(), DandelionError>,
    j: int,
)
    requires
        call_ensures(
            UnikraftLoop::initialize_context,
            (&engine, context, walked, &handlers, &trampolines),
            result,
        ),
        result is Ok,
        old(context).wf(),
        old(context).phys_base(walked) + old(context).layout.total_size <= u64::MAX,
        trampolines.k2u@.len() <= 4096,
        trampolines.u2k@.len() <= 4096,
    ensures
        ({
            let s = final(context)@;
            let layout = final(context).layout;
            &&& 0 <= j < layout.user_stack_top ==> s[j] == old(context)@[j]
            &&& 0 <= j < trampolines.k2u@.len() ==> s[layout.k2u_entry_offset + j]
                == trampolines.k2u@[j]
            &&& 0 <= j < trampolines.u2k@.len() ==> s[layout.u2k_entry_offset + j]
                == trampolines.u2k@[j]
            &&& 0 <= j < handlers.code@.len() ==> s[layout.handler_offset + j] == handlers.code@[j]
            &&& bytes::le64(s, layout.tss_offset + 0x04) == old(context).phys_base(walked)
                + layout.interrupt_stack_offset + 4096
            &&& bytes::le64(s, layout.tss_offset + 0x24) == old(context).phys_base(walked)
                + layout.interrupt_stack_offset + 4096
        }),
{
    let plan = InitPlan {
        total_size: old(context).layout.total_size as int,
        phys_base: old(context).phys_base(walked),
        handler_size: handlers.code@.len() as int,
    };
    initialization_places_the_parts(plan, old(context).layout);
    assert(plan.fits());
    assert(final(context)@.len() == plan.total_size);
    lemma_ready_bytes(
        plan,
        old(context)@,
        final(context)@,
        handlers,
        trampolines,
        old(context).layout,
        j,
    );
}

proof fn lemma_ready_bytes(
    plan: InitPlan,
    before: Seq<u8>,
    s: Seq<u8>,
    handlers: InterruptHandlers,
    trampolines: TrampolineCode,
    layout: UnikraftLayout,
    j: int,
)
    requires
        plan.total_size == before.len() == s.len() == layout.total_size,
        plan.handler_size == handlers.code@.len(),
        plan.phys_base + plan.total_size <= u64::MAX,
        trampolines.k2u@.len() <= 4096,
        trampolines.u2k@.len() <= 4096,
        plan.fits(),
        plan.turns(before, s, handlers, trampolines),
    ensures
        ({
            let after = plan.layout_after(layout);
            &&& 0 <= j < after.user_stack_top ==> s[j] == before[j]
            &&& 0 <= j < trampolines.k2u@.len() ==> s[after.k2u_entry_offset + j]
                == trampolines.k2u@[j]
            &&& 0 <= j < trampolines.u2k@.len() ==> s[after.u2k_entry_offset + j]
                == trampolines.u2k@[j]
            &&& 0 <= j < handlers.code@.len() ==> s[after.handler_offset + j] == handlers.code@[j]
            &&& bytes::le64(s, after.tss_offset + 0x04) == plan.phys_base
                + after.interrupt_stack_offset + 4096
            &&& bytes::le64(s, after.tss_offset + 0x24) == plan.phys_base
                + after.interrupt_stack_offset + 4096
        }),
{
    let after = plan.layout_after(layout);
    initialization_places_the_parts(plan, layout);
    if 0 <= j < after.user_stack_top {
        initialization_spares_the_user(plan, before, s, handlers, trampolines, layout, j);
    }
    if 0 <= j < trampolines.k2u@.len() {
        initialization_spares_the_user(
            plan,
            before,
            s,
            handlers,
            trampolines,
            layout,
            after.k2u_entry_offset + j,
        );
    }
    if 0 <= j < trampolines.u2k@.len() {
        initialization_spares_the_user(
            plan,
            before,
            s,
            handlers,
            trampolines,
            layout,
            after.u2k_entry_offset + j,
        );
    }
    initialized_contexts_hold_their_tables(plan, before, s, handlers, trampolines);
    interrupts::parts_follow_each_other(plan.interrupts());
    interrupts::handlers_stand_where_they_were_put(
        plan.interrupts(),
        s,
        plan.phys_base,
        handlers.code@,
        handlers.offsets@,
        j,
    );
    interrupts::interrupts_enter_at_the_top_of_the_stack(
        plan.interrupts(),
        s,
        plan.phys_base,
        handlers.code@,
        handlers.offsets@,
        after.tss_offset,
        (plan.phys_base + plan.interrupts().top) as u64,
    );
}

} // verus!
