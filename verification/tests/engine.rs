use dandelion_unikraft::ap_startup::{virt_to_phys, WalkStep};
use dandelion_unikraft::engine::driver::{
    ComputeResource, ElfConfig, FunctionConfig, ParsedElf, Position,
};
use dandelion_unikraft::engine::engine_loop::{
    ContextKind, InterruptHandlers, RunAction, RunEvent, TrampolineCode,
};
use dandelion_unikraft::engine::{UnikraftDriver, UnikraftLoop};
use dandelion_unikraft::errors::{DandelionError, RunError};
use dandelion_unikraft::memory_domain::{UnikraftContext, UnikraftLayout};

fn handlers() -> InterruptHandlers {
    InterruptHandlers { code: vec![0xCC; 33 * 16], offsets: (0..33).map(|v| v * 16).collect() }
}

fn trampolines() -> TrampolineCode {
    TrampolineCode { k2u: vec![0x11; 4096], u2k: vec![0x22; 3] }
}

fn context(size: usize) -> UnikraftContext {
    let layout = UnikraftLayout::calculate(size).unwrap();
    let mut context = UnikraftContext::new(layout, vec![0u8; size + 4095], 0);
    context.set_phys_base(0x40_0000);
    context
}

#[test]
fn initialization_sets_up_the_context() {
    let engine = UnikraftLoop::init(3).unwrap();
    assert_eq!(engine.cpu_slot, 3);
    for size in [0x20_0000usize, 0x400_0000] {
        let mut context = context(size);
        let before = context.layout;
        let result = engine.initialize_context(&mut context, None, &handlers(), &trampolines());
        assert_eq!(result, Ok(()));
        assert!(context.initialized);
        let tables = size - 3 * 4096;
        let layout = context.layout;
        assert_eq!(layout.total_size, size);
        assert_eq!(layout.page_table_offset, tables);
        // Four of the pages reserved for tables are left.
        assert_eq!(tables, before.page_table_offset + 4 * 4096);
        assert_eq!(layout.pml4_phys, 0x40_0000 + size as u64 - 4096);
        assert_eq!(layout.interrupt_stack_offset, tables - 0x1000);
        assert_eq!(layout.handler_offset, tables - 0x2000);
        assert_eq!(layout.gdt_offset, tables - 0x2000 - 696);
        assert_eq!(layout.tss_offset, tables - 0x2000 - 632);
        assert_eq!(layout.idt_offset, tables - 0x2000 - 528);
        let trampoline = tables - 0x4000 - 696;
        assert_eq!(layout.trampoline_offset, trampoline);
        assert_eq!(layout.k2u_entry_offset, trampoline);
        assert_eq!(layout.u2k_entry_offset, trampoline + 0x1000);
        assert_eq!(layout.user_stack_top, trampoline);
        let bytes = context.as_slice();
        assert_eq!(bytes[size - 4096], 0x07);
        assert!(bytes[tables - 0x1000..tables].iter().all(|b| *b == 0));
        assert_eq!(bytes[tables - 0x2000], 0xCC);
        assert_eq!(bytes[layout.gdt_offset + 8..layout.gdt_offset + 10], [0xFF, 0xFF]);
        assert!(bytes[trampoline..trampoline + 4096].iter().all(|b| *b == 0x11));
        assert_eq!(bytes[trampoline + 4096..trampoline + 4100], [0x22, 0x22, 0x22, 0]);
        assert!(bytes[..trampoline].iter().all(|b| *b == 0));
    }
}

#[test]
fn initialization_without_room_for_the_trampolines() {
    let engine = UnikraftLoop::init(0).unwrap();
    let size = 5 * 4096 + 696 + 8191;
    let mut layout = UnikraftLayout::default();
    layout.total_size = size;
    let mut context = UnikraftContext::new(layout, vec![0x5A; size + 4095], 0);
    context.set_phys_base(0);
    let result = engine.initialize_context(&mut context, None, &handlers(), &trampolines());
    assert_eq!(result, Err(DandelionError::MemoryAllocationError));
    assert!(!context.initialized);
    assert_eq!(context.layout.gdt_offset, 8191);
    assert_eq!(context.layout.interrupt_stack_offset, 8191 + 696 + 4096);
    assert_eq!(context.layout.trampoline_offset, 0);
    assert!(context.as_slice()[..8191].iter().all(|b| *b == 0x5A));
    // One byte more is enough.
    layout.total_size = size + 1;
    let mut context = UnikraftContext::new(layout, vec![0x5A; size + 4096], 0);
    context.set_phys_base(0);
    let result = engine.initialize_context(&mut context, None, &handlers(), &trampolines());
    assert_eq!(result, Ok(()));
    assert!(context.initialized);
    assert_eq!(context.layout.trampoline_offset, 0);
    assert_eq!(context.as_slice()[4096..4100], [0x22, 0x22, 0x22, 0x5A]);
}

#[test]
fn initialized_tables_map_the_context() {
    let engine = UnikraftLoop::init(0).unwrap();
    let mut context = context(0x60_0000);
    let result = engine.initialize_context(&mut context, None, &handlers(), &trampolines());
    assert_eq!(result, Ok(()));
    let translate = |va: u64| -> Option<u64> {
        let mut step = virt_to_phys(va, 0, context.layout.pml4_phys);
        loop {
            match step {
                WalkStep::Done(result) => return result,
                WalkStep::Read { walk, entry_addr } => {
                    let at = (entry_addr - 0x40_0000) as usize;
                    let mut entry = [0u8; 8];
                    entry.copy_from_slice(&context.as_slice()[at..at + 8]);
                    step = walk.resume(u64::from_le_bytes(entry));
                }
            }
        }
    };
    assert_eq!(translate(0), Some(0x40_0000));
    assert_eq!(translate(0x5F_FFFF), Some(0x9F_FFFF));
    assert_eq!(translate(0x60_0000), None);
    let layout = context.layout;
    assert_eq!(layout.gdt_offset + 64, layout.tss_offset);
    assert_eq!(layout.tss_offset + 104, layout.idt_offset);
    assert_eq!(layout.idt_offset + 528, layout.handler_offset);
    assert!(layout.handler_offset + 33 * 16 <= layout.interrupt_stack_offset);
    assert_eq!(layout.interrupt_stack_offset + 4096, layout.page_table_offset);
    assert!(layout.u2k_entry_offset + 4096 <= layout.gdt_offset);
}

#[test]
fn initialization_without_room_for_the_handlers() {
    let engine = UnikraftLoop::init(0).unwrap();
    let mut context = context(0x20_0000);
    let before = context.layout;
    let huge = InterruptHandlers { code: vec![1; 0x20_0000], offsets: vec![0; 33] };
    let result = engine.initialize_context(&mut context, None, &huge, &trampolines());
    assert_eq!(result, Err(DandelionError::MemoryAllocationError));
    assert_eq!(context.layout.page_table_offset, 0x20_0000 - 3 * 4096);
    assert_eq!(context.layout.handler_offset, before.handler_offset);
    assert_eq!(context.layout.gdt_offset, before.gdt_offset);
}

#[test]
fn trampoline_patches() {
    let engine = UnikraftLoop::init(1).unwrap();
    let mut context = context(0x20_0000);
    context.layout.pml4_phys = 0x77000;
    let layout = context.layout;
    let patches = engine.execute_user_code(&context, 0x1234, None, 0x5000);
    assert_eq!(patches.user_cr3, 0x77000);
    assert_eq!(patches.kernel_cr3, 0x5000);
    assert_eq!(patches.gdt_base, 0x40_0000 + layout.gdt_offset as u64);
    assert_eq!(patches.gdt_limit, 63);
    assert_eq!(patches.idt_base, 0x40_0000 + layout.idt_offset as u64);
    assert_eq!(patches.idt_limit, 527);
    assert_eq!(patches.tss_selector, 0x28);
    assert_eq!(patches.user_stack_top, 0x40_0000 + layout.user_stack_top as u64);
    assert_eq!(patches.user_entry_point, 0x1234);
    assert_eq!(patches.k2u_entry_offset, layout.k2u_entry_offset);
    assert_eq!(patches.u2k_entry_offset, layout.u2k_entry_offset);
    assert_eq!(patches.handler_offset, layout.handler_offset);
    assert_eq!(patches.u2k_va, 0x40_0000 + layout.u2k_entry_offset as u64);
}

#[test]
fn run_of_a_function() {
    let engine = UnikraftLoop::init(1).unwrap();
    let config = FunctionConfig::ElfConfig(ElfConfig {
        system_data_offset: 64,
        entry_point: 4096,
        protection_flags: (),
    });
    let plan = engine.run(&config).unwrap();
    assert_eq!(plan.system_data_offset, 64);
    let next = |event: RunEvent<&'static str>| plan.next(event);
    let fresh = RunEvent::InputsReady(ContextKind::Unikraft { initialized: false });
    assert_eq!(next(fresh), RunAction::Initialize { entry_point: 4096 });
    let ready = RunEvent::InputsReady(ContextKind::Unikraft { initialized: true });
    assert_eq!(next(ready), RunAction::Execute { entry_point: 4096 });
    assert_eq!(next(RunEvent::Initialized), RunAction::Execute { entry_point: 4096 });
    assert_eq!(next(RunEvent::Executed), RunAction::ReadOutputs { system_data_offset: 64 });
    assert_eq!(next(RunEvent::OutputsRead), RunAction::Finish);
    assert_eq!(
        next(RunEvent::InputsReady(ContextKind::Other)),
        RunAction::Fail(RunError::Engine(DandelionError::ContextMissmatch))
    );
    // Errors are handed on, whoever raised them.
    assert_eq!(
        next(RunEvent::Failed(RunError::Engine(DandelionError::MemoryAllocationError))),
        RunAction::Fail(RunError::Engine(DandelionError::MemoryAllocationError))
    );
    assert_eq!(
        next(RunEvent::Failed(RunError::Interface("no such set"))),
        RunAction::Fail(RunError::Interface("no such set"))
    );
    let other: FunctionConfig<()> = FunctionConfig::Other;
    assert_eq!(engine.run(&other), Err(DandelionError::ConfigMissmatch));
}

#[test]
fn engines_start_on_processors() {
    let driver = UnikraftDriver::new();
    assert_eq!(driver, UnikraftDriver::default());
    assert_eq!(driver.start_engine(ComputeResource::CPU(7)), Ok(7));
    assert_eq!(
        driver.start_engine(ComputeResource::Other),
        Err(DandelionError::EngineResourceError)
    );
}

#[test]
fn segments_are_stored_one_after_the_other() {
    let binary: Vec<u8> = (0..20).collect();
    let elf = ParsedElf {
        system_data: Ok::<usize, &str>(5),
        entry_point: 6,
        protection_flags: "rx",
        static_requirements: vec![Position { offset: 100, size: 3 }],
        source_layout: vec![
            Position { offset: 10, size: 3 },
            Position { offset: 0, size: 0 },
            Position { offset: 2, size: 4 },
        ],
    };
    let function = UnikraftDriver::new().parse_function(&binary, Ok(elf)).unwrap();
    assert_eq!(function.context.bytes, vec![10, 11, 12, 2, 3, 4, 5]);
    let set = function.context.content[0].as_ref().unwrap();
    assert_eq!(function.context.content.len(), 1);
    assert_eq!(set.ident, "static");
    let places: Vec<Position> = set.buffers.iter().map(|item| item.data).collect();
    assert_eq!(
        places,
        vec![
            Position { offset: 0, size: 3 },
            Position { offset: 3, size: 0 },
            Position { offset: 3, size: 4 },
        ]
    );
    assert!(set.buffers.iter().all(|item| item.ident == "" && item.key == 0));
    assert!(function.requirements.input_requirements.is_empty());
    assert_eq!(
        function.requirements.static_requirements,
        vec![Position { offset: 100, size: 3 }]
    );
    match function.config {
        FunctionConfig::ElfConfig(config) => {
            assert_eq!((config.system_data_offset, config.entry_point), (5, 6));
            assert_eq!(config.protection_flags, "rx");
        }
        FunctionConfig::Other => panic!("not an ELF configuration"),
    }
}

#[test]
fn errors_of_the_parser_are_handed_on() {
    let driver = UnikraftDriver::new();
    let unparsed: Result<ParsedElf<(), &str>, &str> = Err("no ELF file");
    assert_eq!(driver.parse_function(&[1, 2, 3], unparsed).err(), Some("no ELF file"));
    // Where the system data was not found, the segments are not looked at.
    let elf = ParsedElf {
        system_data: Err("no such symbol"),
        entry_point: 0,
        protection_flags: (),
        static_requirements: vec![],
        source_layout: vec![Position { offset: 2, size: 9 }],
    };
    assert_eq!(driver.parse_function(&[1, 2, 3], Ok(elf)).err(), Some("no such symbol"));
}

#[test]
fn initialization_stays_in_the_context() {
    let engine = UnikraftLoop::init(0).unwrap();
    let size = 0x20_0000;
    let layout = UnikraftLayout::calculate(size).unwrap();
    let mut context = UnikraftContext::new(layout, vec![0x5A; size + 4095], 0x1800);
    context.set_phys_base(0x40_0000);
    assert_eq!(context.start, 0x800);
    let result = engine.initialize_context(&mut context, None, &handlers(), &trampolines());
    assert_eq!(result, Ok(()));
    assert_eq!(context.storage.len(), size + 4095);
    assert!(context.storage[..0x800].iter().all(|b| *b == 0x5A));
    assert!(context.storage[0x800 + size..].iter().all(|b| *b == 0x5A));
    assert_eq!((context.start, context.storage_addr), (0x800, 0x2000));
    assert_eq!(context.get_phys_base(None), 0x40_0000);
}
