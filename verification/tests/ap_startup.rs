use dandelion_unikraft::ap_startup::apic::{
    join_msr, split_msr, ApicAction, ApicEvent, MsrWrite, WakeStep, MSR_APIC_BASE, MSR_APIC_ICR,
    MSR_APIC_SVR,
};
use dandelion_unikraft::ap_startup::{
    cpu_state, deassert_init, delay_ms, delay_us, pa_to_va, send_init_ipi, send_startup_ipi,
    task_status, va_to_pa, wake_ap, x2apic_enable, x2apic_supported, ApTaskInfo, CorePool, CpuData,
    DIRECTMAP_BASE, MAX_CPUS,
};

#[test]
fn direct_map() {
    assert_eq!(pa_to_va(0x1000, DIRECTMAP_BASE), 0xffff_ff80_0000_1000);
    assert_eq!(va_to_pa(0xffff_ff80_0000_1000, DIRECTMAP_BASE), 0x1000);
    assert_eq!(va_to_pa(0, 1), u64::MAX);
    assert_eq!(pa_to_va(u64::MAX, 1), 0);
}

#[test]
fn halves_of_a_register() {
    assert_eq!(split_msr(0x1122_3344_5566_7788), (0x1122_3344, 0x5566_7788));
    assert_eq!(join_msr(0x1122_3344, 0x5566_7788), 0x1122_3344_5566_7788);
}

#[test]
fn feature_bit() {
    assert!(x2apic_supported(1 << 21));
    assert!(!x2apic_supported(!(1 << 21)));
}

#[test]
fn enabling_the_controller() {
    assert!(matches!(
        x2apic_enable(ApicEvent::Start { supported: false }),
        ApicAction::Done(Err("x2APIC not supported"))
    ));
    assert!(matches!(
        x2apic_enable(ApicEvent::Start { supported: true }),
        ApicAction::Read { msr: MSR_APIC_BASE }
    ));
    assert!(matches!(
        x2apic_enable(ApicEvent::BaseRead(0xFEE0_0100)),
        ApicAction::Done(Err("APIC not enabled in firmware"))
    ));
    assert!(matches!(
        x2apic_enable(ApicEvent::BaseRead(0xFEE0_0900)),
        ApicAction::Write(MsrWrite { msr: MSR_APIC_BASE, value: 0xFEE0_0D00 })
    ));
    assert!(matches!(
        x2apic_enable(ApicEvent::BaseWritten),
        ApicAction::Read { msr: MSR_APIC_SVR }
    ));
    assert!(matches!(
        x2apic_enable(ApicEvent::SvrRead(0xFF)),
        ApicAction::Write(MsrWrite { msr: MSR_APIC_SVR, value: 0x1FF })
    ));
    assert!(matches!(x2apic_enable(ApicEvent::SvrRead(0x1FF)), ApicAction::Done(Ok(()))));
    assert!(matches!(x2apic_enable(ApicEvent::SvrWritten), ApicAction::Done(Ok(()))));
}

#[test]
fn interrupt_commands() {
    let write = |value| MsrWrite { msr: MSR_APIC_ICR, value };
    assert_eq!(send_init_ipi(5), write(0x5_0000_C500));
    assert_eq!(deassert_init(5), write(0x5_0000_8500));
    assert_eq!(send_startup_ipi(0xFFFF_FFFF, 0x08), write(0xFFFF_FFFF_0000_0608));
}

#[test]
fn delays() {
    assert_eq!(delay_us(200), 50_000);
    assert_eq!(delay_us(u32::MAX), u32::MAX);
    assert_eq!(delay_ms(10), 2_500_000);
    assert_eq!(delay_ms(5_000_000), u32::MAX);
}

#[test]
fn wake_up_sequence() {
    let steps = wake_ap(3, 8);
    assert_eq!(
        steps,
        vec![
            WakeStep::Write(send_init_ipi(3)),
            WakeStep::Spin(2_500_000),
            WakeStep::Write(deassert_init(3)),
            WakeStep::Spin(50_000),
            WakeStep::Write(send_startup_ipi(3, 8)),
            WakeStep::Spin(50_000),
            WakeStep::Write(send_startup_ipi(3, 8)),
        ]
    );
}

#[test]
fn new_cpu_data() {
    let data = CpuData::new();
    assert_eq!(data, CpuData::default());
    assert_eq!((data.idx, data.id, data.state), (0, 0, cpu_state::OFFLINE));
    assert_eq!((data.entry, data.stackp, data.task_info_ptr), (0, 0, 0));
}

#[test]
fn task_is_set_up_and_waited_for() {
    let mut info = ApTaskInfo::new();
    assert_eq!(info, ApTaskInfo::default());
    info.write_status(task_status::ERROR);
    info.setup_task(1, 2, 3, 4, 5, 6, 7, 8, 9, 10, 11);
    assert_eq!(info.read_status(), task_status::IDLE);
    assert_eq!((info.entry_point, info.user_cr3, info.kernel_cr3), (1, 2, 3));
    assert_eq!((info.k2u_trampoline, info.u2k_trampoline), (4, 5));
    assert_eq!((info.gdt_base, info.gdt_limit, info.idt_base, info.idt_limit), (6, 7, 8, 9));
    assert_eq!((info.tss_base, info.tss_selector), (10, 11));
    assert_eq!(info.wait_for_completion(), None);
    info.write_status(task_status::RUNNING);
    assert_eq!(info.wait_for_completion(), None);
    info.write_status(task_status::DONE);
    assert_eq!(info.wait_for_completion(), Some(task_status::DONE));
    info.write_status(task_status::ERROR);
    assert_eq!(info.wait_for_completion(), Some(task_status::ERROR));
    assert_eq!(info.entry_point, 1);
}

#[test]
fn cores_are_handed_out_once() {
    let mut pool = CorePool::new();
    assert_eq!(pool.acquire_core(), None);
    pool.bring_core_online(0);
    assert_eq!(pool.acquire_core(), None);
    pool.bring_core_online(5);
    pool.bring_core_online(2);
    assert_eq!(pool.online_count(), 3);
    assert_eq!(pool.acquire_core(), Some(2));
    assert_eq!(pool.acquire_core(), Some(5));
    assert_eq!(pool.acquire_core(), None);
    pool.release_core(5);
    assert_eq!(pool.acquire_core(), Some(5));
    assert_eq!(pool.online_count(), 3);
}

#[test]
fn cores_beyond_the_limit_are_ignored() {
    let mut pool = CorePool::default();
    pool.bring_core_online(MAX_CPUS);
    pool.release_core(MAX_CPUS);
    assert_eq!(pool.online_count(), 0);
    assert_eq!(pool.acquire_core(), None);
    pool.bring_core_online(MAX_CPUS - 1);
    assert_eq!(pool.acquire_core(), Some(MAX_CPUS - 1));
}

#[test]
fn a_core_is_counted_once() {
    let mut pool = CorePool::new();
    pool.bring_core_online(3);
    pool.bring_core_online(3);
    assert_eq!(pool.online_count(), 1);
    // Neither is a busy one.
    assert_eq!(pool.acquire_core(), Some(3));
    pool.bring_core_online(3);
    assert_eq!(pool.online_count(), 1);
    assert_eq!(pool.acquire_core(), Some(3));
    for core in 0..MAX_CPUS {
        for _ in 0..5 {
            pool.bring_core_online(core);
        }
    }
    assert_eq!(pool.online_count(), 64);
}

#[test]
fn an_offline_core_that_is_put_back_is_online() {
    let mut pool = CorePool::new();
    pool.release_core(4);
    assert_eq!(pool.online_count(), 1);
    assert_eq!(pool.acquire_core(), Some(4));
    pool.release_core(4);
    pool.bring_core_online(4);
    assert_eq!(pool.online_count(), 1);
    assert_eq!(pool.acquire_core(), Some(4));
    assert_eq!(pool.acquire_core(), None);
}

#[test]
fn busy_cores_stay_busy() {
    let mut pool = CorePool::new();
    for core in 1..5 {
        pool.bring_core_online(core);
    }
    assert_eq!(pool.acquire_core(), Some(1));
    assert_eq!(pool.acquire_core(), Some(2));
    pool.release_core(1);
    assert_eq!(pool.acquire_core(), Some(1));
    pool.bring_core_online(7);
    assert_eq!(pool.acquire_core(), Some(3));
    assert_eq!(pool.acquire_core(), Some(4));
    assert_eq!(pool.acquire_core(), Some(7));
    assert_eq!(pool.acquire_core(), None);
    assert_eq!(pool.online_count(), 5);
}
