//! What has to be read from and written to the interrupt controller.
//!
//! Nothing here touches the hardware: the functions say which model-specific
//! registers to read and write, and the caller does it.

use vstd::prelude::*;

verus! {

/// Register that holds the base and the mode of the controller.
pub const MSR_APIC_BASE: u32 = 0x1b;

/// Spurious interrupt vector register.
pub const MSR_APIC_SVR: u32 = 0x80f;

/// Interrupt command register.
pub const MSR_APIC_ICR: u32 = 0x830;

/// The controller is enabled.
const BASE_EN: u64 = 0x800;

/// The controller is in x2APIC mode.
const BASE_EXTD: u64 = 0x400;

/// The controller is enabled by software.
const SVR_EN: u64 = 0x100;

const ICR_TRIGGER_LEVEL: u64 = 0x8000;

const ICR_LEVEL_ASSERT: u64 = 0x4000;

const ICR_DESTMODE_PHYSICAL: u64 = 0;

const ICR_DMODE_INIT: u64 = 0x500;

const ICR_DMODE_SIPI: u64 = 0x600;

/// A value to write to a model-specific register.
#[derive(Debug, Clone, Copy, PartialEq, Eq, Structural)]
pub struct MsrWrite {
    pub msr: u32,
    pub value: u64,
}

/// The value of a register, from the halves in which it is read.
pub fn join_msr(high: u32, low: u32) -> (value: u64)
    ensures
        value == high * 0x1_0000_0000 + low,
{
    assert(((high as u64) << 32) | (low as u64) == (high as u64) * 0x1_0000_0000 + (low as u64))
        by (bit_vector);
    ((high as u64) << 32) | (low as u64)
}

/// The high and the low half in which a register is written.
pub fn split_msr(value: u64) -> (halves: (u32, u32))
    ensures
        halves.0 == value / 0x1_0000_0000,
        halves.1 == value % 0x1_0000_0000,
{
    ((value / 0x1_0000_0000) as u32, (value % 0x1_0000_0000) as u32)
}

/// Joining the halves of a value gives the value back.
pub proof fn joined_halves(value: u64, high: u32, low: u32)
    requires
        high == value / 0x1_0000_0000,
        low == value % 0x1_0000_0000,
    ensures
        high * 0x1_0000_0000 + low == value,
{
}

/// Whether the processor has an x2APIC, from the feature bits in `ecx` of CPUID leaf 1.
pub fn x2apic_supported(ecx: u32) -> (supported: bool)
    ensures
        supported == ((ecx / 0x20_0000) % 2 == 1),
{
    assert((ecx & 0x20_0000 != 0) == ((ecx / 0x20_0000) % 2 == 1)) by (bit_vector);
    (ecx & 0x20_0000) != 0
}

/// What has happened while x2APIC mode is being enabled.
#[derive(Debug, Clone, Copy)]
pub enum ApicEvent {
    /// Enabling begins; `supported` tells whether the processor has an x2APIC.
    Start { supported: bool },
    /// The base register was read.
    BaseRead(u64),
    /// The base register was written.
    BaseWritten,
    /// The spurious interrupt vector register was read.
    SvrRead(u64),
    /// The spurious interrupt vector register was written.
    SvrWritten,
}

/// What to do next to enable x2APIC mode.
#[derive(Debug, Clone, Copy)]
pub enum ApicAction {
    Read { msr: u32 },
    Write(MsrWrite),
    Done(Result<(), &'static str>),
}

/// Decides the next step of enabling x2APIC mode.
///
/// The mode is set in the base register where the firmware has enabled the
/// controller; then the software enable bit is set, unless it is set already.
pub fn x2apic_enable(event: ApicEvent) -> (action: ApicAction)
    ensures
        match event {
            ApicEvent::Start { supported } => if supported {
                action == (ApicAction::Read { msr: MSR_APIC_BASE })
            } else {
                action matches ApicAction::Done(Err(message)) && message@
                    == "x2APIC not supported"@
            },
            ApicEvent::BaseRead(base) => if (base / 0x800) % 2 == 1 {
                action == ApicAction::Write(
                    MsrWrite { msr: MSR_APIC_BASE, value: base | 0x400 },
                )
            } else {
                action matches ApicAction::Done(Err(message)) && message@
                    == "APIC not enabled in firmware"@
            },
            ApicEvent::BaseWritten => action == (ApicAction::Read { msr: MSR_APIC_SVR }),
            ApicEvent::SvrRead(svr) => if (svr / 0x100) % 2 == 1 {
                action == ApicAction::Done(Ok(()))
            } else {
                action == ApicAction::Write(MsrWrite { msr: MSR_APIC_SVR, value: svr | 0x100 })
            },
            ApicEvent::SvrWritten => action == ApicAction::Done(Ok(())),
        },
{
    match event {
        ApicEvent::Start { supported } => {
            if !supported {
                return ApicAction::Done(Err("x2APIC not supported"));
            }
            ApicAction::Read { msr: MSR_APIC_BASE }
        },
        ApicEvent::BaseRead(base) => {
            assert((base & 0x800 == 0) == ((base / 0x800) % 2 == 0)) by (bit_vector);
            if (base & BASE_EN) == 0 {
                return ApicAction::Done(Err("APIC not enabled in firmware"));
            }
            ApicAction::Write(MsrWrite { msr: MSR_APIC_BASE, value: base | BASE_EXTD })
        },
        ApicEvent::BaseWritten => ApicAction::Read { msr: MSR_APIC_SVR },
        ApicEvent::SvrRead(svr) => {
            assert((svr & 0x100 == 0) == ((svr / 0x100) % 2 == 0)) by (bit_vector);
            if (svr & SVR_EN) == 0 {
                ApicAction::Write(MsrWrite { msr: MSR_APIC_SVR, value: svr | SVR_EN })
            } else {
                ApicAction::Done(Ok(()))
            }
        },
        ApicEvent::SvrWritten => ApicAction::Done(Ok(())),
    }
}

/// An interrupt command for a processor, in the form of the command register.
pub open spec fn command(dest_apic_id: u32, icr: int) -> MsrWrite {
    MsrWrite { msr: MSR_APIC_ICR, value: (dest_apic_id * 0x1_0000_0000 + icr) as u64 }
}

/// The command that resets a processor.
pub fn send_init_ipi(dest_apic_id: u32) -> (write: MsrWrite)
    ensures
        write == command(dest_apic_id, 0xC500),
{
    let icr: u64 = ICR_TRIGGER_LEVEL | ICR_LEVEL_ASSERT | ICR_DESTMODE_PHYSICAL | ICR_DMODE_INIT;
    assert(0x8000u64 | 0x4000 | 0 | 0x500 == 0xC500) by (bit_vector);
    interrupt_command(dest_apic_id, icr)
}

/// The command that ends the reset of a processor.
pub fn deassert_init(dest_apic_id: u32) -> (write: MsrWrite)
    ensures
        write == command(dest_apic_id, 0x8500),
{
    let icr: u64 = ICR_TRIGGER_LEVEL | ICR_DESTMODE_PHYSICAL | ICR_DMODE_INIT;
    assert(0x8000u64 | 0 | 0x500 == 0x8500) by (bit_vector);
    interrupt_command(dest_apic_id, icr)
}

/// The command that starts a processor at the page `vector`.
pub fn send_startup_ipi(dest_apic_id: u32, vector: u8) -> (write: MsrWrite)
    ensures
        write == command(dest_apic_id, 0x600 + vector),
{
    let icr: u64 = ICR_DESTMODE_PHYSICAL | ICR_DMODE_SIPI | (vector as u64);
    assert(0u64 | 0x600 | (vector as u64) == 0x600 + vector) by (bit_vector);
    interrupt_command(dest_apic_id, icr)
}

/// Addresses a command to a processor.
fn interrupt_command(dest_apic_id: u32, icr: u64) -> (write: MsrWrite)
    requires
        icr < 0x1_0000_0000,
    ensures
        write == command(dest_apic_id, icr as int),
{
    assert(((dest_apic_id as u64) << 32) | icr == (dest_apic_id as u64) * 0x1_0000_0000 + icr)
        by (bit_vector)
        requires
            icr < 0x1_0000_0000,
    ;
    MsrWrite { msr: MSR_APIC_ICR, value: ((dest_apic_id as u64) << 32) | icr }
}

/// `a * b`, at most the largest 32-bit number.
pub open spec fn saturating_product(a: int, b: int) -> int {
    if a * b > u32::MAX {
        u32::MAX as int
    } else {
        a * b
    }
}

/// Number of turns of an empty loop that take about `us` microseconds.
pub fn delay_us(us: u32) -> (iterations: u32)
    ensures
        iterations == saturating_product(us as int, 250),
{
    match us.checked_mul(250) {
        Some(iterations) => iterations,
        None => u32::MAX,
    }
}

/// Number of turns of an empty loop that take about `ms` milliseconds.
pub fn delay_ms(ms: u32) -> (iterations: u32)
    ensures
        iterations == saturating_product(saturating_product(ms as int, 1000), 250),
{
    let us: u32 = match ms.checked_mul(1000) {
        Some(us) => us,
        None => u32::MAX,
    };
    delay_us(us)
}

/// A step of waking a processor.
#[derive(Debug, Clone, Copy, PartialEq, Eq, Structural)]
pub enum WakeStep {
    /// Write to a register.
    Write(MsrWrite),
    /// Turn an empty loop that many times.
    Spin(u32),
}

/// The steps that wake a processor: reset, wait 10 ms, end the reset, and
/// start it twice, 200 microseconds apart.
pub fn wake_ap(apic_id: u32, sipi_vector: u8) -> (steps: Vec<WakeStep>)
    ensures
        steps@ == seq![
            WakeStep::Write(command(apic_id, 0xC500)),
            WakeStep::Spin(2_500_000),
            WakeStep::Write(command(apic_id, 0x8500)),
            WakeStep::Spin(50_000),
            WakeStep::Write(command(apic_id, 0x600 + sipi_vector)),
            WakeStep::Spin(50_000),
            WakeStep::Write(command(apic_id, 0x600 + sipi_vector)),
        ],
{
    let mut steps: Vec<WakeStep> = Vec::new();
    steps.push(WakeStep::Write(send_init_ipi(apic_id)));
    steps.push(WakeStep::Spin(delay_ms(10)));
    steps.push(WakeStep::Write(deassert_init(apic_id)));
    steps.push(WakeStep::Spin(delay_us(200)));
    steps.push(WakeStep::Write(send_startup_ipi(apic_id, sipi_vector)));
    steps.push(WakeStep::Spin(delay_us(200)));
    steps.push(WakeStep::Write(send_startup_ipi(apic_id, sipi_vector)));
    steps
}

/// A command names its processor in the high half of the command register and
/// the command in the low half.
pub proof fn commands_name_their_processor(dest_apic_id: u32, icr: int)
    requires
        0 <= icr < 0x1_0000_0000,
    ensures
        command(dest_apic_id, icr).msr == 0x830,
        command(dest_apic_id, icr).value as int / 0x1_0000_0000 == dest_apic_id,
        command(dest_apic_id, icr).value as int % 0x1_0000_0000 == icr,
{
}

/// A waiting time is the product while that fits into 32 bits, else the largest
/// number that does.
pub proof fn waiting_times_saturate(a: int, b: int)
    requires
        a >= 0,
        b >= 0,
    ensures
        saturating_product(a, b) <= 0xFFFF_FFFF,
        a * b <= 0xFFFF_FFFF ==> saturating_product(a, b) == a * b,
        a * b > 0xFFFF_FFFF ==> saturating_product(a, b) == 0xFFFF_FFFF,
{
}

/// The registers are those of the x2APIC.
pub proof fn registers_are_those_of_the_controller()
    ensures
        MSR_APIC_BASE == 0x1b,
        MSR_APIC_SVR == 0x80f,
        MSR_APIC_ICR == 0x830,
{
}

/// Splitting a value and joining the halves gives the value back.
pub proof fn join_undoes_split(value: u64, halves: (u32, u32), joined: u64)
    requires
        call_ensures(split_msr, (value,), halves),
        call_ensures(join_msr, (halves.0, halves.1), joined),
    ensures
        joined == value,
{
}

/// What enabling the controller does: it fails at once where the processor has
/// none or the firmware has not enabled it. Else it sets the mode in the base
/// register, keeping its other bits, and then the software enable bit in the
/// vector register, keeping its other bits, if that is clear; then it is done.
pub proof fn enabling_sets_both_bits(
    supported: bool,
    base: u64,
    svr: u64,
    started: ApicAction,
    base_read: ApicAction,
    base_written: ApicAction,
    svr_read: ApicAction,
    svr_written: ApicAction,
)
    requires
        call_ensures(x2apic_enable, (ApicEvent::Start { supported },), started),
        call_ensures(x2apic_enable, (ApicEvent::BaseRead(base),), base_read),
        call_ensures(x2apic_enable, (ApicEvent::BaseWritten,), base_written),
        call_ensures(x2apic_enable, (ApicEvent::SvrRead(svr),), svr_read),
        call_ensures(x2apic_enable, (ApicEvent::SvrWritten,), svr_written),
    ensures
        supported ==> started == (ApicAction::Read { msr: 0x1b }),
        !supported ==> (started matches ApicAction::Done(Err(message)) && message@
            == "x2APIC not supported"@),
        base / 0x800 % 2 == 1 ==> (base_read matches ApicAction::Write(write) && write.msr == 0x1b
            && write.value == base | 0x400),
        base / 0x800 % 2 == 0 ==> (base_read matches ApicAction::Done(Err(message)) && message@
            == "APIC not enabled in firmware"@),
        base_written == (ApicAction::Read { msr: 0x80f }),
        svr / 0x100 % 2 == 0 ==> (svr_read matches ApicAction::Write(write) && write.msr == 0x80f
            && write.value == svr | 0x100),
        svr / 0x100 % 2 == 1 ==> svr_read is Done && svr_read->Done_0 is Ok,
        svr_written is Done && svr_written->Done_0 is Ok,
{
}

/// The feature bit of the controller is bit 21.
pub proof fn feature_bit_is_the_twenty_first(ecx: u32, supported: bool)
    requires
        call_ensures(x2apic_supported, (ecx,), supported),
    ensures
        supported == (ecx as int / 0x20_0000 % 2 == 1),
{
}

/// Each command goes to the command register, for the processor in its high half.
/// Reset and its end differ in the assertion bit; the start carries its page.
pub proof fn commands_go_to_their_processor(
    dest_apic_id: u32,
    vector: u8,
    init: MsrWrite,
    deassert: MsrWrite,
    startup: MsrWrite,
)
    requires
        call_ensures(send_init_ipi, (dest_apic_id,), init),
        call_ensures(deassert_init, (dest_apic_id,), deassert),
        call_ensures(send_startup_ipi, (dest_apic_id, vector), startup),
    ensures
        init.msr == 0x830 && deassert.msr == 0x830 && startup.msr == 0x830,
        init.value == dest_apic_id * 0x1_0000_0000 + 0x8000 + 0x4000 + 0x500,
        deassert.value == init.value - 0x4000,
        startup.value == dest_apic_id * 0x1_0000_0000 + 0x600 + vector,
{
    commands_name_their_processor(dest_apic_id, 0xC500);
    commands_name_their_processor(dest_apic_id, 0x8500);
    commands_name_their_processor(dest_apic_id, 0x600 + vector);
}

/// A millisecond is a thousand microseconds, of 250 turns each, as far as the
/// turns fit into 32 bits.
pub proof fn waiting_times_are_in_proportion(time: u32, us: u32, ms: u32)
    requires
        call_ensures(delay_us, (time,), us),
        call_ensures(delay_ms, (time,), ms),
    ensures
        time * 250 <= 0xFFFF_FFFF ==> us == time * 250,
        time * 250 > 0xFFFF_FFFF ==> us == 0xFFFF_FFFF,
        time * 250_000 <= 0xFFFF_FFFF ==> ms == time * 250_000,
        time * 250_000 > 0xFFFF_FFFF ==> ms == 0xFFFF_FFFF,
{
}

/// A processor is woken by its reset, a wait of 10 ms, the end of the reset, and
/// two starts at its page, each after a wait of 200 microseconds.
pub proof fn processors_are_reset_and_started_twice(
    apic_id: u32,
    sipi_vector: u8,
    steps: Vec<WakeStep>,
    init: MsrWrite,
    deassert: MsrWrite,
    startup: MsrWrite,
    long: u32,
    short: u32,
)
    requires
        call_ensures(wake_ap, (apic_id, sipi_vector), steps),
        call_ensures(send_init_ipi, (apic_id,), init),
        call_ensures(deassert_init, (apic_id,), deassert),
        call_ensures(send_startup_ipi, (apic_id, sipi_vector), startup),
        call_ensures(delay_ms, (10,), long),
        call_ensures(delay_us, (200,), short),
    ensures
        steps@.len() == 7,
        steps@[0] == WakeStep::Write(init),
        steps@[1] == WakeStep::Spin(long),
        steps@[2] == WakeStep::Write(deassert),
        steps@[3] == WakeStep::Spin(short),
        steps@[4] == WakeStep::Write(startup),
        steps@[5] == WakeStep::Spin(short),
        steps@[6] == WakeStep::Write(startup),
{
}

} // verus!
