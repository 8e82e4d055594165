//! Start-up and management of application processors.

pub mod apic;
pub mod cores;
pub mod cpu_state;
pub mod page_walk;
pub mod task_status;

pub use self::apic::{
    deassert_init, delay_ms, delay_us, send_init_ipi, send_startup_ipi, wake_ap, x2apic_enable,
    x2apic_supported,
};
pub use self::cores::{ApTaskInfo, CorePool, CpuData};
pub use self::page_walk::{virt_to_phys, PageWalk, WalkLevel, WalkStep};

use vstd::prelude::*;

verus! {

/// Maximum number of processors.
pub const MAX_CPUS: usize = 64;

/// Size of the per-processor data that the boot trampoline works on.
pub const LCPU_SIZE: usize = 256;

/// Where the boot trampoline is placed in low memory.
pub const DEFAULT_TRAMPOLINE_ADDR: u64 = 0x8000;

/// Start of the direct map: virtual address = base + physical address.
pub const DIRECTMAP_BASE: u64 = 0xffff_ff80_0000_0000;

/// Converts a virtual address of the direct map to the physical address behind it.
pub fn va_to_pa(va: u64, directmap_base: u64) -> (pa: u64)
    ensures
        pa == (va - directmap_base) % 0x1_0000_0000_0000_0000,
{
    va.wrapping_sub(directmap_base)
}

/// Converts a physical address to its virtual address in the direct map.
pub fn pa_to_va(pa: u64, directmap_base: u64) -> (va: u64)
    ensures
        va == (directmap_base + pa) % 0x1_0000_0000_0000_0000,
{
    directmap_base.wrapping_add(pa)
}

/// The two conversions undo each other.
pub proof fn direct_map_is_bijective(pa: u64, va: u64, directmap_base: u64)
    ensures
        ((directmap_base + pa) % 0x1_0000_0000_0000_0000 - directmap_base)
            % 0x1_0000_0000_0000_0000 == pa,
        (directmap_base + (va - directmap_base) % 0x1_0000_0000_0000_0000)
            % 0x1_0000_0000_0000_0000 == va,
{
}

/// What the boot trampoline and the kernel take for granted of sizes and addresses.
pub proof fn addresses_are_those_of_the_kernel()
    ensures
        MAX_CPUS == 64,
        LCPU_SIZE == 256,
        DEFAULT_TRAMPOLINE_ADDR == 0x8000,
        DIRECTMAP_BASE == 0x1_0000_0000_0000_0000 - 0x80_0000_0000,
{
}

/// Converting an address to the direct map and back gives the address.
pub proof fn conversions_undo_each_other(a: u64, directmap_base: u64, va: u64, pa: u64)
    requires
        call_ensures(pa_to_va, (a, directmap_base), va),
        call_ensures(va_to_pa, (a, directmap_base), pa),
    ensures
        forall|back: u64| call_ensures(va_to_pa, (va, directmap_base), back) ==> back == a,
        forall|back: u64| call_ensures(pa_to_va, (pa, directmap_base), back) ==> back == a,
        a + directmap_base <= u64::MAX ==> va == directmap_base + a,
        a >= directmap_base ==> pa == a - directmap_base,
{
}

} // verus!
