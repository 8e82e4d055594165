//! Segment selectors of the global descriptor table.

use vstd::prelude::*;

verus! {

pub const NULL: u16 = 0x00;

pub const KERNEL_CODE_64: u16 = 0x08;

pub const KERNEL_DATA: u16 = 0x10;

pub const USER_CODE_64: u16 = 0x18;

pub const USER_DATA: u16 = 0x20;

pub const TSS: u16 = 0x28;

/// User code selector with requested privilege level 3.
pub const USER_CODE_64_RPL3: u16 = 0x1B;

/// User data selector with requested privilege level 3.
pub const USER_DATA_RPL3: u16 = 0x23;

/// A selector is the offset of its entry in the table, plus the privilege level
/// that it requests.
pub proof fn selectors_are_offsets()
    ensures
        NULL == 0,
        KERNEL_CODE_64 == 8,
        KERNEL_DATA == KERNEL_CODE_64 + 8,
        USER_CODE_64 == KERNEL_DATA + 8,
        USER_DATA == USER_CODE_64 + 8,
        TSS == USER_DATA + 8,
        USER_CODE_64_RPL3 == USER_CODE_64 + 3,
        USER_DATA_RPL3 == USER_DATA + 3,
{
}

} // verus!
