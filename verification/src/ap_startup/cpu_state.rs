//! States of a processor.

use vstd::prelude::*;

verus! {

pub const OFFLINE: u8 = 0;

pub const INIT: u8 = 1;

pub const IDLE: u8 = 2;

pub const BUSY: u8 = 3;

/// The states of a processor differ.
pub proof fn states_differ()
    ensures
        OFFLINE == 0,
        INIT == 1,
        IDLE == 2,
        BUSY == 3,
{
}

} // verus!
