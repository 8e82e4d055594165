//! States of a task. The task is over from `DONE` on.

use vstd::prelude::*;

verus! {

pub const IDLE: u8 = 0;

pub const RUNNING: u8 = 1;

pub const DONE: u8 = 2;

pub const ERROR: u8 = 3;

/// A task is over when it is done or has failed, and only then.
pub proof fn over_from_done_on()
    ensures
        IDLE == 0,
        RUNNING == 1,
        DONE == 2,
        ERROR == 3,
        IDLE < DONE && RUNNING < DONE && DONE <= ERROR,
{
}

} // verus!
