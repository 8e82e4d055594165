//! The points of an execution that are recorded.

use vstd::prelude::*;

verus! {

/// The number of the last record point.
pub const LAST_RECORD_POINT: usize = 17;

/// Number of record points.
pub const RECORD_POINT_COUNT: usize = 18;

/// A point in the execution of a function.
#[derive(Clone, Copy, Debug, PartialEq, Eq, Structural)]
pub enum RecordPoint {
    /// Queued to have the function code and its context loaded.
    PrepareEnvQueue,
    /// Parsing is queued.
    ParsingQueue,
    /// Parsing starts.
    ParsingStart,
    /// Parsing has ended.
    ParsingEnd,
    /// Parsing has left the queue.
    ParsingDequeue,
    /// Loading of the code and allocation of the context start.
    LoadStart,
    /// Transfer of data into the context starts.
    TransferStart,
    /// Queued for an engine.
    GetEngineQueue,
    /// Queued for execution on the engine.
    ExecutionQueue,
    /// The engine starts on the function.
    EngineStart,
    /// The memory of the virtual machine is attached.
    BufferAllocationComplete,
    /// The code pages are mapped.
    UserCodeMappingComplete,
    /// The stack pages are mapped.
    UserStackMappingComplete,
    /// The interrupt table and the handlers are installed.
    InterruptSetupComplete,
    /// Set-up has ended, the function itself starts.
    EngineSetupEnd,
    /// The function itself has ended, clean-up starts.
    EngineExecEnd,
    /// The engine is done with the function.
    EngineEnd,
    /// The execution engine has returned.
    FutureReturn,
}

impl RecordPoint {
    /// The number of the point, in the order of execution.
    pub open spec fn number(self) -> int {
        match self {
            RecordPoint::PrepareEnvQueue => 0,
            RecordPoint::ParsingQueue => 1,
            RecordPoint::ParsingStart => 2,
            RecordPoint::ParsingEnd => 3,
            RecordPoint::ParsingDequeue => 4,
            RecordPoint::LoadStart => 5,
            RecordPoint::TransferStart => 6,
            RecordPoint::GetEngineQueue => 7,
            RecordPoint::ExecutionQueue => 8,
            RecordPoint::EngineStart => 9,
            RecordPoint::BufferAllocationComplete => 10,
            RecordPoint::UserCodeMappingComplete => 11,
            RecordPoint::UserStackMappingComplete => 12,
            RecordPoint::InterruptSetupComplete => 13,
            RecordPoint::EngineSetupEnd => 14,
            RecordPoint::EngineExecEnd => 15,
            RecordPoint::EngineEnd => 16,
            RecordPoint::FutureReturn => 17,
        }
    }

    /// The number of the point, in the order of execution.
    pub fn index(self) -> (index: usize)
        ensures
            index == self.number(),
            index <= LAST_RECORD_POINT,
    {
        match self {
            RecordPoint::PrepareEnvQueue => 0,
            RecordPoint::ParsingQueue => 1,
            RecordPoint::ParsingStart => 2,
            RecordPoint::ParsingEnd => 3,
            RecordPoint::ParsingDequeue => 4,
            RecordPoint::LoadStart => 5,
            RecordPoint::TransferStart => 6,
            RecordPoint::GetEngineQueue => 7,
            RecordPoint::ExecutionQueue => 8,
            RecordPoint::EngineStart => 9,
            RecordPoint::BufferAllocationComplete => 10,
            RecordPoint::UserCodeMappingComplete => 11,
            RecordPoint::UserStackMappingComplete => 12,
            RecordPoint::InterruptSetupComplete => 13,
            RecordPoint::EngineSetupEnd => 14,
            RecordPoint::EngineExecEnd => 15,
            RecordPoint::EngineEnd => 16,
            RecordPoint::FutureReturn => 17,
        }
    }
}

/// The name of the record point with the given number.
pub open spec fn point_name(index: int) -> Seq<char> {
    if index == 0 {
        "PrepareEnvQueue"@
    } else if index == 1 {
        "ParsingQueue"@
    } else if index == 2 {
        "ParsingStart"@
    } else if index == 3 {
        "ParsingEnd"@
    } else if index == 4 {
        "ParsingDequeue"@
    } else if index == 5 {
        "LoadStart"@
    } else if index == 6 {
        "TransferStart"@
    } else if index == 7 {
        "GetEngineQueue"@
    } else if index == 8 {
        "ExecutionQueue"@
    } else if index == 9 {
        "EngineStart"@
    } else if index == 10 {
        "BufferAllocationComplete"@
    } else if index == 11 {
        "UserCodeMappingComplete"@
    } else if index == 12 {
        "UserStackMappingComplete"@
    } else if index == 13 {
        "InterruptSetupComplete"@
    } else if index == 14 {
        "EngineSetupEnd"@
    } else if index == 15 {
        "EngineExecEnd"@
    } else if index == 16 {
        "EngineEnd"@
    } else {
        "FutureReturn"@
    }
}

/// The name of the record point with the given number.
pub fn record_point_name(index: usize) -> (name: &'static str)
    requires
        index <= LAST_RECORD_POINT,
    ensures
        name@ == point_name(index as int),
{
    match index {
        0 => "PrepareEnvQueue",
        1 => "ParsingQueue",
        2 => "ParsingStart",
        3 => "ParsingEnd",
        4 => "ParsingDequeue",
        5 => "LoadStart",
        6 => "TransferStart",
        7 => "GetEngineQueue",
        8 => "ExecutionQueue",
        9 => "EngineStart",
        10 => "BufferAllocationComplete",
        11 => "UserCodeMappingComplete",
        12 => "UserStackMappingComplete",
        13 => "InterruptSetupComplete",
        14 => "EngineSetupEnd",
        15 => "EngineExecEnd",
        16 => "EngineEnd",
        _ => "FutureReturn",
    }
}

/// Every record point has a number of its own.
pub proof fn points_are_numbered_apart(a: RecordPoint, b: RecordPoint)
    ensures
        0 <= a.number() <= LAST_RECORD_POINT,
        a.number() == b.number() ==> a == b,
{
}

/// The name shown for the number of a point is the name of that point.
pub proof fn points_have_their_own_names(point: RecordPoint)
    ensures
        point_name(point.number()) == match point {
            RecordPoint::PrepareEnvQueue => "PrepareEnvQueue"@,
            RecordPoint::ParsingQueue => "ParsingQueue"@,
            RecordPoint::ParsingStart => "ParsingStart"@,
            RecordPoint::ParsingEnd => "ParsingEnd"@,
            RecordPoint::ParsingDequeue => "ParsingDequeue"@,
            RecordPoint::LoadStart => "LoadStart"@,
            RecordPoint::TransferStart => "TransferStart"@,
            RecordPoint::GetEngineQueue => "GetEngineQueue"@,
            RecordPoint::ExecutionQueue => "ExecutionQueue"@,
            RecordPoint::EngineStart => "EngineStart"@,
            RecordPoint::BufferAllocationComplete => "BufferAllocationComplete"@,
            RecordPoint::UserCodeMappingComplete => "UserCodeMappingComplete"@,
            RecordPoint::UserStackMappingComplete => "UserStackMappingComplete"@,
            RecordPoint::InterruptSetupComplete => "InterruptSetupComplete"@,
            RecordPoint::EngineSetupEnd => "EngineSetupEnd"@,
            RecordPoint::EngineExecEnd => "EngineExecEnd"@,
            RecordPoint::EngineEnd => "EngineEnd"@,
            RecordPoint::FutureReturn => "FutureReturn"@,
        },
{
}

/// The points are numbered in the order in which an execution passes them, from
/// zero without gap.
pub proof fn points_are_numbered_in_order()
    ensures
        RecordPoint::PrepareEnvQueue.number() == 0,
        RecordPoint::ParsingQueue.number() == RecordPoint::PrepareEnvQueue.number() + 1,
        RecordPoint::ParsingStart.number() == RecordPoint::ParsingQueue.number() + 1,
        RecordPoint::ParsingEnd.number() == RecordPoint::ParsingStart.number() + 1,
        RecordPoint::ParsingDequeue.number() == RecordPoint::ParsingEnd.number() + 1,
        RecordPoint::LoadStart.number() == RecordPoint::ParsingDequeue.number() + 1,
        RecordPoint::TransferStart.number() == RecordPoint::LoadStart.number() + 1,
        RecordPoint::GetEngineQueue.number() == RecordPoint::TransferStart.number() + 1,
        RecordPoint::ExecutionQueue.number() == RecordPoint::GetEngineQueue.number() + 1,
        RecordPoint::EngineStart.number() == RecordPoint::ExecutionQueue.number() + 1,
        RecordPoint::BufferAllocationComplete.number() == RecordPoint::EngineStart.number() + 1,
        RecordPoint::UserCodeMappingComplete.number() == RecordPoint::BufferAllocationComplete.number() + 1,
        RecordPoint::UserStackMappingComplete.number() == RecordPoint::UserCodeMappingComplete.number() + 1,
        RecordPoint::InterruptSetupComplete.number() == RecordPoint::UserStackMappingComplete.number() + 1,
        RecordPoint::EngineSetupEnd.number() == RecordPoint::InterruptSetupComplete.number() + 1,
        RecordPoint::EngineExecEnd.number() == RecordPoint::EngineSetupEnd.number() + 1,
        RecordPoint::EngineEnd.number() == RecordPoint::EngineExecEnd.number() + 1,
        RecordPoint::FutureReturn.number() == RecordPoint::EngineEnd.number() + 1,
        RecordPoint::FutureReturn.number() == LAST_RECORD_POINT,
        LAST_RECORD_POINT + 1 == RECORD_POINT_COUNT,
        RECORD_POINT_COUNT == 18,
{
}

/// The name for the index of a point is the name of that point.
pub proof fn indices_name_their_point(point: RecordPoint, index: usize, name: &'static str)
    requires
        call_ensures(RecordPoint::index, (point,), index),
        call_ensures(record_point_name, (index,), name),
    ensures
        name@ == match point {
            RecordPoint::PrepareEnvQueue => "PrepareEnvQueue"@,
            RecordPoint::ParsingQueue => "ParsingQueue"@,
            RecordPoint::ParsingStart => "ParsingStart"@,
            RecordPoint::ParsingEnd => "ParsingEnd"@,
            RecordPoint::ParsingDequeue => "ParsingDequeue"@,
            RecordPoint::LoadStart => "LoadStart"@,
            RecordPoint::TransferStart => "TransferStart"@,
            RecordPoint::GetEngineQueue => "GetEngineQueue"@,
            RecordPoint::ExecutionQueue => "ExecutionQueue"@,
            RecordPoint::EngineStart => "EngineStart"@,
            RecordPoint::BufferAllocationComplete => "BufferAllocationComplete"@,
            RecordPoint::UserCodeMappingComplete => "UserCodeMappingComplete"@,
            RecordPoint::UserStackMappingComplete => "UserStackMappingComplete"@,
            RecordPoint::InterruptSetupComplete => "InterruptSetupComplete"@,
            RecordPoint::EngineSetupEnd => "EngineSetupEnd"@,
            RecordPoint::EngineExecEnd => "EngineExecEnd"@,
            RecordPoint::EngineEnd => "EngineEnd"@,
            RecordPoint::FutureReturn => "FutureReturn"@,
        },
{
    points_have_their_own_names(point);
}

/// The index of a point is its place in the order of execution.
pub proof fn indices_follow_the_order(
    earlier: RecordPoint,
    later: RecordPoint,
    first: usize,
    second: usize,
)
    requires
        call_ensures(RecordPoint::index, (earlier,), first),
        call_ensures(RecordPoint::index, (later,), second),
    ensures
        first < 18,
        first == second <==> earlier == later,
        earlier is PrepareEnvQueue ==> first == 0,
        earlier is PrepareEnvQueue && later is ParsingQueue ==> second == first + 1,
        earlier is ParsingQueue && later is ParsingStart ==> second == first + 1,
        earlier is ParsingStart && later is ParsingEnd ==> second == first + 1,
        earlier is ParsingEnd && later is ParsingDequeue ==> second == first + 1,
        earlier is ParsingDequeue && later is LoadStart ==> second == first + 1,
        earlier is LoadStart && later is TransferStart ==> second == first + 1,
        earlier is TransferStart && later is GetEngineQueue ==> second == first + 1,
        earlier is GetEngineQueue && later is ExecutionQueue ==> second == first + 1,
        earlier is ExecutionQueue && later is EngineStart ==> second == first + 1,
        earlier is EngineStart && later is BufferAllocationComplete ==> second == first + 1,
        earlier is BufferAllocationComplete && later is UserCodeMappingComplete ==> second == first + 1,
        earlier is UserCodeMappingComplete && later is UserStackMappingComplete ==> second == first + 1,
        earlier is UserStackMappingComplete && later is InterruptSetupComplete ==> second == first + 1,
        earlier is InterruptSetupComplete && later is EngineSetupEnd ==> second == first + 1,
        earlier is EngineSetupEnd && later is EngineExecEnd ==> second == first + 1,
        earlier is EngineExecEnd && later is EngineEnd ==> second == first + 1,
        earlier is EngineEnd && later is FutureReturn ==> second == first + 1,
{
    points_are_numbered_in_order();
}

} // verus!
