//! Recorders and the time points they share.

use crate::records::point::RecordPoint;
use crate::records::timestamp;
use crate::records::timestamp::{FunctionId, FunctionTimestamp};
use vstd::prelude::*;

verus! {

/// Time points that several recorders may share.
#[derive(Debug)]
pub struct SharedTimestamp {
    pub timestamp: FunctionTimestamp,
    /// How many recorders share them.
    pub owners: usize,
}

/// The time points that recorders are working on.
#[derive(Debug)]
pub struct TimestampTable {
    slots: Vec<Option<SharedTimestamp>>,
}

impl View for TimestampTable {
    type V = Seq<Option<SharedTimestamp>>;

    /// The time points by the number of their slot; a slot is empty once they were moved away.
    closed spec fn view(&self) -> Seq<Option<SharedTimestamp>> {
        self.slots@
    }
}

impl TimestampTable {
    /// A table without time points.
    pub fn new() -> (table: TimestampTable)
        ensures
            table@.len() == 0,
    {
        TimestampTable { slots: Vec::new() }
    }
}

/// Records the time points of one execution.
#[derive(Debug)]
pub struct Recorder {
    slot: usize,
}

impl Recorder {
    /// The slot that the time points of this recorder are in.
    pub closed spec fn slot(&self) -> int {
        self.slot as int
    }

    /// The time points of this recorder are in the table.
    pub open spec fn is_in(&self, table: Seq<Option<SharedTimestamp>>) -> bool {
        0 <= self.slot() < table.len() && table[self.slot()] is Some
    }

    /// The time points of this recorder.
    pub open spec fn timestamp(&self, table: Seq<Option<SharedTimestamp>>) -> FunctionTimestamp {
        table[self.slot()]->0.timestamp
    }

    /// How many recorders share the time points of this one.
    pub open spec fn owners(&self, table: Seq<Option<SharedTimestamp>>) -> usize {
        table[self.slot()]->0.owners
    }

    /// `after` differs from `before` at most in the slot of this recorder.
    pub open spec fn only_changes_own(
        &self,
        before: Seq<Option<SharedTimestamp>>,
        after: Seq<Option<SharedTimestamp>>,
    ) -> bool {
        &&& after.len() == before.len()
        &&& forall|i: int|
            0 <= i < after.len() && i != self.slot() ==> #[trigger] after[i] == before[i]
    }

    /// The recorder is put into the first free slot of `before`, which is a new
    /// one if all are taken; no other slot changes.
    pub open spec fn is_placed(
        &self,
        before: Seq<Option<SharedTimestamp>>,
        after: Seq<Option<SharedTimestamp>>,
    ) -> bool {
        &&& 0 <= self.slot() <= before.len()
        &&& forall|i: int| 0 <= i < self.slot() ==> #[trigger] before[i] is Some
        &&& self.slot() < before.len() ==> before[self.slot()] is None
        &&& after.len() == if self.slot() < before.len() {
            before.len()
        } else {
            before.len() + 1
        }
        &&& forall|i: int|
            0 <= i < before.len() && i != self.slot() ==> #[trigger] after[i] == before[i]
    }

    /// A recorder for an execution whose time points count from the cycle `creation`.
    pub fn new(table: &mut TimestampTable, function_id: FunctionId, creation: u64) -> (recorder:
        Recorder)
        ensures
            recorder.is_placed(old(table)@, final(table)@),
            recorder.is_in(final(table)@),
            recorder.timestamp(final(table)@).is_fresh(function_id, creation),
            recorder.owners(final(table)@) == 1,
    {
        let mut slot: usize = 0;
        while slot < table.slots.len() && table.slots[slot].is_some()
            invariant
                *table == *old(table),
                slot <= table@.len(),
                forall|i: int| 0 <= i < slot ==> #[trigger] table@[i] is Some,
            decreases table@.len() - slot,
        {
            slot = slot + 1;
        }
        let timestamp: FunctionTimestamp = FunctionTimestamp::new(function_id, creation);
        let shared: SharedTimestamp = SharedTimestamp { timestamp, owners: 1 };
        if slot < table.slots.len() {
            table.slots[slot] = Some(shared);
        } else {
            table.slots.push(Some(shared));
        }
        Recorder { slot }
    }

    /// A recorder for an execution whose time points count from where those of `parent` do.
    pub fn new_from_parent(
        table: &mut TimestampTable,
        function_id: FunctionId,
        parent: &Recorder,
    ) -> (recorder: Recorder)
        requires
            parent.is_in(old(table)@),
        ensures
            recorder.is_placed(old(table)@, final(table)@),
            recorder.is_in(final(table)@),
            recorder.timestamp(final(table)@).is_fresh(
                function_id,
                parent.timestamp(old(table)@).creation,
            ),
            recorder.owners(final(table)@) == 1,
    {
        let creation: u64 = match &table.slots[parent.slot] {
            Some(shared) => shared.timestamp.creation,
            None => 0,
        };
        Recorder::new(table, function_id, creation)
    }

    /// How many recorders share the time points of this one.
    pub fn owner_count(&self, table: &TimestampTable) -> (count: usize)
        requires
            self.is_in(table@),
        ensures
            count == self.owners(table@),
    {
        match &table.slots[self.slot] {
            Some(shared) => shared.owners,
            None => 0,
        }
    }

    /// Notes that a point is passed at the cycle `now`.
    pub fn record(&mut self, table: &mut TimestampTable, current_point: RecordPoint, now: u64)
        requires
            old(self).is_in(old(table)@),
        ensures
            *final(self) == *old(self),
            final(self).only_changes_own(old(table)@, final(table)@),
            final(self).is_in(final(table)@),
            final(self).timestamp(final(table)@).records(
                old(self).timestamp(old(table)@),
                current_point,
                now,
            ),
            final(self).owners(final(table)@) == old(self).owners(old(table)@),
    {
        match &mut table.slots[self.slot] {
            Some(shared) => {
                shared.timestamp.record(current_point, now);
            },
            None => {},
        }
    }

    /// Puts the finished executions of other recorders below this one.
    ///
    /// None of them may be shared any more.
    pub fn add_children(&mut self, table: &mut TimestampTable, new_children: Vec<Recorder>)
        requires
            old(self).is_in(old(table)@),
            forall|i: int|
                0 <= i < new_children@.len() ==> {
                    &&& (#[trigger] new_children@[i]).is_in(old(table)@)
                    &&& new_children@[i].owners(old(table)@) == 1
                    &&& new_children@[i].slot() != old(self).slot()
                },
            forall|i: int, j: int|
                0 <= i < j < new_children@.len() ==> (#[trigger] new_children@[i]).slot() != (
                #[trigger] new_children@[j]).slot(),
        ensures
            *final(self) == *old(self),
            final(table)@.len() == old(table)@.len(),
            final(self).is_in(final(table)@),
            final(self).timestamp(final(table)@).adopts(
                old(self).timestamp(old(table)@),
                Seq::new(
                    new_children@.len(),
                    |i: int| new_children@[i].timestamp(old(table)@),
                ),
            ),
            final(self).owners(final(table)@) == old(self).owners(old(table)@),
            forall|i: int|
                0 <= i < new_children@.len() ==> final(table)@[(
                #[trigger] new_children@[i]).slot()] is None,
            forall|k: int|
                0 <= k < final(table)@.len() && k != old(self).slot() && (forall|i: int|
                    0 <= i < new_children@.len() ==> (#[trigger] new_children@[i]).slot() != k)
                    ==> #[trigger] final(table)@[k] == old(table)@[k],
    {
        let ghost moved = Seq::new(
            new_children@.len(),
            |i: int| new_children@[i].timestamp(old(table)@),
        );
        let mut n: usize = 0;
        assert(moved.take(0) =~= Seq::empty());
        assert(self.timestamp(table@).children@ =~= self.timestamp(table@).children@ + moved.take(
            0,
        ));
        while n < new_children.len()
            invariant
                n <= new_children@.len(),
                moved == Seq::new(
                    new_children@.len(),
                    |i: int| new_children@[i].timestamp(old(table)@),
                ),
                *self == *old(self),
                self.is_in(old(table)@),
                table@.len() == old(table)@.len(),
                forall|i: int|
                    0 <= i < new_children@.len() ==> {
                        &&& (#[trigger] new_children@[i]).is_in(old(table)@)
                        &&& new_children@[i].slot() != self.slot()
                    },
                forall|i: int, j: int|
                    0 <= i < j < new_children@.len() ==> (#[trigger] new_children@[i]).slot() != (
                    #[trigger] new_children@[j]).slot(),
                self.is_in(table@),
                self.timestamp(table@).adopts(
                    self.timestamp(old(table)@),
                    moved.take(n as int),
                ),
                self.owners(table@) == self.owners(old(table)@),
                forall|i: int|
                    0 <= i < n ==> table@[(#[trigger] new_children@[i]).slot()] is None,
                forall|i: int|
                    n <= i < new_children@.len() ==> table@[(#[trigger] new_children@[i]).slot()]
                        == old(table)@[new_children@[i].slot()],
                forall|k: int|
                    0 <= k < table@.len() && k != self.slot() && (forall|i: int|
                        0 <= i < new_children@.len() ==> (#[trigger] new_children@[i]).slot() != k)
                        ==> #[trigger] table@[k] == old(table)@[k],
            decreases new_children@.len() - n,
        {
            let slot: usize = new_children[n].slot;
            let ghost child = new_children@[n as int];
            assert(child.slot() == slot);
            let taken: Option<SharedTimestamp> = table.slots[slot].take();
            if let Some(shared) = taken {
                match &mut table.slots[self.slot] {
                    Some(own) => {
                        own.timestamp.add_children(shared.timestamp);
                    },
                    None => {},
                }
            }
            proof {
                assert(moved.take(n + 1) =~= moved.take(n as int) + seq![moved[n as int]]);
                assert(self.timestamp(table@).children@ =~= self.timestamp(old(table)@).children@
                    + moved.take(n + 1));
            }
            n = n + 1;
        }
        assert(moved.take(n as int) =~= moved);
    }

    /// A recorder that shares the time points of this one.
    pub fn get_sub_recorder(&self, table: &mut TimestampTable) -> (recorder: Recorder)
        requires
            self.is_in(old(table)@),
            self.owners(old(table)@) < usize::MAX,
        ensures
            recorder.slot() == self.slot(),
            self.only_changes_own(old(table)@, final(table)@),
            self.is_in(final(table)@),
            self.timestamp(final(table)@) == self.timestamp(old(table)@),
            self.owners(final(table)@) == self.owners(old(table)@) + 1,
    {
        match &mut table.slots[self.slot] {
            Some(shared) => {
                shared.owners = shared.owners + 1;
            },
            None => {},
        }
        Recorder { slot: self.slot }
    }

    /// Takes the time points of this recorder out of the table.
    pub fn into_timestamp(self, table: &mut TimestampTable) -> (timestamp: FunctionTimestamp)
        requires
            self.is_in(old(table)@),
            self.owners(old(table)@) == 1,
        ensures
            timestamp == self.timestamp(old(table)@),
            self.only_changes_own(old(table)@, final(table)@),
            final(table)@[self.slot()] is None,
    {
        let taken: Option<SharedTimestamp> = table.slots[self.slot].take();
        taken.unwrap().timestamp
    }

    /// The text for the time points, where `to_micros` converts cycles to microseconds.
    pub fn fmt<F: Fn(u64) -> u64>(&self, table: &TimestampTable, to_micros: &F) -> (out: String)
        requires
            self.is_in(table@),
            timestamp::is_function(*to_micros),
        ensures
            out@ == timestamp::timestamp_text(
                self.timestamp(table@),
                |cycles: u64| timestamp::value_of(*to_micros, cycles),
            ),
    {
        match &table.slots[self.slot] {
            Some(shared) => shared.timestamp.fmt(to_micros),
            None => String::new(),
        }
    }

    /// Gives up a recorder. The time points stay while another recorder shares them.
    pub fn release(self, table: &mut TimestampTable)
        requires
            self.is_in(old(table)@),
            self.owners(old(table)@) > 0,
        ensures
            self.only_changes_own(old(table)@, final(table)@),
            self.owners(old(table)@) == 1 ==> final(table)@[self.slot()] is None,
            self.owners(old(table)@) > 1 ==> {
                &&& self.is_in(final(table)@)
                &&& self.timestamp(final(table)@) == self.timestamp(old(table)@)
                &&& self.owners(final(table)@) == self.owners(old(table)@) - 1
            },
    {
        let taken: Option<SharedTimestamp> = table.slots[self.slot].take();
        if let Some(shared) = taken {
            if shared.owners > 1 {
                table.slots[self.slot] = Some(
                    SharedTimestamp { timestamp: shared.timestamp, owners: shared.owners - 1 },
                );
            }
        }
    }
}

/// A new recorder has time points of its own: those of the recorders that are
/// there already stay as they are.
pub proof fn new_recorder_is_separate(
    recorder: Recorder,
    other: Recorder,
    before: Seq<Option<SharedTimestamp>>,
    after: Seq<Option<SharedTimestamp>>,
)
    requires
        other.is_in(before),
        recorder.is_placed(before, after),
    ensures
        other.slot() != recorder.slot(),
        other.is_in(after),
        other.timestamp(after) == other.timestamp(before),
        other.owners(after) == other.owners(before),
{
}

/// Recorders that share their time points see the same ones, and what is
/// recorded through one of them is recorded for the other.
pub proof fn sub_recorder_shares(
    recorder: Recorder,
    sub: Recorder,
    before: Seq<Option<SharedTimestamp>>,
    after: Seq<Option<SharedTimestamp>>,
    current_point: RecordPoint,
    now: u64,
)
    requires
        sub.slot() == recorder.slot(),
        recorder.is_in(before),
        sub.is_in(after),
        sub.timestamp(after).records(sub.timestamp(before), current_point, now),
    ensures
        sub.is_in(before),
        sub.timestamp(before) == recorder.timestamp(before),
        recorder.is_in(after),
        recorder.timestamp(after).records(recorder.timestamp(before), current_point, now),
{
}

/// A change of the time points of one recorder leaves those of every recorder
/// that does not share them as they were.
pub proof fn other_recorders_are_left_alone(
    recorder: Recorder,
    other: Recorder,
    before: Seq<Option<SharedTimestamp>>,
    after: Seq<Option<SharedTimestamp>>,
)
    requires
        recorder.only_changes_own(before, after),
        other.is_in(before),
        other.slot() != recorder.slot(),
    ensures
        other.is_in(after),
        after.len() == before.len(),
        after[other.slot()] == before[other.slot()],
        other.timestamp(after) == other.timestamp(before),
        other.owners(after) == other.owners(before),
{
}

/// The time points and the number of owners of a recorder are those in its slot.
pub proof fn recorders_see_their_slot(
    recorder: Recorder,
    table: Seq<Option<SharedTimestamp>>,
    shared: SharedTimestamp,
)
    requires
        0 <= recorder.slot() < table.len(),
        table[recorder.slot()] == Some(shared),
    ensures
        recorder.is_in(table),
        recorder.timestamp(table) == shared.timestamp,
        recorder.owners(table) == shared.owners,
{
}

/// A new recorder counts from the given cycle, one made from a parent from where
/// the parent counts. Both have time points of their own with nothing recorded.
pub proof fn new_recorders_count_from_their_creation(
    table: &mut TimestampTable,
    function_id: FunctionId,
    creation: u64,
    recorder: Recorder,
    inherited: &mut TimestampTable,
    parent: Recorder,
    child: Recorder,
    point: RecordPoint,
)
    requires
        call_ensures(Recorder::new, (table, function_id, creation), recorder),
        call_ensures(Recorder::new_from_parent, (inherited, function_id, &parent), child),
        parent.is_in(old(inherited)@),
    ensures
        recorder.is_in(final(table)@),
        recorder.timestamp(final(table)@).creation == creation,
        recorder.timestamp(final(table)@).function_id@ == function_id@,
        recorder.timestamp(final(table)@).time_points@[point.number()] == 0,
        recorder.owners(final(table)@) == 1,
        child.is_in(final(inherited)@),
        child.timestamp(final(inherited)@).creation == parent.timestamp(
            old(inherited)@,
        ).creation,
        child.timestamp(final(inherited)@).function_id@ == function_id@,
        child.timestamp(final(inherited)@).time_points@[point.number()] == 0,
        child.slot() != parent.slot(),
        parent.timestamp(final(inherited)@) == parent.timestamp(old(inherited)@),
{
    timestamp::nothing_is_recorded_at_first(
        recorder.timestamp(final(table)@),
        function_id,
        creation,
        point,
    );
    timestamp::nothing_is_recorded_at_first(
        child.timestamp(final(inherited)@),
        function_id,
        parent.timestamp(old(inherited)@).creation,
        point,
    );
}

/// Recording through a recorder sets the time of the point, for it and for all
/// that share its time points, and leaves every other point and recorder alone.
pub proof fn recording_is_seen_by_those_who_share(
    recorder: &mut Recorder,
    table: &mut TimestampTable,
    current_point: RecordPoint,
    now: u64,
    sharing: Recorder,
    other: Recorder,
    other_point: RecordPoint,
)
    requires
        call_ensures(Recorder::record, (recorder, table, current_point, now), ()),
        sharing.slot() == old(recorder).slot(),
        other.slot() != old(recorder).slot(),
        other.is_in(old(table)@),
        now >= old(recorder).timestamp(old(table)@).creation,
    ensures
        sharing.timestamp(final(table)@).time_points@[current_point.number()] == now - old(recorder).timestamp(old(table)@).creation,
        other_point != current_point ==> sharing.timestamp(
            final(table)@,
        ).time_points@[other_point.number()] == sharing.timestamp(
            old(table)@,
        ).time_points@[other_point.number()],
        other.timestamp(final(table)@) == other.timestamp(old(table)@),
{
}

/// A sub recorder shares the time points of its recorder; both count as owners.
/// Giving one up leaves them to the others, and removes them with the last.
pub proof fn owners_come_and_go(
    recorder: Recorder,
    table: &mut TimestampTable,
    sub: Recorder,
    given_up: Recorder,
    left: &mut TimestampTable,
)
    requires
        call_ensures(Recorder::get_sub_recorder, (&recorder, table), sub),
        call_ensures(Recorder::release, (given_up, left), ()),
    ensures
        sub.slot() == recorder.slot(),
        sub.timestamp(final(table)@) == recorder.timestamp(old(table)@),
        sub.owners(final(table)@) == recorder.owners(old(table)@) + 1,
        given_up.owners(old(left)@) == 1 ==> final(left)@[given_up.slot()] is None,
        given_up.owners(old(left)@) > 1 ==> given_up.timestamp(final(left)@)
            == given_up.timestamp(old(left)@) && given_up.owners(final(left)@) + 1
            == given_up.owners(old(left)@),
{
}

/// Children are put below a recorder in the order in which they are given, with
/// all their time points, and leave the table.
pub proof fn children_keep_their_times(
    recorder: &mut Recorder,
    table: &mut TimestampTable,
    new_children: Vec<Recorder>,
    i: int,
)
    requires
        call_ensures(Recorder::add_children, (recorder, table, new_children), ()),
        0 <= i < new_children@.len(),
    ensures
        ({
            let before = old(recorder).timestamp(old(table)@);
            let after = final(recorder).timestamp(final(table)@);
            let n = before.children@.len();
            &&& after.children@.len() == n + new_children@.len()
            &&& after.children@[n + i] == new_children@[i].timestamp(old(table)@)
            &&& after.time_points@ == before.time_points@
            &&& after.creation == before.creation
            &&& after.function_id@ == before.function_id@
        }),
        final(table)@[new_children@[i].slot()] is None,
{
}

/// The owners that are counted are those of the time points, and taking these
/// out gives them as they are.
pub proof fn owners_are_counted(
    recorder: Recorder,
    table: TimestampTable,
    count: usize,
    emptied: &mut TimestampTable,
    timestamp: FunctionTimestamp,
)
    requires
        call_ensures(Recorder::owner_count, (&recorder, &table), count),
        call_ensures(Recorder::into_timestamp, (recorder, emptied), timestamp),
    ensures
        count == table@[recorder.slot()]->0.owners,
        timestamp == old(emptied)@[recorder.slot()]->0.timestamp,
        final(emptied)@[recorder.slot()] is None,
{
}

/// What a recorder shows is what its time points show.
pub proof fn recorders_show_their_time_points<F: Fn(u64) -> u64>(
    recorder: Recorder,
    table: TimestampTable,
    to_micros: F,
    out: String,
    own: String,
)
    requires
        call_ensures(Recorder::fmt::<F>, (&recorder, &table, &to_micros), out),
        call_ensures(
            FunctionTimestamp::fmt::<F>,
            (&recorder.timestamp(table@), &to_micros),
            own,
        ),
    ensures
        out@ == own@,
{
}

} // verus!
