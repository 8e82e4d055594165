//! The archive of finished executions.

use crate::records::recorder::{Recorder, TimestampTable};
use crate::records::timestamp;
use crate::records::timestamp::FunctionTimestamp;
use vstd::prelude::*;
use vstd::string::*;

verus! {

/// The text for an execution in a summary, behind `prefix`, followed by those
/// for the executions it started, behind one dash more.
pub open spec fn entry_text(
    timestamp: FunctionTimestamp,
    prefix: Seq<char>,
    micros: spec_fn(u64) -> u64,
) -> Seq<char>
    decreases timestamp, 0nat,
{
    prefix + timestamp::timestamp_text(timestamp, micros) + "\n"@ + entries_text(
        timestamp.children@,
        prefix + "-"@,
        micros,
        timestamp.children@.len(),
    )
}

/// The texts for the first `n` of `timestamps` in a summary.
pub open spec fn entries_text(
    timestamps: Seq<FunctionTimestamp>,
    prefix: Seq<char>,
    micros: spec_fn(u64) -> u64,
    n: nat,
) -> Seq<char>
    decreases timestamps, n,
{
    if n == 0 || n > timestamps.len() {
        Seq::empty()
    } else {
        entries_text(timestamps, prefix, micros, (n - 1) as nat) + entry_text(
            timestamps[n - 1],
            prefix,
            micros,
        )
    }
}

/// The summary of executions: the text for each, followed by an empty line.
pub open spec fn summary_text(
    timestamps: Seq<FunctionTimestamp>,
    micros: spec_fn(u64) -> u64,
) -> Seq<char>
    decreases timestamps.len(),
{
    if timestamps.len() == 0 {
        Seq::empty()
    } else {
        summary_text(timestamps.drop_last(), micros) + entry_text(
            timestamps.last(),
            Seq::empty(),
            micros,
        ) + "\n"@
    }
}

/// The time points of finished executions.
#[derive(Debug)]
pub struct TimestampArchive {
    collected_timestamps: Vec<FunctionTimestamp>,
}

impl View for TimestampArchive {
    type V = Seq<FunctionTimestamp>;

    /// The time points in the order in which they were inserted.
    closed spec fn view(&self) -> Seq<FunctionTimestamp> {
        self.collected_timestamps@
    }
}

impl TimestampArchive {
    /// An archive without time points.
    pub fn init() -> (archive: TimestampArchive)
        ensures
            archive@ == Seq::<FunctionTimestamp>::empty(),
    {
        TimestampArchive { collected_timestamps: Vec::new() }
    }

    /// Adds the time points of an execution.
    pub fn insert(&mut self, new_timestamp: FunctionTimestamp)
        ensures
            final(self)@ == old(self)@.push(new_timestamp),
    {
        self.collected_timestamps.push(new_timestamp);
    }

    /// Forgets all time points.
    pub fn reset(&mut self)
        ensures
            final(self)@ == Seq::<FunctionTimestamp>::empty(),
    {
        self.collected_timestamps = Vec::new();
    }

    /// Appends the text for an execution and for those it started to a summary.
    fn append_timestamps<F: Fn(u64) -> u64>(
        &self,
        timestamp: &FunctionTimestamp,
        summary: &mut String,
        prefix: &str,
        to_micros: &F,
    )
        requires
            timestamp::is_function(*to_micros),
        ensures
            final(summary)@ == old(summary)@ + entry_text(
                *timestamp,
                prefix@,
                |cycles: u64| timestamp::value_of(*to_micros, cycles),
            ),
        decreases *timestamp,
    {
        let ghost micros = |cycles: u64| timestamp::value_of(*to_micros, cycles);
        let text: String = timestamp.fmt(to_micros);
        summary.append(prefix);
        summary.append(text.as_str());
        summary.append("\n");
        let ghost own = summary@;
        let mut longer: String = prefix.to_owned();
        longer.append("-");
        let mut n: usize = 0;
        while n < timestamp.children.len()
            invariant
                n <= timestamp.children@.len(),
                timestamp::is_function(*to_micros),
                micros == (|cycles: u64| timestamp::value_of(*to_micros, cycles)),
                longer@ == prefix@ + "-"@,
                summary@ == own + entries_text(timestamp.children@, longer@, micros, n as nat),
            decreases timestamp.children@.len() - n,
        {
            self.append_timestamps(&timestamp.children[n], summary, longer.as_str(), to_micros);
            assert(summary@ =~= own + entries_text(
                timestamp.children@,
                longer@,
                micros,
                (n + 1) as nat,
            ));
            n = n + 1;
        }
        assert(summary@ =~= old(summary)@ + entry_text(*timestamp, prefix@, micros));
    }

    /// Appends the summary of all executions, where `to_micros` converts cycles to microseconds.
    pub fn get_summary<F: Fn(u64) -> u64>(&self, summary: &mut String, to_micros: &F)
        requires
            timestamp::is_function(*to_micros),
        ensures
            final(summary)@ == old(summary)@ + summary_text(
                self@,
                |cycles: u64| timestamp::value_of(*to_micros, cycles),
            ),
    {
        let ghost micros = |cycles: u64| timestamp::value_of(*to_micros, cycles);
        let ghost start = summary@;
        let mut n: usize = 0;
        proof {
            reveal_strlit("");
            assert(""@ =~= Seq::<char>::empty());
            assert(summary@ =~= start + summary_text(self@.take(0), micros));
        }
        while n < self.collected_timestamps.len()
            invariant
                n <= self@.len(),
                timestamp::is_function(*to_micros),
                micros == (|cycles: u64| timestamp::value_of(*to_micros, cycles)),
                ""@ == Seq::<char>::empty(),
                summary@ == start + summary_text(self@.take(n as int), micros),
            decreases self@.len() - n,
        {
            self.append_timestamps(&self.collected_timestamps[n], summary, "", to_micros);
            summary.append("\n");
            proof {
                assert(self@.take(n + 1).drop_last() =~= self@.take(n as int));
                assert(summary@ =~= start + summary_text(self@.take(n + 1), micros));
            }
            n = n + 1;
        }
        assert(self@.take(n as int) =~= self@);
    }
}

/// The archive of finished executions.
#[derive(Debug)]
pub struct Archive {
    timestamp_archive: TimestampArchive,
}

/// What an archive is set up with.
#[derive(Debug, Clone, Copy, PartialEq, Eq, Structural)]
pub struct ArchiveInit {
    pub timestamp_count: usize,
}

impl View for Archive {
    type V = Seq<FunctionTimestamp>;

    /// The time points in the order in which they were inserted.
    closed spec fn view(&self) -> Seq<FunctionTimestamp> {
        self.timestamp_archive@
    }
}

impl Archive {
    /// An archive without executions.
    pub fn init() -> (archive: Archive)
        ensures
            archive@ == Seq::<FunctionTimestamp>::empty(),
    {
        Archive { timestamp_archive: TimestampArchive::init() }
    }

    /// Moves the time points of a recorder into the archive. They may not be
    /// shared with another recorder any more.
    pub fn insert_recorder(&mut self, table: &mut TimestampTable, recorder: Recorder)
        requires
            recorder.is_in(old(table)@),
            recorder.owners(old(table)@) == 1,
        ensures
            final(self)@ == old(self)@.push(recorder.timestamp(old(table)@)),
            recorder.only_changes_own(old(table)@, final(table)@),
            final(table)@[recorder.slot()] is None,
    {
        let timestamp: FunctionTimestamp = recorder.into_timestamp(table);
        self.timestamp_archive.insert(timestamp);
    }

    /// The summary of all executions, where `to_micros` converts cycles to microseconds.
    pub fn get_summary<F: Fn(u64) -> u64>(&self, to_micros: &F) -> (summary: String)
        requires
            timestamp::is_function(*to_micros),
        ensures
            summary@ == summary_text(
                self@,
                |cycles: u64| timestamp::value_of(*to_micros, cycles),
            ),
    {
        let mut summary: String = String::new();
        self.timestamp_archive.get_summary(&mut summary, to_micros);
        assert(summary@ =~= summary_text(
            self@,
            |cycles: u64| timestamp::value_of(*to_micros, cycles),
        ));
        summary
    }

    /// Forgets all executions.
    pub fn reset(&mut self)
        ensures
            final(self)@ == Seq::<FunctionTimestamp>::empty(),
    {
        self.timestamp_archive.reset();
    }
}

/// The summary of an archive in which nothing is, or which was reset, is
/// empty; inserting an execution appends its text and leaves the rest as it is.
pub proof fn summary_grows_with_insertions(
    timestamps: Seq<FunctionTimestamp>,
    timestamp: FunctionTimestamp,
    micros: spec_fn(u64) -> u64,
)
    ensures
        summary_text(Seq::empty(), micros) == Seq::<char>::empty(),
        summary_text(timestamps.push(timestamp), micros) == summary_text(timestamps, micros)
            + entry_text(timestamp, Seq::empty(), micros) + "\n"@,
{
    assert(timestamps.push(timestamp).drop_last() =~= timestamps);
}

/// The summary of one execution is its text behind the prefix and a line feed,
/// followed by the summaries of those it started, in order, each behind one
/// dash more.
pub proof fn executions_are_summarized_depth_first(
    timestamp: FunctionTimestamp,
    prefix: Seq<char>,
    micros: spec_fn(u64) -> u64,
    n: nat,
)
    requires
        n < timestamp.children@.len(),
    ensures
        ({
            let below = timestamp.children@;
            let longer = prefix + "-"@;
            &&& entry_text(timestamp, prefix, micros) == prefix + timestamp::timestamp_text(
                timestamp,
                micros,
            ) + "\n"@ + entries_text(below, longer, micros, below.len())
            &&& entries_text(below, longer, micros, 0) == Seq::<char>::empty()
            &&& entries_text(below, longer, micros, n + 1) == entries_text(
                below,
                longer,
                micros,
                n,
            ) + entry_text(below[n as int], longer, micros)
        }),
{
}

/// An execution that started no others is summarized by its own text.
pub proof fn leaves_are_summarized_by_their_text(
    timestamp: FunctionTimestamp,
    prefix: Seq<char>,
    micros: spec_fn(u64) -> u64,
)
    requires
        timestamp.children@.len() == 0,
    ensures
        entry_text(timestamp, prefix, micros) == prefix + timestamp::timestamp_text(
            timestamp,
            micros,
        ) + "\n"@,
{
    assert(entry_text(timestamp, prefix, micros) =~= prefix + timestamp::timestamp_text(
        timestamp,
        micros,
    ) + "\n"@);
}

/// Inserting a recorder appends its execution to the archive; resetting empties
/// it.
pub proof fn insertions_append(
    archive: &mut Archive,
    table: &mut TimestampTable,
    recorder: Recorder,
    emptied: &mut Archive,
    i: int,
)
    requires
        call_ensures(Archive::insert_recorder, (archive, table, recorder), ()),
        call_ensures(Archive::reset, (emptied,), ()),
    ensures
        final(archive)@.len() == old(archive)@.len() + 1,
        final(archive)@.last() == recorder.timestamp(old(table)@),
        0 <= i < old(archive)@.len() ==> final(archive)@[i] == old(archive)@[i],
        final(table)@[recorder.slot()] is None,
        final(emptied)@.len() == 0,
{
}

/// The summary after an insertion is the summary before it, followed by the text
/// of the inserted execution with those below it, and an empty line. The summary
/// of an empty archive is empty.
pub proof fn summaries_grow_with_insertions<F: Fn(u64) -> u64>(
    archive: &mut Archive,
    table: &mut TimestampTable,
    recorder: Recorder,
    later: Archive,
    to_micros: F,
    before: String,
    after: String,
)
    requires
        call_ensures(Archive::insert_recorder, (archive, table, recorder), ()),
        call_ensures(Archive::get_summary::<F>, (&*old(archive), &to_micros), before),
        call_ensures(Archive::get_summary::<F>, (&later, &to_micros), after),
    ensures
        old(archive)@.len() == 0 ==> before@.len() == 0,
        later == *final(archive) ==> after@ == before@ + entry_text(
            recorder.timestamp(old(table)@),
            Seq::empty(),
            |cycles: u64| timestamp::value_of(to_micros, cycles),
        ) + "\n"@,
{
    let micros = |cycles: u64| timestamp::value_of(to_micros, cycles);
    summary_grows_with_insertions(old(archive)@, recorder.timestamp(old(table)@), micros);
    if later == *final(archive) {
        assert(later@ =~= old(archive)@.push(recorder.timestamp(old(table)@)));
    }
}

} // verus!
