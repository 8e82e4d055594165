//! The time points of one execution.

use crate::records::point;
use crate::records::point::{record_point_name, RecordPoint, LAST_RECORD_POINT, RECORD_POINT_COUNT};
use crate::records::text;
use vstd::prelude::*;
use vstd::string::*;

verus! {

/// Identifies a function; shown as it is.
pub type FunctionId = String;

/// The time points of one execution, with those of the executions that it started.
#[derive(Debug)]
pub struct FunctionTimestamp {
    /// The function that is executed.
    pub function_id: FunctionId,
    /// The cycle from which the time points count.
    pub creation: u64,
    /// Elapsed cycles at every record point; zero where it was not passed.
    pub time_points: [u64; RECORD_POINT_COUNT],
    /// The executions that this one started.
    pub children: Vec<FunctionTimestamp>,
}

/// The cycles from `creation` to `now`, or zero where `now` is earlier.
pub open spec fn elapsed(creation: u64, now: u64) -> u64 {
    if now >= creation {
        (now - creation) as u64
    } else {
        0
    }
}

impl FunctionTimestamp {
    /// Nothing has been recorded yet.
    pub open spec fn is_fresh(self, function_id: FunctionId, creation: u64) -> bool {
        &&& self.function_id == function_id
        &&& self.creation == creation
        &&& self.time_points@ == Seq::new(RECORD_POINT_COUNT as nat, |i: int| 0u64)
        &&& self.children@.len() == 0
    }

    /// These are the time points of `before`, after `point` was passed at the cycle `now`.
    pub open spec fn records(
        self,
        before: FunctionTimestamp,
        point: RecordPoint,
        now: u64,
    ) -> bool {
        &&& self.function_id == before.function_id
        &&& self.creation == before.creation
        &&& self.time_points@ == before.time_points@.update(
            point.number(),
            elapsed(before.creation, now),
        )
        &&& self.children == before.children
    }

    /// These are the time points of `before`, with more executions below it.
    pub open spec fn adopts(self, before: FunctionTimestamp, more: Seq<FunctionTimestamp>) -> bool {
        &&& self.function_id == before.function_id
        &&& self.creation == before.creation
        &&& self.time_points == before.time_points
        &&& self.children@ == before.children@ + more
    }

    /// Time points that count from the cycle `creation`.
    pub fn new(function_id: FunctionId, creation: u64) -> (timestamp: FunctionTimestamp)
        ensures
            timestamp.is_fresh(function_id, creation),
    {
        let timestamp: FunctionTimestamp = FunctionTimestamp {
            function_id,
            creation,
            time_points: [0u64; RECORD_POINT_COUNT],
            children: Vec::new(),
        };
        assert(timestamp.time_points@ =~= Seq::new(RECORD_POINT_COUNT as nat, |i: int| 0u64));
        timestamp
    }

    /// Notes that a point is passed at the cycle `now`.
    pub fn record(&mut self, current_point: RecordPoint, now: u64)
        ensures
            final(self).records(*old(self), current_point, now),
    {
        let elapsed_cycles: u64 = now.saturating_sub(self.creation);
        self.time_points[current_point.index()] = elapsed_cycles;
    }

    /// Adds an execution that this one started.
    pub fn add_children(&mut self, new_child: FunctionTimestamp)
        ensures
            final(self).adopts(*old(self), seq![new_child]),
    {
        self.children.push(new_child);
        assert(self.children@ =~= old(self).children@ + seq![new_child]);
    }
}

/// The time of a point is the one recorded last for it; recording another point
/// does not change it.
pub proof fn points_keep_their_times(
    before: FunctionTimestamp,
    between: FunctionTimestamp,
    after: FunctionTimestamp,
    first: RecordPoint,
    first_now: u64,
    second: RecordPoint,
    second_now: u64,
)
    requires
        between.records(before, first, first_now),
        after.records(between, second, second_now),
    ensures
        after.time_points@[second.number()] == elapsed(before.creation, second_now),
        first != second ==> after.time_points@[first.number()] == elapsed(
            before.creation,
            first_now,
        ),
        forall|p: RecordPoint|
            p != first && p != second ==> after.time_points@[#[trigger] p.number()]
                == before.time_points@[p.number()],
{
}

/// What the function `f` gives for `cycles`.
pub open spec fn value_of<F: Fn(u64) -> u64>(f: F, cycles: u64) -> u64 {
    choose|value: u64| call_ensures(f, (cycles,), value)
}

/// `f` can be called on every number, and what it gives depends on the number alone.
pub open spec fn is_function<F: Fn(u64) -> u64>(f: F) -> bool {
    &&& forall|cycles: u64| #[trigger] call_requires(f, (cycles,))
    &&& forall|cycles: u64, a: u64, b: u64| #[trigger]
        call_ensures(f, (cycles,), a) && #[trigger] call_ensures(f, (cycles,), b) ==> a == b
}

/// The line for one record point, where `micros` converts cycles to microseconds.
pub open spec fn point_line(index: int, cycles: u64, micros: spec_fn(u64) -> u64) -> Seq<char> {
    "  "@ + point::point_name(index) + ": "@ + text::decimal(cycles as nat) + " cycles ("@
        + text::decimal(micros(cycles) as nat) + " \u{3bc}s)\n"@
}

/// The lines for the first `n` record points.
pub open spec fn points_text(
    time_points: Seq<u64>,
    micros: spec_fn(u64) -> u64,
    n: int,
) -> Seq<char>
    decreases n,
{
    if n <= 0 {
        Seq::empty()
    } else {
        points_text(time_points, micros, n - 1) + point_line(n - 1, time_points[n - 1], micros)
    }
}

/// The text for the time points of an execution: the function, a line for every
/// record point, and the texts for the executions it started, indented.
pub open spec fn timestamp_text(
    timestamp: FunctionTimestamp,
    micros: spec_fn(u64) -> u64,
) -> Seq<char>
    decreases timestamp, 0nat,
{
    "function_id: "@ + timestamp.function_id@ + "\n"@ + points_text(
        timestamp.time_points@,
        micros,
        RECORD_POINT_COUNT as int,
    ) + if timestamp.children@.len() == 0 {
        Seq::empty()
    } else {
        "  children: {\n"@ + children_text(
            timestamp.children@,
            micros,
            timestamp.children@.len(),
        ) + "  }"@
    }
}

/// The indented texts for the first `n` of `children`.
pub open spec fn children_text(
    children: Seq<FunctionTimestamp>,
    micros: spec_fn(u64) -> u64,
    n: nat,
) -> Seq<char>
    decreases children, n,
{
    if n == 0 || n > children.len() {
        Seq::empty()
    } else {
        children_text(children, micros, (n - 1) as nat) + text::indented(
            text::lines(timestamp_text(children[n - 1], micros)),
        )
    }
}

impl FunctionTimestamp {
    /// The text for these time points, where `to_micros` converts cycles to microseconds.
    pub fn fmt<F: Fn(u64) -> u64>(&self, to_micros: &F) -> (out: String)
        requires
            is_function(*to_micros),
        ensures
            out@ == timestamp_text(*self, |cycles: u64| value_of(*to_micros, cycles)),
        decreases *self,
    {
        let ghost micros = |cycles: u64| value_of(*to_micros, cycles);
        let mut out: String = String::new();
        out.append("function_id: ");
        out.append(self.function_id.as_str());
        out.append("\n");
        let ghost head = out@;
        let mut index: usize = 0;
        while index <= LAST_RECORD_POINT
            invariant
                index <= RECORD_POINT_COUNT,
                is_function(*to_micros),
                micros == (|cycles: u64| value_of(*to_micros, cycles)),
                out@ == head + points_text(self.time_points@, micros, index as int),
            decreases RECORD_POINT_COUNT - index,
        {
            let cycles: u64 = self.time_points[index];
            let converted: u64 = to_micros(cycles);
            assert(converted == micros(cycles));
            let ghost before = out@;
            out.append("  ");
            out.append(record_point_name(index));
            out.append(": ");
            text::push_decimal(&mut out, cycles);
            out.append(" cycles (");
            text::push_decimal(&mut out, converted);
            out.append(" \u{3bc}s)\n");
            assert(out@ =~= before + point_line(index as int, cycles, micros));
            assert(out@ =~= head + points_text(self.time_points@, micros, index + 1));
            index = index + 1;
        }
        let ghost own = out@;
        if !self.children.is_empty() {
            out.append("  children: {\n");
            let mut n: usize = 0;
            while n < self.children.len()
                invariant
                    n <= self.children@.len(),
                    is_function(*to_micros),
                    micros == (|cycles: u64| value_of(*to_micros, cycles)),
                    out@ == own + "  children: {\n"@ + children_text(
                        self.children@,
                        micros,
                        n as nat,
                    ),
                decreases self.children@.len() - n,
            {
                let child_str: String = self.children[n].fmt(to_micros);
                text::push_indented(&mut out, child_str.as_str());
                assert(out@ =~= own + "  children: {\n"@ + children_text(
                    self.children@,
                    micros,
                    (n + 1) as nat,
                ));
                n = n + 1;
            }
            out.append("  }");
        }
        assert(out@ =~= timestamp_text(*self, micros));
        out
    }
}

/// The time of a point is the number of cycles since the creation, or zero for
/// a reading of the clock before it.
pub proof fn times_count_from_the_creation(
    before: FunctionTimestamp,
    after: FunctionTimestamp,
    current_point: RecordPoint,
    now: u64,
    other: RecordPoint,
)
    requires
        after.records(before, current_point, now),
    ensures
        now >= before.creation ==> after.time_points@[current_point.number()] == now
            - before.creation,
        now < before.creation ==> after.time_points@[current_point.number()] == 0,
        other != current_point ==> after.time_points@[other.number()]
            == before.time_points@[other.number()],
        after.function_id@ == before.function_id@,
        after.creation == before.creation,
        after.children@ == before.children@,
{
}

/// A new execution has the given function and creation, no time recorded and
/// none below it.
pub proof fn nothing_is_recorded_at_first(
    timestamp: FunctionTimestamp,
    function_id: FunctionId,
    creation: u64,
    point: RecordPoint,
)
    requires
        timestamp.is_fresh(function_id, creation),
    ensures
        timestamp.function_id@ == function_id@,
        timestamp.creation == creation,
        timestamp.time_points@[point.number()] == 0,
        timestamp.children@.len() == 0,
{
}

/// Adopting executions puts them behind those that are there, in their order,
/// and changes nothing else.
pub proof fn executions_are_adopted_in_order(
    before: FunctionTimestamp,
    after: FunctionTimestamp,
    more: Seq<FunctionTimestamp>,
    i: int,
    point: RecordPoint,
)
    requires
        after.adopts(before, more),
    ensures
        after.children@.len() == before.children@.len() + more.len(),
        0 <= i < before.children@.len() ==> after.children@[i] == before.children@[i],
        0 <= i < more.len() ==> after.children@[before.children@.len() + i] == more[i],
        after.function_id@ == before.function_id@,
        after.creation == before.creation,
        after.time_points@[point.number()] == before.time_points@[point.number()],
{
}

/// What a conversion is said to give is what it gives.
pub proof fn conversions_give_their_value<F: Fn(u64) -> u64>(f: F, cycles: u64, value: u64)
    requires
        is_function(f),
        call_ensures(f, (cycles,), value),
    ensures
        value_of(f, cycles) == value,
{
}

/// The lines for the points follow each other in the order of the points. Each
/// shows the name of its point, its cycles, and what they are in microseconds.
pub proof fn point_lines_follow_each_other(
    time_points: Seq<u64>,
    micros: spec_fn(u64) -> u64,
    point: RecordPoint,
)
    ensures
        ({
            let n = point.number();
            let cycles = time_points[n];
            &&& points_text(time_points, micros, 0) == Seq::<char>::empty()
            &&& points_text(time_points, micros, n + 1) == points_text(time_points, micros, n) + (
            "  "@ + point::point_name(n) + ": "@ + text::decimal(cycles as nat) + " cycles ("@
                + text::decimal(micros(cycles) as nat) + " \u{3bc}s)\n"@)
        }),
{
    point::points_are_numbered_apart(point, point);
}

/// The text for an execution: a line with its function, the lines for all
/// points and, where it started executions, their texts in a block.
pub proof fn text_of_an_execution(timestamp: FunctionTimestamp, micros: spec_fn(u64) -> u64)
    ensures
        ({
            let own = "function_id: "@ + timestamp.function_id@ + "\n"@ + points_text(
                timestamp.time_points@,
                micros,
                18,
            );
            let n = timestamp.children@.len();
            &&& n == 0 ==> timestamp_text(timestamp, micros) == own
            &&& n > 0 ==> timestamp_text(timestamp, micros) == own + "  children: {\n"@
                + children_text(timestamp.children@, micros, n) + "  }"@
        }),
{
    let own = "function_id: "@ + timestamp.function_id@ + "\n"@ + points_text(
        timestamp.time_points@,
        micros,
        18,
    );
    let n = timestamp.children@.len();
    if n == 0 {
        assert(timestamp_text(timestamp, micros) =~= own);
    } else {
        assert(timestamp_text(timestamp, micros) =~= own + "  children: {\n"@ + children_text(
            timestamp.children@,
            micros,
            n,
        ) + "  }"@);
    }
}

/// The block of texts below an execution holds the text of each in turn, line by
/// line behind four spaces.
pub proof fn texts_below_follow_each_other(
    children: Seq<FunctionTimestamp>,
    micros: spec_fn(u64) -> u64,
    n: nat,
)
    requires
        n < children.len(),
    ensures
        children_text(children, micros, 0) == Seq::<char>::empty(),
        children_text(children, micros, n + 1) == children_text(children, micros, n)
            + text::indented(text::lines(timestamp_text(children[n as int], micros))),
{
}

proof fn lemma_children_prefix(
    a: Seq<FunctionTimestamp>,
    b: Seq<FunctionTimestamp>,
    micros: spec_fn(u64) -> u64,
    n: nat,
)
    requires
        n <= a.len(),
        n <= b.len(),
        forall|i: int| 0 <= i < n ==> #[trigger] a[i] == b[i],
    ensures
        children_text(a, micros, n) == children_text(b, micros, n),
    decreases n,
{
    if n > 0 {
        lemma_children_prefix(a, b, micros, (n - 1) as nat);
        assert(a[n - 1] == b[n - 1]);
    }
}

/// Adopting an execution adds its indented text at the end of the block and
/// leaves the rest of the text as it was.
pub proof fn adopting_extends_the_text(
    before: FunctionTimestamp,
    after: FunctionTimestamp,
    child: FunctionTimestamp,
    micros: spec_fn(u64) -> u64,
)
    requires
        after.adopts(before, seq![child]),
    ensures
        ({
            let added = text::indented(text::lines(timestamp_text(child, micros)));
            let n = before.children@.len();
            &&& n == 0 ==> timestamp_text(after, micros) == timestamp_text(before, micros)
                + "  children: {\n"@ + added + "  }"@
            &&& n > 0 ==> exists|kept: Seq<char>|
                #![trigger kept + "  }"@]
                timestamp_text(before, micros) == kept + "  }"@ && timestamp_text(after, micros)
                    == kept + added + "  }"@
        }),
{
    let added = text::indented(text::lines(timestamp_text(child, micros)));
    let n = before.children@.len();
    text_of_an_execution(before, micros);
    text_of_an_execution(after, micros);
    let own = "function_id: "@ + before.function_id@ + "\n"@ + points_text(
        before.time_points@,
        micros,
        18,
    );
    assert(after.children@.len() == n + 1);
    assert(after.children@[n as int] == child);
    texts_below_follow_each_other(after.children@, micros, n);
    lemma_children_prefix(after.children@, before.children@, micros, n);
    let kept = own + "  children: {\n"@ + children_text(before.children@, micros, n);
    if n == 0 {
        assert(timestamp_text(after, micros) =~= own + "  children: {\n"@ + added + "  }"@);
    } else {
        assert(timestamp_text(before, micros) =~= kept + "  }"@);
        assert(timestamp_text(after, micros) =~= kept + added + "  }"@);
    }
}

proof fn lemma_points_prefix(time_points: Seq<u64>, micros: spec_fn(u64) -> u64, n: int, m: int)
    -> (rest: Seq<char>)
    requires
        0 <= n <= m,
    ensures
        points_text(time_points, micros, m) == points_text(time_points, micros, n) + rest,
    decreases m,
{
    if n == m {
        assert(points_text(time_points, micros, m) =~= points_text(time_points, micros, n)
            + Seq::<char>::empty());
        Seq::empty()
    } else {
        let shorter = lemma_points_prefix(time_points, micros, n, m - 1);
        let rest = shorter + point_line(m - 1, time_points[m - 1], micros);
        assert(points_text(time_points, micros, m) =~= points_text(time_points, micros, n) + rest);
        rest
    }
}

/// After a point was recorded, the text for the execution has a line with the
/// name of that point and the cycles from the creation to the recording.
pub proof fn recorded_times_are_shown(
    before: FunctionTimestamp,
    after: FunctionTimestamp,
    current_point: RecordPoint,
    now: u64,
    micros: spec_fn(u64) -> u64,
)
    requires
        after.records(before, current_point, now),
        now >= before.creation,
    ensures
        ({
            let cycles = (now - before.creation) as u64;
            let line = "  "@ + point::point_name(current_point.number()) + ": "@ + text::decimal(
                cycles as nat,
            ) + " cycles ("@ + text::decimal(micros(cycles) as nat) + " \u{3bc}s)\n"@;
            exists|earlier: Seq<char>, later: Seq<char>|
                timestamp_text(after, micros) == #[trigger] (earlier + line + later)
        }),
{
    let cycles = (now - before.creation) as u64;
    let n = current_point.number();
    let line = "  "@ + point::point_name(n) + ": "@ + text::decimal(cycles as nat) + " cycles ("@
        + text::decimal(micros(cycles) as nat) + " \u{3bc}s)\n"@;
    point::points_are_numbered_apart(current_point, current_point);
    point_lines_follow_each_other(after.time_points@, micros, current_point);
    text_of_an_execution(after, micros);
    let head = "function_id: "@ + after.function_id@ + "\n"@;
    let earlier = head + points_text(after.time_points@, micros, n);
    let rest = lemma_points_prefix(after.time_points@, micros, n + 1, 18);
    let block = if after.children@.len() == 0 {
        Seq::empty()
    } else {
        "  children: {\n"@ + children_text(after.children@, micros, after.children@.len()) + "  }"@
    };
    let later = rest + block;
    assert(timestamp_text(after, micros) =~= earlier + line + later);
}

/// Recording a point sets its time to the cycles since the creation, zero if the
/// clock is before it, and changes nothing else.
pub proof fn recording_sets_one_time(
    timestamp: &mut FunctionTimestamp,
    current_point: RecordPoint,
    now: u64,
    other: RecordPoint,
)
    requires
        call_ensures(FunctionTimestamp::record, (timestamp, current_point, now), ()),
    ensures
        now >= old(timestamp).creation ==> final(timestamp).time_points@[current_point.number()]
            == now - old(timestamp).creation,
        now < old(timestamp).creation ==> final(timestamp).time_points@[current_point.number()]
            == 0,
        other != current_point ==> final(timestamp).time_points@[other.number()] == old(timestamp).time_points@[other.number()],
        final(timestamp).function_id@ == old(timestamp).function_id@,
        final(timestamp).creation == old(timestamp).creation,
        final(timestamp).children@ == old(timestamp).children@,
{
}

/// What is shown of an execution after a point was recorded has a line with the
/// name of the point, the cycles since the creation, and what the conversion
/// gives for them.
pub proof fn recorded_points_are_shown<F: Fn(u64) -> u64>(
    timestamp: &mut FunctionTimestamp,
    current_point: RecordPoint,
    now: u64,
    recorded: FunctionTimestamp,
    to_micros: F,
    micros: u64,
    out: String,
)
    requires
        call_ensures(FunctionTimestamp::record, (timestamp, current_point, now), ()),
        call_ensures(FunctionTimestamp::fmt::<F>, (&recorded, &to_micros), out),
        is_function(to_micros),
        now >= old(timestamp).creation,
        call_ensures(to_micros, ((now - old(timestamp).creation) as u64,), micros),
    ensures
        recorded == *final(timestamp) ==> ({
            let line = "  "@ + point::point_name(current_point.number()) + ": "@ + text::decimal(
                (now - old(timestamp).creation) as nat,
            ) + " cycles ("@ + text::decimal(micros as nat) + " \u{3bc}s)\n"@;
            exists|earlier: Seq<char>, later: Seq<char>| out@ == #[trigger] (earlier + line + later)
        }),
{
    let convert = |cycles: u64| value_of(to_micros, cycles);
    if recorded == *final(timestamp) {
        recorded_times_are_shown(*old(timestamp), recorded, current_point, now, convert);
        let cycles = (now - old(timestamp).creation) as u64;
        assert(convert(cycles) == micros);
        let shown = "  "@ + point::point_name(current_point.number()) + ": "@ + text::decimal(
            cycles as nat,
        ) + " cycles ("@ + text::decimal(convert(cycles) as nat) + " \u{3bc}s)\n"@;
        let (earlier, later) = choose|earlier: Seq<char>, later: Seq<char>|
            timestamp_text(recorded, convert) == #[trigger] (earlier + shown + later);
        let line = "  "@ + point::point_name(current_point.number()) + ": "@ + text::decimal(
            (now - old(timestamp).creation) as nat,
        ) + " cycles ("@ + text::decimal(micros as nat) + " \u{3bc}s)\n"@;
        assert(line == shown);
        assert(out@ == earlier + line + later);
    }
}

/// A new execution is of the given function, counts from the given cycle, has
/// nothing recorded, and none below it.
pub proof fn new_executions_are_blank(
    function_id: FunctionId,
    creation: u64,
    timestamp: FunctionTimestamp,
    point: RecordPoint,
)
    requires
        call_ensures(FunctionTimestamp::new, (function_id, creation), timestamp),
    ensures
        timestamp.function_id@ == function_id@,
        timestamp.creation == creation,
        timestamp.time_points@[point.number()] == 0,
        timestamp.children@.len() == 0,
{
    nothing_is_recorded_at_first(timestamp, function_id, creation, point);
}

/// An execution that is added below another is the last one there.
pub proof fn added_executions_come_last(
    timestamp: &mut FunctionTimestamp,
    new_child: FunctionTimestamp,
    i: int,
)
    requires
        call_ensures(FunctionTimestamp::add_children, (timestamp, new_child), ()),
    ensures
        final(timestamp).children@.len() == old(timestamp).children@.len() + 1,
        final(timestamp).children@.last() == new_child,
        0 <= i < old(timestamp).children@.len() ==> final(timestamp).children@[i] == old(timestamp).children@[i],
        final(timestamp).time_points@ == old(timestamp).time_points@,
        final(timestamp).function_id@ == old(timestamp).function_id@,
        final(timestamp).creation == old(timestamp).creation,
{
}

/// What is shown of an execution is a line with its function, the lines for all
/// points and, where it started others, the block of their texts.
pub proof fn executions_are_shown<F: Fn(u64) -> u64>(
    timestamp: FunctionTimestamp,
    to_micros: F,
    out: String,
)
    requires
        call_ensures(FunctionTimestamp::fmt::<F>, (&timestamp, &to_micros), out),
    ensures
        ({
            let micros = |cycles: u64| value_of(to_micros, cycles);
            let own = "function_id: "@ + timestamp.function_id@ + "\n"@ + points_text(
                timestamp.time_points@,
                micros,
                18,
            );
            let n = timestamp.children@.len();
            &&& n == 0 ==> out@ == own
            &&& n > 0 ==> out@ == own + "  children: {\n"@ + children_text(
                timestamp.children@,
                micros,
                n,
            ) + "  }"@
        }),
{
    text_of_an_execution(timestamp, |cycles: u64| value_of(to_micros, cycles));
}

} // verus!
