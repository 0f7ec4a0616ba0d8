//! How long the stages of an export take.

use crate::text::{decimal, decimal_text};
use vstd::prelude::*;

verus! {

/// The file that a trace is written to.
pub const PERFORMANCE_FILE: &'static str = "performance_export.tsv";

/// The whole microseconds between two readings of a clock, in nanoseconds. A later
/// reading that is smaller counts as no time.
pub open spec fn micros_between(earlier: nat, later: nat) -> nat {
    if earlier <= later {
        ((later - earlier) / 1000) as nat
    } else {
        0
    }
}

/// A line of a trace.
pub open spec fn trace_line(stage: Seq<char>, micros: nat) -> Seq<char> {
    stage + "\t"@ + decimal(micros) + "\n"@
}

/// The lines of stages and their durations.
pub open spec fn trace_lines(rows: Seq<(Seq<char>, nat)>) -> Seq<char>
    decreases rows.len(),
{
    if rows.len() == 0 {
        Seq::empty()
    } else {
        trace_lines(rows.drop_last()) + trace_line(rows.last().0, rows.last().1)
    }
}

/// The durations of the stages of an export that is under way. Times are readings of
/// a clock in nanoseconds.
pub struct ExportTrace {
    started: u128,
    previous: u128,
    rows: Vec<(&'static str, u128)>,
}

fn elapsed_micros(earlier: u128, later: u128) -> (micros: u128)
    ensures
        micros == micros_between(earlier as nat, later as nat),
{
    if earlier <= later {
        (later - earlier) / 1000
    } else {
        0
    }
}

impl ExportTrace {
    /// When the export began.
    pub closed spec fn start(self) -> nat {
        self.started as nat
    }

    /// When the last stage ended.
    pub closed spec fn last(self) -> nat {
        self.previous as nat
    }

    /// The stages so far and their durations in microseconds.
    pub closed spec fn stages(self) -> Seq<(Seq<char>, nat)> {
        self.rows@.map_values(|row: (&'static str, u128)| (row.0@, row.1 as nat))
    }

    /// A trace that begins now.
    pub fn new(now: u128) -> (trace: Self)
        ensures
            trace.start() == now,
            trace.last() == now,
            trace.stages() == Seq::<(Seq<char>, nat)>::empty(),
    {
        let trace = ExportTrace { started: now, previous: now, rows: Vec::new() };
        assert(trace.stages() =~= Seq::<(Seq<char>, nat)>::empty());
        trace
    }

    /// Ends a stage: its time runs from the end of the stage before it.
    pub fn mark(&mut self, stage: &'static str, now: u128)
        ensures
            final(self).start() == old(self).start(),
            final(self).last() == now,
            final(self).stages() == old(self).stages().push(
                (stage@, micros_between(old(self).last(), now as nat)),
            ),
    {
        self.rows.push((stage, elapsed_micros(self.previous, now)));
        self.previous = now;
        assert(self.stages() =~= old(self).stages().push(
            (stage@, micros_between(old(self).last(), now as nat)),
        ));
    }

    /// The trace as it is written: a header, the stages, and the time of the whole
    /// export.
    pub fn finish(self, now: u128) -> (contents: String)
        ensures
            contents@ == "stage\tduration_us\n"@ + trace_lines(
                self.stages().push(
                    ("export_total"@, micros_between(self.start(), now as nat)),
                ),
            ),
    {
        let ghost all = self.stages().push(
            ("export_total"@, micros_between(self.start(), now as nat)),
        );
        let mut rows = self.rows;
        rows.push(("export_total", elapsed_micros(self.started, now)));
        let mut contents = "stage\tduration_us\n".to_string();
        let mut i: usize = 0;
        assert(all.take(0) =~= Seq::<(Seq<char>, nat)>::empty());
        while i < rows.len()
            invariant
                i <= rows.len(),
                all.len() == rows.len(),
                forall|j: int|
                    0 <= j < rows.len() ==> #[trigger] all[j] == (rows[j].0@, rows[j].1 as nat),
                contents@ == "stage\tduration_us\n"@ + trace_lines(all.take(i as int)),
            decreases rows.len() - i,
        {
            assert(all.take(i + 1).drop_last() == all.take(i as int));
            assert(all.take(i + 1).last() == (rows[i as int].0@, rows[i as int].1 as nat));
            let ghost before = contents@;
            let duration = decimal_text(rows[i].1);
            contents.append(rows[i].0);
            contents.append("\t");
            contents.append(duration.as_str());
            contents.append("\n");
            i += 1;
            assert(contents@ =~= before + trace_line(rows[i - 1].0@, rows[i - 1].1 as nat));
        }
        assert(all.take(i as int) == all);
        contents
    }
}

/// Ends a stage where an export is traced.
pub fn mark_trace(trace: &mut Option<ExportTrace>, stage: &'static str, now: u128)
    ensures
        match *old(trace) {
            Some(before) => {
                &&& *final(trace) is Some
                &&& (*final(trace))->0.start() == before.start()
                &&& (*final(trace))->0.last() == now
                &&& (*final(trace))->0.stages() == before.stages().push(
                    (stage@, micros_between(before.last(), now as nat)),
                )
            },
            None => *final(trace) is None,
        },
{
    if let Some(running) = trace {
        running.mark(stage, now);
    }
}

/// The durations of stages that end at readings of a clock, the first of which is the
/// start of the export.
pub open spec fn stage_durations(readings: Seq<nat>) -> Seq<nat>
    decreases readings.len(),
{
    if readings.len() <= 1 {
        Seq::empty()
    } else {
        stage_durations(readings.drop_last()).push(
            micros_between(readings[readings.len() - 2], readings.last()),
        )
    }
}

/// The sum of durations.
pub open spec fn sum(durations: Seq<nat>) -> nat
    decreases durations.len(),
{
    if durations.len() == 0 {
        0
    } else {
        sum(durations.drop_last()) + durations.last()
    }
}

/// The stages of an export never take longer than the export: with a clock that does
/// not run backwards, their durations add up to no more than the total.
pub proof fn law_stages_fit_in_the_total(readings: Seq<nat>, end: nat)
    requires
        readings.len() > 0,
        forall|i: int, j: int| 0 <= i <= j < readings.len() ==> readings[i] <= readings[j],
        readings.last() <= end,
    ensures
        sum(stage_durations(readings)) <= micros_between(readings[0], end),
    decreases readings.len(),
{
    if readings.len() > 1 {
        let start = readings.drop_last();
        let last = readings.last();
        let previous = readings[readings.len() - 2];
        assert(start.last() == previous);
        law_stages_fit_in_the_total(start, previous);
        let durations = stage_durations(readings);
        assert(durations.drop_last() =~= stage_durations(start));
        assert(durations.last() == micros_between(previous, last));
        assert(readings[0] <= previous <= last);
    } else {
        assert(stage_durations(readings).len() == 0);
    }
}

/// The duration of a stage is the time between the readings in whole microseconds, and
/// no time where the clock ran backwards.
pub proof fn law_durations_are_whole_microseconds(earlier: nat, later: nat)
    ensures
        earlier <= later ==> 1000 * micros_between(earlier, later) <= later - earlier < 1000 * (
        micros_between(earlier, later) + 1),
        later < earlier ==> micros_between(earlier, later) == 0,
{
}

/// A trace has one line per stage, in order: to write stages and then others is to write
/// the first and then the others.
pub proof fn law_traces_are_written_in_order(
    rows: Seq<(Seq<char>, nat)>,
    others: Seq<(Seq<char>, nat)>,
    row: (Seq<char>, nat),
)
    ensures
        trace_lines(Seq::empty()) == Seq::<char>::empty(),
        trace_lines(seq![row]) == row.0 + seq!['\t'] + decimal(row.1) + seq!['\n'],
        trace_lines(rows + others) == trace_lines(rows) + trace_lines(others),
    decreases others.len(),
{
    reveal_strlit("\t");
    reveal_strlit("\n");
    assert("\t"@ =~= seq!['\t']);
    assert("\n"@ =~= seq!['\n']);
    assert(seq![row].drop_last() =~= Seq::<(Seq<char>, nat)>::empty());
    reveal_with_fuel(trace_lines, 2);
    assert(trace_lines(seq![row]) =~= row.0 + seq!['\t'] + decimal(row.1) + seq!['\n']);
    if others.len() > 0 {
        law_traces_are_written_in_order(rows, others.drop_last(), row);
        assert((rows + others).drop_last() =~= rows + others.drop_last());
        assert(trace_lines(rows + others) =~= trace_lines(rows) + trace_lines(others));
    } else {
        assert(rows + others =~= rows);
        assert(trace_lines(rows) + trace_lines(others) =~= trace_lines(rows));
    }
}

} // verus!
