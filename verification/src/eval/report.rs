//! The report of an evaluation: one row for each scenario, as Markdown or CSV.

use vstd::prelude::*;
use std::time::Duration;
use crate::clock;
use crate::eval::harness::ScenarioOutcome;
use crate::handoff::BrowserStatus;
use crate::text;

verus! {

/// The figures of one scenario.
#[derive(Debug)]
pub struct RunMetrics {
    pub scenario_id: String,
    pub passed: bool,
    pub status: BrowserStatus,
    pub subtask_count: usize,
    pub step_count: u32,
    pub elapsed: Duration,
    /// The names of the interruptions that were found.
    pub failure_modes_hit: Vec<String>,
    /// Why the scenario did not pass, empty where it did.
    pub failure_reason: String,
    pub chat_reply: String,
}

impl RunMetrics {
    /// Whether the figures are those of an outcome.
    pub open spec fn of(self, o: ScenarioOutcome) -> bool {
        &&& self.scenario_id == o.scenario_id
        &&& self.passed == o.passed
        &&& self.status == o.status
        &&& self.subtask_count == o.subtask_count
        &&& self.step_count == o.step_count
        &&& self.failure_modes_hit@ == o.failure_modes_hit@
        &&& self.failure_reason == o.failure_reason
        &&& self.chat_reply == o.chat_reply
    }

    pub fn from_outcome(o: &ScenarioOutcome, elapsed: Duration) -> (r: Self)
        ensures
            r.of(*o),
            r.elapsed == elapsed,
    {
        RunMetrics {
            scenario_id: o.scenario_id.clone(),
            passed: o.passed,
            status: o.status,
            subtask_count: o.subtask_count,
            step_count: o.step_count,
            elapsed,
            failure_modes_hit: text::copy_list(&o.failure_modes_hit),
            failure_reason: o.failure_reason.clone(),
            chat_reply: o.chat_reply.clone(),
        }
    }
}

/// The rows of one run.
#[derive(Debug)]
pub struct EvalReport {
    pub started_at_unix_secs: u64,
    pub rows: Vec<RunMetrics>,
}

/// How many rows passed.
pub open spec fn passes(rows: Seq<RunMetrics>) -> nat
    decreases rows.len(),
{
    if rows.len() == 0 {
        0
    } else {
        passes(rows.drop_last()) + if rows.last().passed {
            1nat
        } else {
            0nat
        }
    }
}

/// The nanoseconds of all rows.
pub open spec fn nanos(rows: Seq<RunMetrics>) -> nat
    decreases rows.len(),
{
    if rows.len() == 0 {
        0
    } else {
        nanos(rows.drop_last()) + clock::duration_nanos(rows.last().elapsed)
    }
}

proof fn lemma_nanos_prefix(rows: Seq<RunMetrics>, n: int)
    requires
        0 <= n <= rows.len(),
    ensures
        nanos(rows.take(n)) <= nanos(rows),
    decreases rows.len(),
{
    if n < rows.len() {
        lemma_nanos_prefix(rows.drop_last(), n);
        assert(rows.drop_last().take(n) == rows.take(n));
    } else {
        assert(rows.take(n) == rows);
    }
}

pub open spec fn millis_text(d: Duration) -> Seq<char> {
    text::decimal(clock::duration_nanos(d) / 1_000_000)
}

/// One row of the Markdown table.
pub open spec fn markdown_row(r: RunMetrics) -> Seq<char> {
    "| "@ + r.scenario_id@ + " | "@ + (if r.passed {
        "✓"@
    } else {
        "✗"@
    }) + " | "@ + r.status.spec_name() + " | "@ + text::decimal(r.subtask_count as nat) + " | "@
        + text::decimal(r.step_count as nat) + " | "@ + millis_text(r.elapsed) + " | "@
        + text::joined(text::views(r.failure_modes_hit@), ", "@) + " |\n"@
}

/// The head of the Markdown table and its first `n` rows.
pub open spec fn markdown_rows(rows: Seq<RunMetrics>, n: nat) -> Seq<char>
    decreases n,
{
    if n == 0 {
        "| Scenario | Passed | Status | Subtasks | Steps | Elapsed (ms) | Failure modes |\n"@
            + "| --- | --- | --- | --- | --- | --- | --- |\n"@
    } else {
        markdown_rows(rows, (n - 1) as nat) + markdown_row(rows[n - 1])
    }
}

/// The Markdown report, with the pass rate in percent as given.
pub open spec fn markdown_text(rows: Seq<RunMetrics>, percent: Seq<char>) -> Seq<char> {
    let table = markdown_rows(rows, rows.len());
    if rows.len() == 0 {
        table
    } else {
        table + "\n**Pass rate**: "@ + percent + "% ("@ + text::decimal(passes(rows)) + "/"@
            + text::decimal(rows.len()) + ")  |  **Total time**: "@ + text::decimal(
            nanos(rows) / 1_000_000,
        ) + " ms\n"@
    }
}

/// `s` with every double quote doubled.
pub open spec fn doubled(s: Seq<char>) -> Seq<char>
    decreases s.len(),
{
    if s.len() == 0 {
        s
    } else if s.last() == '"' {
        doubled(s.drop_last()).push('"').push('"')
    } else {
        doubled(s.drop_last()).push(s.last())
    }
}

/// Whether a CSV field has to stand in quotes.
pub open spec fn needs_quotes(s: Seq<char>) -> bool {
    s.contains(',') || s.contains('"') || s.contains('\n')
}

/// A text as a CSV field.
pub open spec fn csv_field(s: Seq<char>) -> Seq<char> {
    if needs_quotes(s) {
        "\""@ + doubled(s) + "\""@
    } else {
        s
    }
}

/// One row of the CSV report.
pub open spec fn csv_row(r: RunMetrics) -> Seq<char> {
    r.scenario_id@ + ","@ + (if r.passed {
        "true"@
    } else {
        "false"@
    }) + ","@ + r.status.spec_name() + ","@ + text::decimal(r.subtask_count as nat) + ","@
        + text::decimal(r.step_count as nat) + ","@ + millis_text(r.elapsed) + ","@ + text::joined(
        text::views(r.failure_modes_hit@),
        ";"@,
    ) + ","@ + csv_field(r.failure_reason@) + "\n"@
}

/// The head of the CSV report and its first `n` rows.
pub open spec fn csv_rows(rows: Seq<RunMetrics>, n: nat) -> Seq<char>
    decreases n,
{
    if n == 0 {
        "scenario_id,passed,status,subtask_count,step_count,elapsed_ms,failure_modes_hit,failure_reason\n"@
    } else {
        csv_rows(rows, (n - 1) as nat) + csv_row(rows[n - 1])
    }
}

/// Renders a text as a CSV field.
pub fn escape_csv(s: &str) -> (r: String)
    ensures
        r@ == csv_field(s@),
{
    let v = text::chars_of(s);
    let mut quoted = false;
    let mut out = String::new();
    let mut i: usize = 0;
    while i < v.len()
        invariant
            v@ == s@,
            i <= v@.len(),
            out@ == doubled(v@.take(i as int)),
            quoted == exists|j: int|
                0 <= j < i && (#[trigger] s@[j] == ',' || s@[j] == '"' || s@[j] == '\n'),
        decreases v@.len() - i,
    {
        let c = v[i];
        assert(v@.take(i + 1).drop_last() == v@.take(i as int));
        assert(v@.take(i + 1).last() == c);
        assert(s@[i as int] == c);
        if c == ',' || c == '"' || c == '\n' {
            quoted = true;
        }
        out.push(c);
        if c == '"' {
            out.push(c);
        }
        i += 1;
    }
    assert(v@.take(v@.len() as int) == v@);
    proof {
        if needs_quotes(s@) {
            let c = if s@.contains(',') {
                ','
            } else if s@.contains('"') {
                '"'
            } else {
                '\n'
            };
            let j = s@.index_of(c);
            assert(s@[j] == c);
        }
    }
    if quoted {
        let mut r = text::owned("\"");
        r.append(out.as_str());
        r.append("\"");
        r
    } else {
        text::owned(s)
    }
}

impl EvalReport {
    pub fn new(started_at_unix_secs: u64) -> (r: Self)
        ensures
            r.started_at_unix_secs == started_at_unix_secs,
            r.rows@ == Seq::<RunMetrics>::empty(),
    {
        EvalReport { started_at_unix_secs, rows: Vec::new() }
    }

    pub fn push(&mut self, m: RunMetrics)
        ensures
            final(self).started_at_unix_secs == old(self).started_at_unix_secs,
            final(self).rows@ == old(self).rows@.push(m),
    {
        self.rows.push(m);
    }

    /// How many rows passed.
    pub fn passed(&self) -> (r: usize)
        ensures
            r == passes(self.rows@),
            r <= self.rows@.len(),
    {
        let mut n: usize = 0;
        let mut i: usize = 0;
        while i < self.rows.len()
            invariant
                i <= self.rows@.len(),
                n <= i,
                n == passes(self.rows@.take(i as int)),
            decreases self.rows@.len() - i,
        {
            assert(self.rows@.take(i + 1).drop_last() == self.rows@.take(i as int));
            assert(self.rows@.take(i + 1).last() == self.rows@[i as int]);
            if self.rows[i].passed {
                n += 1;
            }
            i += 1;
        }
        assert(self.rows@.take(self.rows@.len() as int) == self.rows@);
        n
    }

    /// The time of all rows.
    pub fn total_elapsed(&self) -> (r: Duration)
        requires
            clock::fits_duration(nanos(self.rows@)),
        ensures
            clock::duration_nanos(r) == nanos(self.rows@),
    {
        let mut total = Duration::from_millis(0);
        let mut i: usize = 0;
        while i < self.rows.len()
            invariant
                i <= self.rows@.len(),
                clock::fits_duration(nanos(self.rows@)),
                clock::duration_nanos(total) == nanos(self.rows@.take(i as int)),
            decreases self.rows@.len() - i,
        {
            proof {
                assert(self.rows@.take(i + 1).drop_last() == self.rows@.take(i as int));
                assert(self.rows@.take(i + 1).last() == self.rows@[i as int]);
                lemma_nanos_prefix(self.rows@, i + 1);
                assert(nanos(self.rows@.take(i + 1)) / 1_000_000_000 <= nanos(self.rows@)
                    / 1_000_000_000) by (nonlinear_arith)
                    requires
                        nanos(self.rows@.take(i + 1)) <= nanos(self.rows@),
                ;
            }
            match total.checked_add(self.rows[i].elapsed) {
                Some(next) => {
                    total = next;
                },
                None => {
                    assert(false);
                },
            }
            i += 1;
        }
        assert(self.rows@.take(self.rows@.len() as int) == self.rows@);
        total
    }

    /// Renders the report as a Markdown table. `percent` is the pass rate, in
    /// percent and rounded.
    pub fn to_markdown(&self, percent: &str) -> (r: String)
        requires
            clock::fits_duration(nanos(self.rows@)),
        ensures
            r@ == markdown_text(self.rows@, percent@),
    {
        let mut out = text::owned(
            "| Scenario | Passed | Status | Subtasks | Steps | Elapsed (ms) | Failure modes |\n",
        );
        out.append("| --- | --- | --- | --- | --- | --- | --- |\n");
        let mut i: usize = 0;
        while i < self.rows.len()
            invariant
                i <= self.rows@.len(),
                out@ == markdown_rows(self.rows@, i as nat),
            decreases self.rows@.len() - i,
        {
            let r = &self.rows[i];
            let mut row = text::owned("| ");
            row.append(r.scenario_id.as_str());
            row.append(" | ");
            if r.passed {
                row.append("✓");
            } else {
                row.append("✗");
            }
            row.append(" | ");
            row.append(r.status.as_str());
            row.append(" | ");
            row.append(text::decimal_of(r.subtask_count as u64).as_str());
            row.append(" | ");
            row.append(text::decimal_of(r.step_count as u64).as_str());
            row.append(" | ");
            row.append(text::decimal_of_long(r.elapsed.as_millis()).as_str());
            row.append(" | ");
            row.append(text::join(&r.failure_modes_hit, ", ").as_str());
            row.append(" |\n");
            out.append(row.as_str());
            i += 1;
        }
        if self.rows.len() > 0 {
            out.append("\n**Pass rate**: ");
            out.append(percent);
            out.append("% (");
            out.append(text::decimal_of(self.passed() as u64).as_str());
            out.append("/");
            out.append(text::decimal_of(self.rows.len() as u64).as_str());
            out.append(")  |  **Total time**: ");
            out.append(text::decimal_of_long(self.total_elapsed().as_millis()).as_str());
            out.append(" ms\n");
        }
        out
    }

    /// Renders the report as CSV.
    pub fn to_csv(&self) -> (r: String)
        ensures
            r@ == csv_rows(self.rows@, self.rows@.len()),
    {
        let mut out = text::owned(
            "scenario_id,passed,status,subtask_count,step_count,elapsed_ms,failure_modes_hit,failure_reason\n",
        );
        let mut i: usize = 0;
        while i < self.rows.len()
            invariant
                i <= self.rows@.len(),
                out@ == csv_rows(self.rows@, i as nat),
            decreases self.rows@.len() - i,
        {
            let r = &self.rows[i];
            let mut row = r.scenario_id.clone();
            row.append(",");
            if r.passed {
                row.append("true");
            } else {
                row.append("false");
            }
            row.append(",");
            row.append(r.status.as_str());
            row.append(",");
            row.append(text::decimal_of(r.subtask_count as u64).as_str());
            row.append(",");
            row.append(text::decimal_of(r.step_count as u64).as_str());
            row.append(",");
            row.append(text::decimal_of_long(r.elapsed.as_millis()).as_str());
            row.append(",");
            row.append(text::join(&r.failure_modes_hit, ";").as_str());
            row.append(",");
            row.append(escape_csv(r.failure_reason.as_str()).as_str());
            row.append("\n");
            out.append(row.as_str());
            i += 1;
        }
        out
    }
}

// ---------------------------------------------------------------------------
// Laws
// ---------------------------------------------------------------------------

/// The text behind a run of doubled quotes.
pub open spec fn undoubled(s: Seq<char>) -> Seq<char>
    decreases s.len(),
{
    if s.len() == 0 {
        s
    } else if s.last() == '"' && s.len() >= 2 {
        undoubled(s.drop_last().drop_last()).push('"')
    } else {
        undoubled(s.drop_last()).push(s.last())
    }
}

/// The text behind a CSV field.
pub open spec fn csv_value(f: Seq<char>) -> Seq<char> {
    if f.len() >= 2 && f[0] == '"' {
        undoubled(f.subrange(1, f.len() - 1))
    } else {
        f
    }
}

proof fn lemma_undoubled(s: Seq<char>)
    ensures
        undoubled(doubled(s)) == s,
    decreases s.len(),
{
    if s.len() > 0 {
        lemma_undoubled(s.drop_last());
        let d = doubled(s.drop_last());
        if s.last() == '"' {
            assert(d.push('"').push('"').drop_last().drop_last() == d);
        } else {
            assert(d.push(s.last()).drop_last() == d);
        }
        assert(s.drop_last().push(s.last()) == s);
    }
}

/// A CSV field gives back the text that was put into it, and no field holds a line
/// break or a comma outside quotes.
pub proof fn law_csv_round_trip(s: Seq<char>)
    ensures
        csv_value(csv_field(s)) == s,
        !needs_quotes(s) ==> !csv_field(s).contains(',') && !csv_field(s).contains('\n'),
        needs_quotes(s) ==> csv_field(s)[0] == '"' && csv_field(s).last() == '"',
{
    reveal_strlit("\"");
    lemma_undoubled(s);
    if needs_quotes(s) {
        let f = csv_field(s);
        assert(f.subrange(1, f.len() - 1) == doubled(s));
    } else if s.len() >= 2 && s[0] == '"' {
        assert(s.contains('"'));
    }
}

/// A row of a report tells what came of its scenario.
pub proof fn law_rows_tell_the_outcome(m: RunMetrics, o: ScenarioOutcome)
    requires
        m.of(o),
    ensures
        m.scenario_id@ == o.scenario_id@,
        m.passed == o.passed,
        m.status == o.status,
        m.subtask_count == o.subtask_count,
        m.step_count == o.step_count,
        m.failure_reason@ == o.failure_reason@,
        m.chat_reply@ == o.chat_reply@,
        m.failure_modes_hit@ == o.failure_modes_hit@,
{
}

/// The rows that passed are counted one by one, and the times add up.
pub proof fn law_passes_and_times_add_up(rows: Seq<RunMetrics>, row: RunMetrics)
    ensures
        passes(rows) == rows.filter(|m: RunMetrics| m.passed).len(),
        passes(rows) <= rows.len(),
        passes(rows.push(row)) == passes(rows) + if row.passed {
            1nat
        } else {
            0nat
        },
        nanos(rows.push(row)) == nanos(rows) + clock::duration_nanos(row.elapsed),
        nanos(Seq::empty()) == 0,
    decreases rows.len(),
{
    reveal(Seq::filter);
    assert(rows.push(row).drop_last() =~= rows);
    if rows.len() > 0 {
        law_passes_and_times_add_up(rows.drop_last(), rows.last());
    }
}

proof fn lemma_markdown_row_at(rows: Seq<RunMetrics>, n: nat, i: int)
    requires
        0 <= i < n <= rows.len(),
    ensures
        text::occurs(markdown_rows(rows, n), markdown_row(rows[i])),
    decreases n,
{
    broadcast use text::group_occurs;

    if i < n - 1 {
        lemma_markdown_row_at(rows, (n - 1) as nat, i);
    }
}

proof fn lemma_csv_row_at(rows: Seq<RunMetrics>, n: nat, i: int)
    requires
        0 <= i < n <= rows.len(),
    ensures
        text::occurs(csv_rows(rows, n), csv_row(rows[i])),
    decreases n,
{
    broadcast use text::group_occurs;

    if i < n - 1 {
        lemma_csv_row_at(rows, (n - 1) as nat, i);
    }
}

/// Both forms of a report list every row.
pub proof fn law_reports_list_every_row(rows: Seq<RunMetrics>, percent: Seq<char>, i: int)
    requires
        0 <= i < rows.len(),
    ensures
        text::occurs(markdown_text(rows, percent), markdown_row(rows[i])),
        text::occurs(csv_rows(rows, rows.len()), csv_row(rows[i])),
        text::occurs(markdown_text(rows, percent), "\n**Pass rate**: "@ + percent),
        text::occurs(markdown_text(rows, percent), "% ("@ + text::decimal(passes(rows))),
        text::occurs(markdown_text(rows, percent), "/"@ + text::decimal(rows.len())),
        text::occurs(markdown_text(rows, percent), text::decimal(nanos(rows) / 1_000_000)),
{
    broadcast use text::group_occurs;

    lemma_markdown_row_at(rows, rows.len(), i);
    lemma_csv_row_at(rows, rows.len(), i);
    let table = markdown_rows(rows, rows.len());
    assert(text::occurs(markdown_text(rows, percent), table));
    text::lemma_occurs_through(markdown_text(rows, percent), table, markdown_row(rows[i]));
}

/// A row of the table shows its scenario, whether it passed, its status, its counts, its
/// time and its failure modes, in the order of the heading.
pub proof fn law_table_rows_show_the_run(r: RunMetrics)
    ensures
        text::occurs(markdown_row(r), "| "@ + r.scenario_id@),
        text::occurs(
            markdown_row(r),
            " | "@ + if r.passed {
                "✓"@
            } else {
                "✗"@
            },
        ),
        text::occurs(markdown_row(r), " | "@ + r.status.spec_name()),
        text::occurs(markdown_row(r), " | "@ + text::decimal(r.subtask_count as nat)),
        text::occurs(markdown_row(r), " | "@ + text::decimal(r.step_count as nat)),
        text::occurs(
            markdown_row(r),
            " | "@ + text::decimal(clock::duration_nanos(r.elapsed) / 1_000_000),
        ),
        text::occurs(
            markdown_row(r),
            " | "@ + text::joined(text::views(r.failure_modes_hit@), ", "@),
        ),
{
    broadcast use text::group_occurs;

}

/// A row of the other form shows the same, and the reason of a failure as a field that
/// reads back.
pub proof fn law_csv_rows_show_the_run(r: RunMetrics)
    ensures
        r.scenario_id@.is_prefix_of(csv_row(r)),
        text::occurs(
            csv_row(r),
            ","@ + if r.passed {
                "true"@
            } else {
                "false"@
            },
        ),
        text::occurs(csv_row(r), ","@ + r.status.spec_name()),
        text::occurs(csv_row(r), ","@ + text::decimal(r.subtask_count as nat)),
        text::occurs(csv_row(r), ","@ + text::decimal(r.step_count as nat)),
        text::occurs(
            csv_row(r),
            ","@ + text::decimal(clock::duration_nanos(r.elapsed) / 1_000_000),
        ),
        text::occurs(
            csv_row(r),
            ","@ + text::joined(text::views(r.failure_modes_hit@), ";"@),
        ),
        text::occurs(csv_row(r), ","@ + csv_field(r.failure_reason@)),
        csv_value(csv_field(r.failure_reason@)) == r.failure_reason@,
{
    broadcast use text::group_occurs;

    law_csv_round_trip(r.failure_reason@);
}

} // verus!
