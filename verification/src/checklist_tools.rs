//! The tools that work on the checklist of subtasks, and the barrier that `finish()`
//! has to pass.

use vstd::prelude::*;
use crate::agent::{Agent, AgentEvent, EventView, LogView, LoopState};
use crate::agent;
use crate::agent_loop;
use crate::completeness::{
    CompletenessTracker, DeclareItem, MarkOutcome, StatusKind, SubTask, SubTaskStatus,
};
use crate::completeness;
use crate::dispatch;
use crate::history::HistoryMessage;
use crate::history;
use crate::json;
use crate::model_reply::ModelCall;
use crate::text;
use crate::tools;

verus! {

// ---------------------------------------------------------------------------
// finish
// ---------------------------------------------------------------------------

/// The line of a pending subtask.
pub open spec fn pending_row(s: SubTask) -> Seq<char> {
    "  - id="@ + s.id@ + ": "@ + s.description@
}

/// The lines of the pending subtasks.
pub open spec fn pending_rows(s: Seq<SubTask>) -> Seq<Seq<char>>
    decreases s.len(),
{
    if s.len() == 0 {
        Seq::empty()
    } else if s.last().status is Pending {
        pending_rows(s.drop_last()).push(pending_row(s.last()))
    } else {
        pending_rows(s.drop_last())
    }
}

/// What a `finish()` is answered while subtasks are pending.
pub open spec fn blocked_text(s: Seq<SubTask>) -> Seq<char> {
    "GATE BLOCKED: finish() called while "@ + text::decimal(pending_rows(s).len())
        + " subtask(s) are still pending. The agent is now forcing a fresh snapshot and re-prompting you. You must, on the next turn, do one of the following for each pending item:\n  - Call mark_subtask_done(id, snapshot_signature) if the most recent snapshot confirms the sub-item is complete on screen. The signature will be in the next observation.\n  - Call mark_subtask_skipped(id, reason) if the sub-item is genuinely out of scope.\n  - Call mark_subtask_failed(id, reason) if you tried and could not verify success.\nPending items:\n"@
        + text::joined(pending_rows(s), "\n"@)
        + "\nA blanket finish() is not accepted. The next iteration will start with a fresh snapshot so you have on-screen evidence to mark each item done."@
}

/// The transcript body of a `finish()` that was held back.
pub open spec fn blocked_body(s: Seq<SubTask>) -> Seq<char> {
    "GATE: finish() intercepted, pending="@ + text::decimal(pending_rows(s).len()) + ", reason="@
        + text::barred(blocked_text(s))
}

/// The task as the conversation states it.
pub open spec fn stated_task(messages: Seq<HistoryMessage>) -> Seq<char> {
    match history::first_user_content(messages) {
        Some(t) => t,
        None => "(no task recorded)"@,
    }
}

/// How a call of `finish()` goes on.
#[derive(Debug)]
pub enum FinishStep {
    /// Nothing is pending; close the task with the words for it.
    Accepted { task: String },
    /// Something is pending; answer the call with this.
    Blocked { result: String },
}

/// What an accepted `finish()` is answered.
pub const FINISH_ACCEPTED: &'static str = "(gate open — finish accepted; will return on next iteration)";

fn render_pending(s: &Vec<SubTask>) -> (r: Vec<String>)
    ensures
        text::views(r@) == pending_rows(s@),
{
    let mut out: Vec<String> = Vec::new();
    let mut i: usize = 0;
    assert(text::views(out@) == pending_rows(s@.take(0)));
    while i < s.len()
        invariant
            i <= s@.len(),
            text::views(out@) == pending_rows(s@.take(i as int)),
        decreases s@.len() - i,
    {
        let ghost before = text::views(out@);
        let sub = &s[i];
        if sub.status.kind() == StatusKind::Pending {
            let mut row = text::owned("  - id=");
            row.append(sub.id.as_str());
            row.append(": ");
            row.append(sub.description.as_str());
            out.push(row);
            assert(text::views(out@) == before.push(row@));
        }
        i += 1;
        assert(s@.take(i as int).drop_last() == s@.take(i - 1));
        assert(s@.take(i as int).last() == sub);
    }
    assert(s@.take(s@.len() as int) == s@);
    out
}

impl Agent {
    /// Whether one more call of `finish()` can be counted.
    pub open spec fn can_finish(self) -> bool {
        &&& self.completeness.finish_attempts < usize::MAX
        &&& self.state.finish_calls_this_gate < usize::MAX
    }

    /// The checklist with one more call of `finish()` counted.
    pub open spec fn attempted(self) -> CompletenessTracker {
        CompletenessTracker {
            finish_attempts: (self.completeness.finish_attempts + 1) as usize,
            ..self.completeness
        }
    }

    fn task_stated(&self) -> (r: String)
        ensures
            r@ == stated_task(self.history.messages@),
    {
        match self.history.first_user() {
            Some(t) => t,
            None => text::owned("(no task recorded)"),
        }
    }

    /// Sums the session up in the transcript and among the reports.
    fn sum_up(&mut self, task: &str, now: u64)
        ensures
            *final(self) == (Agent {
                state: LoopState { summary_written: true, ..old(self).state },
                log: final(self).log,
                events: final(self).events,
                ..*old(self)
            }),
            final(self).logged() == old(self).logged().push(
                LogView::Line(
                    completeness::summary_text(
                        old(self).completeness,
                        now,
                        old(self).session_id@,
                        task@,
                    ),
                ),
            ),
            final(self).reported() == old(self).reported().push(
                EventView::Summary {
                    at: now,
                    text: completeness::summary_text(
                        old(self).completeness,
                        now,
                        old(self).session_id@,
                        task@,
                    ),
                },
            ),
    {
        let summary = self.completeness.write_summary_at(now, self.session_id.as_str(), task);
        self.log_line(summary.clone());
        self.report(AgentEvent::Summary { timestamp_secs: now, text: summary });
        self.state.summary_written = true;
    }

    /// What a call of `finish()` comes to, and what it leaves.
    pub open spec fn finishes(self, now: u64, r: FinishStep, after: Agent) -> bool {
        &&& r is Accepted <==> self.completeness.gate_is_open()
        &&& match r {
            FinishStep::Accepted { task } => {
                let stated = stated_task(self.history.messages@);
                let summary = completeness::summary_text(
                    self.attempted(),
                    now,
                    self.session_id@,
                    stated,
                );
                &&& task@ == history::task_of(stated)
                &&& after == (Agent {
                    completeness: self.attempted(),
                    state: LoopState {
                        finish_calls_this_gate: (self.state.finish_calls_this_gate
                            + 1) as usize,
                        summary_written: true,
                        ..self.state
                    },
                    log: after.log,
                    events: after.events,
                    ..self
                })
                &&& after.logged() == self.logged().push(LogView::Line(summary))
                &&& after.reported() == self.reported().push(
                    EventView::Summary { at: now, text: summary },
                )
            },
            FinishStep::Blocked { result } => {
                &&& result@ == blocked_text(self.completeness.subtasks@)
                &&& after == (Agent {
                    completeness: CompletenessTracker {
                        gate_triggered: true,
                        ..self.attempted()
                    },
                    state: LoopState {
                        force_snapshot: true,
                        finish_calls_this_gate: 0,
                        ..self.state
                    },
                    log: after.log,
                    ..self
                })
                &&& after.logged() == self.logged().push(
                    LogView::Line(
                        agent::entry_text(
                            now,
                            self.session_id@,
                            blocked_body(self.completeness.subtasks@),
                        ),
                    ),
                )
            },
        }
    }

    /// A call of `finish()`, at the given second. While any subtask is pending it is
    /// held back, and the model is shown the whole page; otherwise the session is
    /// summed up.
    pub fn finish_at(&mut self, now: u64) -> (r: FinishStep)
        requires
            old(self).can_finish(),
        ensures
            old(self).finishes(now, r, *final(self)),
    {
        let _ = self.completeness.record_finish_attempt();
        self.state.finish_calls_this_gate = self.state.finish_calls_this_gate + 1;
        if self.completeness.gate_open() {
            let stated = self.task_stated();
            self.sum_up(stated.as_str(), now);
            return FinishStep::Accepted { task: history::strip_task(stated.as_str()) };
        }
        self.completeness.note_gate_triggered();
        self.state.force_snapshot = true;
        let rows = render_pending(&self.completeness.subtasks);
        assert(text::views(rows@).len() == rows@.len());
        let n: usize = rows.len();
        let mut result = text::owned("GATE BLOCKED: finish() called while ");
        result.append(text::decimal_of(n as u64).as_str());
        result.append(
            " subtask(s) are still pending. The agent is now forcing a fresh snapshot and re-prompting you. You must, on the next turn, do one of the following for each pending item:\n  - Call mark_subtask_done(id, snapshot_signature) if the most recent snapshot confirms the sub-item is complete on screen. The signature will be in the next observation.\n  - Call mark_subtask_skipped(id, reason) if the sub-item is genuinely out of scope.\n  - Call mark_subtask_failed(id, reason) if you tried and could not verify success.\nPending items:\n",
        );
        result.append(text::join(&rows, "\n").as_str());
        result.append(
            "\nA blanket finish() is not accepted. The next iteration will start with a fresh snapshot so you have on-screen evidence to mark each item done.",
        );
        let mut body = text::owned("GATE: finish() intercepted, pending=");
        body.append(text::decimal_of(n as u64).as_str());
        body.append(", reason=");
        body.append(text::bar_lines(result.as_str()).as_str());
        let line = agent::entry(now, self.session_id.as_str(), body.as_str());
        self.log_line(line);
        self.state.finish_calls_this_gate = 0;
        FinishStep::Blocked { result }
    }

    /// What is kept of a call of `finish()` that was let through.
    pub open spec fn accepts(
        self,
        asked: ModelCall,
        observation: Seq<char>,
        words: Seq<char>,
        now: u64,
        r: Seq<char>,
        after: Agent,
    ) -> bool {
        &&& r == FINISH_ACCEPTED@
        &&& after == (Agent {
            state: LoopState {
                pending_finish_result: after.state.pending_finish_result,
                ..self.state
            },
            log: after.log,
            events: after.events,
            ..self
        })
        &&& text::opt_view(after.state.pending_finish_result) == Some(words)
        &&& after.logged() == self.logged().push(
            LogView::Line(
                dispatch::call_line(
                    now,
                    observation,
                    asked.name@,
                    asked.args@,
                    "Task finished: "@ + words,
                ),
            ),
        )
        &&& after.reported() == self.reported().push(
            EventView::Tool {
                at: now,
                name: asked.name@,
                args: asked.args@,
                result: "Task finished: "@ + words,
            },
        )
    }

    /// Closes a task whose `finish()` was accepted with the given words: they
    /// become its result.
    pub fn accept_finish(
        &mut self,
        asked: &ModelCall,
        observation: &str,
        words: &str,
        now: u64,
    ) -> (r: &'static str)
        requires
            old(self).completeness.gate_is_open(),
        ensures
            old(self).accepts(*asked, observation@, words@, now, r@, *final(self)),
    {
        let mut result = text::owned("Task finished: ");
        result.append(words);
        self.log_line(
            dispatch::render_call(
                now,
                observation,
                asked.name.as_str(),
                asked.args.as_str(),
                result.as_str(),
            ),
        );
        self.report(
            AgentEvent::Tool {
                timestamp_secs: now,
                name: asked.name.clone(),
                args: asked.args.clone(),
                result,
            },
        );
        self.state.pending_finish_result = Some(text::owned(words));
        FINISH_ACCEPTED
    }

    /// What the end of a run writes down.
    pub open spec fn closes(self, now: u64, after: Agent) -> bool {
        &&& after == (Agent {
            pending_user_note_writes: after.pending_user_note_writes,
            state: LoopState { summary_written: true, ..self.state },
            log: after.log,
            events: after.events,
            ..self
        })
        &&& after.pending_user_note_writes@.len() == 0
        &&& ({
            let noted = self.logged() + agent_loop::note_lines(
                self.session_id@,
                self.pending_user_note_writes@,
            );
            let summary = completeness::summary_text(
                self.completeness,
                now,
                self.session_id@,
                stated_task(self.history.messages@),
            );
            if self.state.summary_written {
                &&& after.logged() == noted
                &&& after.events == self.events
            } else {
                &&& after.logged() == noted.push(LogView::Line(summary))
                &&& after.reported() == self.reported().push(
                    EventView::Summary { at: now, text: summary },
                )
            }
        })
    }

    /// Closes a run, at the given second: writes the lines of notes that still wait,
    /// and sums the session up where that was not done yet.
    pub fn close_run_at(&mut self, now: u64)
        ensures
            old(self).closes(now, *final(self)),
    {
        self.flush_pending_user_note_writes();
        if !self.state.summary_written {
            let stated = self.task_stated();
            self.sum_up(stated.as_str(), now);
        }
    }
}

/// Why a session has failed.
pub fn failure_reason(error: &str) -> (r: String)
    ensures
        r@ == "loop terminated: "@ + error@,
{
    let mut out = text::owned("loop terminated: ");
    out.append(error);
    out
}

// ---------------------------------------------------------------------------
// declare_subtasks
// ---------------------------------------------------------------------------

/// An item of a declaration: its parts, as far as it has them, and its JSON text.
#[derive(Debug)]
pub struct DeclaredItem {
    pub id: Option<String>,
    pub description: Option<String>,
    pub json: String,
}

/// The contents of a `DeclaredItem`.
pub ghost struct DeclaredView {
    pub id: Option<Seq<char>>,
    pub description: Option<Seq<char>>,
    pub json: Seq<char>,
}

impl View for DeclaredItem {
    type V = DeclaredView;

    open spec fn view(&self) -> DeclaredView {
        DeclaredView {
            id: text::opt_view(self.id),
            description: text::opt_view(self.description),
            json: self.json@,
        }
    }
}

/// The contents of items.
pub open spec fn declared_views(items: Seq<DeclaredItem>) -> Seq<DeclaredView> {
    items.map_values(|d: DeclaredItem| d@)
}

/// The item in a JSON text.
pub open spec fn item_in(json: Seq<char>) -> DeclaredView {
    DeclaredView {
        id: json::json_string(json, "/id"@),
        description: json::json_string(json, "/description"@),
        json,
    }
}

/// The items in JSON texts.
pub open spec fn items_in(items: Seq<Seq<char>>) -> Seq<DeclaredView> {
    items.map_values(|item: Seq<char>| item_in(item))
}

/// Reads the items in JSON texts.
pub fn read_items(items: &Vec<String>) -> (r: Vec<DeclaredItem>)
    ensures
        declared_views(r@) == items_in(text::views(items@)),
{
    let ghost all = items_in(text::views(items@));
    let mut out: Vec<DeclaredItem> = Vec::new();
    let mut i: usize = 0;
    while i < items.len()
        invariant
            i <= items@.len(),
            all == items_in(text::views(items@)),
            declared_views(out@) == all.take(i as int),
        decreases items@.len() - i,
    {
        let ghost before = declared_views(out@);
        let json = items[i].as_str();
        assert(text::views(items@)[i as int] == json@);
        let item = DeclaredItem {
            id: json::string_at(json, "/id"),
            description: json::string_at(json, "/description"),
            json: text::owned(json),
        };
        out.push(item);
        assert(declared_views(out@) == before.push(item@));
        i += 1;
        assert(all.take(i as int) == all.take(i - 1).push(all[i - 1]));
    }
    assert(all.take(all.len() as int) == all);
    out
}

/// The ids and descriptions of the first `n` items, or what the first item without
/// one of them is answered.
pub open spec fn declared_parts(items: Seq<DeclaredView>, n: nat) -> Result<
    Seq<(Seq<char>, Seq<char>)>,
    Seq<char>,
>
    decreases n,
{
    if n == 0 {
        Ok(Seq::empty())
    } else {
        match declared_parts(items, (n - 1) as nat) {
            Err(e) => Err(e),
            Ok(rows) => {
                let item = items[n - 1];
                let id = tools::given(item.id);
                let description = tools::given(item.description);
                if id.len() == 0 {
                    Err("ERROR: declare_subtasks item missing 'id': "@ + item.json)
                } else if description.len() == 0 {
                    Err("ERROR: declare_subtasks item '"@ + id + "' missing 'description'"@)
                } else {
                    Ok(rows.push((id, description)))
                }
            },
        }
    }
}

proof fn lemma_error_stays(items: Seq<DeclaredView>, n: nat, m: nat)
    requires
        n <= m,
        declared_parts(items, n) is Err,
    ensures
        declared_parts(items, m) == declared_parts(items, n),
    decreases m,
{
    if n < m {
        lemma_error_stays(items, n, (m - 1) as nat);
    }
}

/// The line of a declared subtask.
pub open spec fn declared_row(row: (Seq<char>, Seq<char>)) -> Seq<char> {
    "  - id="@ + row.0 + " desc=\""@ + row.1 + "\""@
}

/// The lines of the first `n` declared subtasks.
pub open spec fn declared_rows(rows: Seq<(Seq<char>, Seq<char>)>) -> Seq<Seq<char>> {
    rows.map_values(|row: (Seq<char>, Seq<char>)| declared_row(row))
}

/// What a declaration is answered.
pub open spec fn declared_text(rows: Seq<(Seq<char>, Seq<char>)>) -> Seq<char> {
    "Declared "@ + text::decimal(rows.len())
        + " subtask(s). For each, take a snapshot and call mark_subtask_done(id, snapshot_signature) when you see the expected state change. Skipped/failed are also terminal.\n"@
        + text::joined(declared_rows(rows), "\n"@)
}

/// The transcript body of a declaration.
pub open spec fn declared_body(rows: Seq<(Seq<char>, Seq<char>)>) -> Seq<char> {
    "DECLARE: subtasks="@ + text::decimal(rows.len()) + " ids="@ + text::quoted_list(
        rows.map_values(|row: (Seq<char>, Seq<char>)| row.0),
    )
}

fn split_items(items: &Vec<DeclaredItem>) -> (r: Result<Vec<DeclareItem>, String>)
    ensures
        match r {
            Ok(out) => declared_parts(declared_views(items@), items@.len()) == Ok::<
                Seq<(Seq<char>, Seq<char>)>,
                Seq<char>,
            >(agent::item_rows(out@)),
            Err(e) => declared_parts(declared_views(items@), items@.len()) == Err::<
                Seq<(Seq<char>, Seq<char>)>,
                Seq<char>,
            >(e@),
        },
{
    let ghost all = declared_views(items@);
    let mut out: Vec<DeclareItem> = Vec::new();
    let mut i: usize = 0;
    assert(agent::item_rows(out@) == Seq::<(Seq<char>, Seq<char>)>::empty());
    while i < items.len()
        invariant
            i <= items@.len(),
            all == declared_views(items@),
            declared_parts(all, i as nat) == Ok::<Seq<(Seq<char>, Seq<char>)>, Seq<char>>(
                agent::item_rows(out@),
            ),
        decreases items@.len() - i,
    {
        let item = &items[i];
        assert(all[i as int] == item@);
        let id = tools::given_or_empty(text::opt_owned(&item.id));
        let description = tools::given_or_empty(text::opt_owned(&item.description));
        if id.as_str().is_empty() {
            let mut e = text::owned("ERROR: declare_subtasks item missing 'id': ");
            e.append(item.json.as_str());
            assert(declared_parts(all, (i + 1) as nat) == Err::<
                Seq<(Seq<char>, Seq<char>)>,
                Seq<char>,
            >(e@));
            proof {
                lemma_error_stays(all, (i + 1) as nat, items@.len());
            }
            return Err(e);
        }
        if description.as_str().is_empty() {
            let mut e = text::owned("ERROR: declare_subtasks item '");
            e.append(id.as_str());
            e.append("' missing 'description'");
            assert(declared_parts(all, (i + 1) as nat) == Err::<
                Seq<(Seq<char>, Seq<char>)>,
                Seq<char>,
            >(e@));
            proof {
                lemma_error_stays(all, (i + 1) as nat, items@.len());
            }
            return Err(e);
        }
        let ghost before = agent::item_rows(out@);
        let ghost row = (id@, description@);
        out.push(DeclareItem { id, description });
        assert(agent::item_rows(out@) == before.push(row));
        i += 1;
    }
    Ok(out)
}

fn render_declared(items: &Vec<DeclareItem>) -> (r: (Vec<String>, Vec<String>))
    ensures
        text::views(r.0@) == agent::item_rows(items@).map_values(
            |row: (Seq<char>, Seq<char>)| row.0,
        ),
        text::views(r.1@) == declared_rows(agent::item_rows(items@)),
{
    let ghost all = agent::item_rows(items@);
    let ghost ids_of = all.map_values(|row: (Seq<char>, Seq<char>)| row.0);
    let ghost lines_of = declared_rows(all);
    let mut ids: Vec<String> = Vec::new();
    let mut lines: Vec<String> = Vec::new();
    let mut i: usize = 0;
    while i < items.len()
        invariant
            i <= items@.len(),
            all == agent::item_rows(items@),
            ids_of == all.map_values(|row: (Seq<char>, Seq<char>)| row.0),
            lines_of == declared_rows(all),
            text::views(ids@) == ids_of.take(i as int),
            text::views(lines@) == lines_of.take(i as int),
        decreases items@.len() - i,
    {
        let ghost ids_before = text::views(ids@);
        let ghost lines_before = text::views(lines@);
        let d = &items[i];
        let id = d.id.clone();
        let mut line = text::owned("  - id=");
        line.append(d.id.as_str());
        line.append(" desc=\"");
        line.append(d.description.as_str());
        line.append("\"");
        ids.push(id);
        lines.push(line);
        assert(text::views(ids@) == ids_before.push(id@));
        assert(text::views(lines@) == lines_before.push(line@));
        i += 1;
        assert(ids_of.take(i as int) == ids_of.take(i - 1).push(ids_of[i - 1]));
        assert(lines_of.take(i as int) == lines_of.take(i - 1).push(lines_of[i - 1]));
    }
    assert(ids_of.take(ids_of.len() as int) == ids_of);
    assert(lines_of.take(lines_of.len() as int) == lines_of);
    (ids, lines)
}

impl Agent {
    /// What a declaration of the given items at the given second does, and how it is
    /// answered.
    pub open spec fn declares(
        self,
        items: Seq<DeclaredView>,
        now: u64,
        after: Agent,
        answer: Seq<char>,
    ) -> bool {
        match declared_parts(items, items.len()) {
            Err(e) => answer == e && after == self,
            Ok(rows) => if self.undecided() {
                &&& answer == declared_text(rows)
                &&& after == (Agent {
                    completeness: after.completeness,
                    log: after.log,
                    ..self
                })
                &&& agent::subtasks_for(after.completeness.subtasks@, rows)
                &&& after.completeness.same_session(self.completeness)
                &&& after.completeness.snapshot_since_mark == self.completeness.snapshot_since_mark
                &&& after.logged() == self.logged().push(
                    LogView::Line(agent::entry_text(now, self.session_id@, declared_body(rows))),
                )
            } else {
                &&& answer == "ERROR: declare_subtasks rejected: "@
                    + "cannot re-declare subtasks after any have been resolved"@
                &&& after == self
            },
        }
    }

    /// A call of `declare_subtasks` with items in JSON texts, at the given second.
    pub fn declare_result(&mut self, items: &Vec<String>, now: u64) -> (r: String)
        ensures
            old(self).declares(items_in(text::views(items@)), now, *final(self), r@),
    {
        self.declare_items(&read_items(items), now)
    }

    /// A call of `declare_subtasks` with the given items, at the given second.
    pub fn declare_items(&mut self, items: &Vec<DeclaredItem>, now: u64) -> (r: String)
        ensures
            old(self).declares(declared_views(items@), now, *final(self), r@),
    {
        let declared = match split_items(items) {
            Ok(d) => d,
            Err(e) => return e,
        };
        let ghost rows = agent::item_rows(declared@);
        let ghost given = declared@;
        let (ids, lines) = render_declared(&declared);
        match self.completeness.declare(declared) {
            Ok(n) => {
                assert(agent::subtasks_for(self.completeness.subtasks@, rows)) by {
                    assert forall|i: int| 0 <= i < rows.len() implies {
                        &&& (#[trigger] self.completeness.subtasks@[i]).id@ == rows[i].0
                        &&& self.completeness.subtasks@[i].description@ == rows[i].1
                    } by {
                        assert(agent::item_rows(given)[i] == rows[i]);
                    }
                }
                let mut body = text::owned("DECLARE: subtasks=");
                body.append(text::decimal_of(n as u64).as_str());
                body.append(" ids=");
                body.append(text::quote_list(&ids).as_str());
                let line = agent::entry(now, self.session_id.as_str(), body.as_str());
                self.log_line(line);
                let mut out = text::owned("Declared ");
                out.append(text::decimal_of(n as u64).as_str());
                out.append(
                    " subtask(s). For each, take a snapshot and call mark_subtask_done(id, snapshot_signature) when you see the expected state change. Skipped/failed are also terminal.\n",
                );
                out.append(text::join(&lines, "\n").as_str());
                out
            },
            Err(e) => {
                let mut out = text::owned("ERROR: declare_subtasks rejected: ");
                out.append(e);
                out
            },
        }
    }
}

// ---------------------------------------------------------------------------
// Marks
// ---------------------------------------------------------------------------

/// What a call of `mark_subtask_done` is answered; `after` are the subtasks after
/// it.
pub open spec fn done_text(id: Seq<char>, outcome: MarkOutcome, after: Seq<SubTask>) -> Seq<char> {
    match outcome {
        MarkOutcome::MarkedDone { evidence_iteration, evidence_signature } => "Subtask '"@ + id
            + "' marked done with fresh-snapshot evidence (iter "@ + text::decimal(
            evidence_iteration as nat,
        ) + ", sig "@ + evidence_signature@ + "). Tracker: "@ + completeness::inline_text(after),
        MarkOutcome::StaleEvidence { .. } => "ERROR: mark_subtask_done for '"@ + id
            + "' rejected — your snapshot_signature does not match the most recent on-screen snapshot. Take a fresh snapshot() first, observe the page, and retry with that signature. The agent has recorded snapshot signatures as the perception block runs."@,
        MarkOutcome::AlreadyTerminal { current } => "ERROR: subtask '"@ + id
            + "' is already in terminal status '"@ + current.spec_name()
            + "' and cannot be marked done again."@,
        _ => "ERROR: no subtask with id '"@ + id
            + "' is currently declared. Call declare_subtasks first or check the id spelling."@,
    }
}

/// The transcript body of a subtask that was marked done.
pub open spec fn done_body(id: Seq<char>, outcome: MarkOutcome) -> Option<Seq<char>> {
    match outcome {
        MarkOutcome::MarkedDone { evidence_iteration, evidence_signature } => Some(
            "MARK DONE: id="@ + id + " evidence_iter="@ + text::decimal(evidence_iteration as nat)
                + " evidence_sig="@ + evidence_signature@,
        ),
        _ => None,
    }
}

/// How a subtask is resolved without evidence.
#[derive(Debug, Clone, Copy, PartialEq, Eq, Structural)]
pub enum Resolution {
    Skipped,
    Failed,
}

impl Resolution {
    pub open spec fn spec_word(self) -> Seq<char> {
        match self {
            Resolution::Skipped => "skipped"@,
            Resolution::Failed => "failed"@,
        }
    }

    /// The status of a subtask that was resolved for the given reason.
    pub open spec fn status(self, reason: String) -> SubTaskStatus {
        match self {
            Resolution::Skipped => SubTaskStatus::Skipped { reason },
            Resolution::Failed => SubTaskStatus::Failed { reason },
        }
    }

    pub open spec fn spec_label(self) -> Seq<char> {
        match self {
            Resolution::Skipped => "MARK SKIPPED: id="@,
            Resolution::Failed => "MARK FAILED: id="@,
        }
    }

    fn word(&self) -> (r: &'static str)
        ensures
            r@ == self.spec_word(),
    {
        match self {
            Resolution::Skipped => "skipped",
            Resolution::Failed => "failed",
        }
    }

    fn label(&self) -> (r: &'static str)
        ensures
            r@ == self.spec_label(),
    {
        match self {
            Resolution::Skipped => "MARK SKIPPED: id=",
            Resolution::Failed => "MARK FAILED: id=",
        }
    }
}

/// Why a call to resolve a subtask is turned down before the checklist is looked
/// at.
pub open spec fn incomplete_call(how: Resolution, id: Seq<char>, reason: Seq<char>) -> Option<
    Seq<char>,
> {
    if id.len() == 0 {
        Some("ERROR: mark_subtask_"@ + how.spec_word() + " requires 'id'"@)
    } else if reason.len() == 0 {
        Some(
            "ERROR: mark_subtask_"@ + how.spec_word() + " for '"@ + id
                + "' requires a non-empty 'reason'"@,
        )
    } else {
        None
    }
}

/// What a call to resolve a subtask is answered; `after` are the subtasks after it.
pub open spec fn resolved_text(
    how: Resolution,
    id: Seq<char>,
    reason: Seq<char>,
    refusal: Option<MarkOutcome>,
    after: Seq<SubTask>,
) -> Seq<char> {
    match refusal {
        None => "Subtask '"@ + id + "' marked "@ + how.spec_word() + " (reason: "@ + reason
            + "). Tracker: "@ + completeness::inline_text(after),
        Some(MarkOutcome::AlreadyTerminal { current }) => "ERROR: subtask '"@ + id
            + "' is already in terminal status '"@ + current.spec_name() + "'."@,
        _ => "ERROR: no subtask with id '"@ + id + "' is currently declared."@,
    }
}

/// Whether `after` are the subtasks with the given one resolved at the given second
/// for the given reason.
pub open spec fn resolved_as(
    before: CompletenessTracker,
    after: Seq<SubTask>,
    how: Resolution,
    id: Seq<char>,
    reason: Seq<char>,
    now: u64,
) -> bool {
    exists|r: String|
        r@ == reason && after == before.after_resolve(id, #[trigger] how.status(r), now)
}

impl Agent {
    /// What a mark as done is answered, and what it leaves.
    pub open spec fn marks(
        self,
        id: Seq<char>,
        signature: Seq<char>,
        now: u64,
        answer: Seq<char>,
        after: Agent,
    ) -> bool {
        &&& if id.len() == 0 {
            answer == "ERROR: mark_subtask_done requires 'id'"@ && after == self
        } else {
            let outcome = self.completeness.mark_done_outcome(id, signature);
            &&& answer == done_text(id, outcome, after.completeness.subtasks@)
            &&& after == (Agent {
                completeness: after.completeness,
                log: after.log,
                ..self
            })
            &&& after.completeness.subtasks@ == self.completeness.after_mark_done(
                id,
                signature,
                now,
            )
            &&& after.completeness.snapshot_since_mark == (self.completeness.snapshot_since_mark && !(outcome is MarkedDone))
            &&& after.completeness.same_session(self.completeness)
            &&& match done_body(id, outcome) {
                Some(body) => after.logged() == self.logged().push(
                    LogView::Line(agent::entry_text(now, self.session_id@, body)),
                ),
                None => after.log == self.log,
            }
        }
    }

    /// A call of `mark_subtask_done`, at the given second.
    pub fn mark_done_result(&mut self, id: &str, signature: &str, now: u64) -> (r: String)
        ensures
            old(self).marks(id@, signature@, now, r@, *final(self)),
    {
        if id.is_empty() {
            return text::owned("ERROR: mark_subtask_done requires 'id'");
        }
        let outcome = self.completeness.mark_done_at(id, signature, now);
        match &outcome {
            MarkOutcome::MarkedDone { evidence_iteration, evidence_signature } => {
                let mut body = text::owned("MARK DONE: id=");
                body.append(id);
                body.append(" evidence_iter=");
                body.append(text::decimal_of(*evidence_iteration as u64).as_str());
                body.append(" evidence_sig=");
                body.append(evidence_signature.as_str());
                let line = agent::entry(now, self.session_id.as_str(), body.as_str());
                self.log_line(line);
                let mut out = text::owned("Subtask '");
                out.append(id);
                out.append("' marked done with fresh-snapshot evidence (iter ");
                out.append(text::decimal_of(*evidence_iteration as u64).as_str());
                out.append(", sig ");
                out.append(evidence_signature.as_str());
                out.append("). Tracker: ");
                out.append(self.completeness.inline_status().as_str());
                out
            },
            MarkOutcome::StaleEvidence { .. } => {
                let mut out = text::owned("ERROR: mark_subtask_done for '");
                out.append(id);
                out.append(
                    "' rejected — your snapshot_signature does not match the most recent on-screen snapshot. Take a fresh snapshot() first, observe the page, and retry with that signature. The agent has recorded snapshot signatures as the perception block runs.",
                );
                out
            },
            MarkOutcome::AlreadyTerminal { current } => {
                let mut out = text::owned("ERROR: subtask '");
                out.append(id);
                out.append("' is already in terminal status '");
                out.append(current.as_str());
                out.append("' and cannot be marked done again.");
                out
            },
            _ => {
                let mut out = text::owned("ERROR: no subtask with id '");
                out.append(id);
                out.append(
                    "' is currently declared. Call declare_subtasks first or check the id spelling.",
                );
                out
            },
        }
    }

    /// What a mark as skipped or failed is answered, and what it leaves.
    pub open spec fn resolves(
        self,
        how: Resolution,
        id: Seq<char>,
        reason: Seq<char>,
        now: u64,
        answer: Seq<char>,
        after: Agent,
    ) -> bool {
        &&& match incomplete_call(how, id, reason) {
            Some(e) => answer == e && after == self,
            None => {
                let refusal = self.completeness.refusal(id);
                &&& answer == resolved_text(
                    how,
                    id,
                    reason,
                    refusal,
                    after.completeness.subtasks@,
                )
                &&& after == (Agent {
                    completeness: after.completeness,
                    log: after.log,
                    ..self
                })
                &&& resolved_as(
                    self.completeness,
                    after.completeness.subtasks@,
                    how,
                    id,
                    reason,
                    now,
                )
                &&& after.completeness.snapshot_since_mark == self.completeness.snapshot_since_mark
                &&& after.completeness.same_session(self.completeness)
                &&& if refusal is None {
                    after.logged() == self.logged().push(
                        LogView::Line(
                            agent::entry_text(
                                now,
                                self.session_id@,
                                how.spec_label() + id + " reason="@ + reason,
                            ),
                        ),
                    )
                } else {
                    after.log == self.log
                }
            },
        }
    }

    /// A call of `mark_subtask_skipped` or `mark_subtask_failed`, at the given
    /// second.
    pub fn resolve_result(&mut self, how: Resolution, id: &str, reason: &str, now: u64) -> (r:
        String)
        ensures
            old(self).resolves(how, id@, reason@, now, r@, *final(self)),
    {
        if id.is_empty() {
            let mut out = text::owned("ERROR: mark_subtask_");
            out.append(how.word());
            out.append(" requires 'id'");
            return out;
        }
        if reason.is_empty() {
            let mut out = text::owned("ERROR: mark_subtask_");
            out.append(how.word());
            out.append(" for '");
            out.append(id);
            out.append("' requires a non-empty 'reason'");
            return out;
        }
        let given = text::owned(reason);
        let ghost kept = given;
        let outcome = match how {
            Resolution::Skipped => self.completeness.mark_skipped_at(id, given, now),
            Resolution::Failed => self.completeness.mark_failed_at(id, given, now),
        };
        assert(resolved_as(
            old(self).completeness,
            self.completeness.subtasks@,
            how,
            id@,
            reason@,
            now,
        )) by {
            let _ = how.status(kept);
        }
        match &outcome {
            MarkOutcome::MarkedSkipped { .. } => {
                let mut body = text::owned(how.label());
                body.append(id);
                body.append(" reason=");
                body.append(reason);
                let line = agent::entry(now, self.session_id.as_str(), body.as_str());
                self.log_line(line);
                let mut out = text::owned("Subtask '");
                out.append(id);
                out.append("' marked ");
                out.append(how.word());
                out.append(" (reason: ");
                out.append(reason);
                out.append("). Tracker: ");
                out.append(self.completeness.inline_status().as_str());
                out
            },
            MarkOutcome::AlreadyTerminal { current } => {
                let mut out = text::owned("ERROR: subtask '");
                out.append(id);
                out.append("' is already in terminal status '");
                out.append(current.as_str());
                out.append("'.");
                out
            },
            _ => {
                let mut out = text::owned("ERROR: no subtask with id '");
                out.append(id);
                out.append("' is currently declared.");
                out
            },
        }
    }
}

// ---------------------------------------------------------------------------
// Laws
// ---------------------------------------------------------------------------

/// A `finish()` is held back exactly while there is something to list as pending.
pub proof fn law_gate_lists_what_is_pending(t: CompletenessTracker)
    ensures
        pending_rows(t.subtasks@).len() == completeness::count_kind(
            t.subtasks@,
            StatusKind::Pending,
        ),
        t.gate_is_open() <==> pending_rows(t.subtasks@).len() == 0,
{
    lemma_pending_count(t.subtasks@);
    completeness::lemma_no_pending_iff_all_terminal(t.subtasks@);
}

proof fn lemma_pending_count(s: Seq<SubTask>)
    ensures
        pending_rows(s).len() == completeness::count_kind(s, StatusKind::Pending),
    decreases s.len(),
{
    if s.len() > 0 {
        lemma_pending_count(s.drop_last());
    }
}

/// A task with a plan cannot be finished before its subtasks are resolved: the plan
/// holds `finish()` back.
pub proof fn law_plans_shut_the_gate(t: CompletenessTracker, rows: Seq<(Seq<char>, Seq<char>)>)
    requires
        rows.len() > 0,
        agent::subtasks_for(t.subtasks@, rows),
    ensures
        !t.gate_is_open(),
        pending_rows(t.subtasks@).len() == rows.len(),
{
    assert(t.subtasks@[0].status is Pending);
    lemma_all_pending(t.subtasks@);
}

proof fn lemma_all_pending(s: Seq<SubTask>)
    requires
        forall|i: int| 0 <= i < s.len() ==> (#[trigger] s[i]).status is Pending,
    ensures
        pending_rows(s).len() == s.len(),
    decreases s.len(),
{
    if s.len() > 0 {
        assert(s.last() == s[s.len() - 1]);
        assert forall|i: int| 0 <= i < s.drop_last().len() implies (
        #[trigger] s.drop_last()[i]).status is Pending by {
            assert(s.drop_last()[i] == s[i]);
        }
        lemma_all_pending(s.drop_last());
    }
}

/// The rows of what is pending are those of the pending subtasks, in their order, each
/// with its id and what it is about.
proof fn lemma_row_of(s: Seq<SubTask>, i: int) -> (k: int)
    requires
        0 <= i < s.len(),
        s[i].status is Pending,
    ensures
        0 <= k < pending_rows(s).len(),
        pending_rows(s)[k] == pending_row(s[i]),
        k == pending_rows(s.take(i)).len(),
    decreases s.len(),
{
    if i == s.len() - 1 {
        assert(s.take(i) == s.drop_last());
        pending_rows(s.drop_last()).len() as int
    } else {
        assert(s.drop_last()[i] == s[i]);
        assert(s.drop_last().take(i) == s.take(i));
        lemma_row_of(s.drop_last(), i)
    }
}

/// A `finish()` that is held back is answered with every subtask that is pending: its id
/// and what it is about.
pub proof fn law_held_back_finishes_name_what_is_pending(s: Seq<SubTask>, i: int)
    requires
        0 <= i < s.len(),
        s[i].status is Pending,
    ensures
        text::occurs(blocked_text(s), "  - id="@ + s[i].id@),
        text::occurs(blocked_text(s), s[i].description@),
        text::occurs(
            blocked_text(s),
            text::decimal(completeness::count_kind(s, StatusKind::Pending)),
        ),
{
    broadcast use text::group_occurs;

    let k = lemma_row_of(s, i);
    let rows = pending_rows(s);
    let w = blocked_text(s);
    text::law_joined_holds_each_part(rows, "\n"@, k);
    text::lemma_occurs_here(text::joined(rows, "\n"@), rows[k], text::part_start(rows, "\n"@, k));
    assert(text::occurs(w, text::joined(rows, "\n"@)));
    text::lemma_occurs_through(w, text::joined(rows, "\n"@), rows[k]);
    text::lemma_occurs_through(w, rows[k], "  - id="@ + s[i].id@);
    text::lemma_occurs_through(w, rows[k], s[i].description@);
    lemma_pending_count(s);
}

/// Nothing but pending subtasks is named as pending, and they are named in their order.
pub proof fn law_only_pending_subtasks_are_named(s: Seq<SubTask>, k: int) -> (i: int)
    requires
        0 <= k < pending_rows(s).len(),
    ensures
        0 <= i < s.len(),
        s[i].status is Pending,
        pending_rows(s)[k] == "  - id="@ + s[i].id@ + ": "@ + s[i].description@,
        pending_rows(s.take(i)) == pending_rows(s).take(k),
    decreases s.len(),
{
    if s.last().status is Pending && k == pending_rows(s).len() - 1 {
        assert(s.take(s.len() - 1) == s.drop_last());
        assert(pending_rows(s).take(k) == pending_rows(s.drop_last()));
        s.len() - 1
    } else {
        let i = law_only_pending_subtasks_are_named(s.drop_last(), k);
        assert(s.drop_last().take(i) == s.take(i));
        assert(pending_rows(s.drop_last()).take(k) == pending_rows(s).take(k));
        i
    }
}

/// A `finish()` is let through exactly where no subtask is pending; where one is, the
/// page is read again before anything else, and the subtasks stay as they are.
pub proof fn law_finishing_waits_for_every_subtask(a: Agent, now: u64, r: FinishStep, after: Agent)
    requires
        a.can_finish(),
        a.finishes(now, r, after),
    ensures
        r is Accepted <==> forall|i: int|
            0 <= i < a.completeness.subtasks@.len() ==> (
            #[trigger] a.completeness.subtasks@[i]).status !is Pending,
        after.completeness.subtasks == a.completeness.subtasks,
        after.completeness.finish_attempts == a.completeness.finish_attempts + 1,
        after.completeness.snapshot_since_mark == a.completeness.snapshot_since_mark,
        after.history == a.history,
        after.state.pending_finish_result == a.state.pending_finish_result,
        r is Blocked ==> after.state.force_snapshot && after.completeness.gate_triggered
            && after.state.finish_calls_this_gate == 0,
        r is Accepted ==> after.state.finish_calls_this_gate == a.state.finish_calls_this_gate + 1
            && after.state.summary_written && after.completeness.gate_triggered
            == a.completeness.gate_triggered,
        after.logged().len() == a.logged().len() + 1,
{
}

/// A `finish()` that is held back names each pending subtask in its answer.
pub proof fn law_a_held_back_finish_tells_what_is_missing(
    a: Agent,
    now: u64,
    r: FinishStep,
    after: Agent,
    i: int,
)
    requires
        a.finishes(now, r, after),
        0 <= i < a.completeness.subtasks@.len(),
        a.completeness.subtasks@[i].status is Pending,
    ensures
        r matches FinishStep::Blocked { result } && text::occurs(
            result@,
            a.completeness.subtasks@[i].id@,
        ) && text::occurs(result@, a.completeness.subtasks@[i].description@),
{
    broadcast use text::group_occurs;

    let s = a.completeness.subtasks@;
    assert(!s[i].status.terminal());
    law_held_back_finishes_name_what_is_pending(s, i);
    text::lemma_occurs_through(blocked_text(s), "  - id="@ + s[i].id@, s[i].id@);
}

/// The words with which the model finishes are the result of the task: what is handed
/// over after a `finish()` was let through are these words, unchanged.
pub proof fn law_the_words_of_the_model_are_the_result(
    a: Agent,
    asked: ModelCall,
    observation: Seq<char>,
    words: Seq<char>,
    now: u64,
    r: Seq<char>,
    mid: Agent,
    result: Option<String>,
    after: Agent,
)
    requires
        a.accepts(asked, observation, words, now, r, mid),
        mid.hands_over(result, after),
    ensures
        result is Some,
        result->0@ == words,
        mid.history == a.history,
        mid.completeness == a.completeness,
        mid.reported().len() == a.reported().len() + 1,
        mid.reported().last() matches EventView::Tool { at, name, args, result: told } && at == now
            && name == asked.name@ && args == asked.args@ && text::occurs(told, words),
        mid.logged().last() matches LogView::Line(line) && text::occurs(line, words),
{
    broadcast use text::group_occurs;

}

/// The end of a run leaves no note of the user unwritten, and a summary behind every
/// run: one that was not written yet is.
pub proof fn law_every_run_ends_with_a_summary(a: Agent, now: u64, after: Agent)
    requires
        a.closes(now, after),
    ensures
        after.state.summary_written,
        after.pending_user_note_writes@.len() == 0,
        after.history == a.history,
        after.completeness == a.completeness,
        !a.state.summary_written ==> {
            &&& after.reported().len() == a.reported().len() + 1
            &&& after.reported().last() matches EventView::Summary { at, text } && at == now
                && text == completeness::summary_text(
                a.completeness,
                now,
                a.session_id@,
                stated_task(a.history.messages@),
            ) && after.logged().last() == LogView::Line(text)
        },
        a.state.summary_written ==> after.events == a.events,
{
}

proof fn lemma_declared(items: Seq<DeclaredView>, n: nat)
    requires
        n <= items.len(),
    ensures
        match declared_parts(items, n) {
            Ok(rows) => {
                &&& rows.len() == n
                &&& forall|i: int|
                    0 <= i < n ==> (#[trigger] rows[i]).0.len() > 0 && rows[i].1.len() > 0
                        && items[i].id == Some(rows[i].0) && items[i].description == Some(
                        rows[i].1,
                    )
            },
            Err(_) => exists|i: int|
                0 <= i < n && (tools::given((#[trigger] items[i]).id).len() == 0 || tools::given(
                    items[i].description,
                ).len() == 0),
        },
    decreases n,
{
    if n > 0 {
        lemma_declared(items, (n - 1) as nat);
        assert(items[n - 1] == items[n - 1]);
    }
}

/// A declaration is taken with all its items, in their order and word for word, or it is
/// refused because one of them lacks its id or its description.
pub proof fn law_declarations_are_taken_whole(items: Seq<DeclaredView>)
    ensures
        match declared_parts(items, items.len()) {
            Ok(rows) => {
                &&& rows.len() == items.len()
                &&& forall|i: int|
                    0 <= i < items.len() ==> items[i].id == Some((#[trigger] rows[i]).0)
                        && items[i].description == Some(rows[i].1)
            },
            Err(_) => exists|i: int|
                0 <= i < items.len() && (tools::given((#[trigger] items[i]).id).len() == 0
                    || tools::given(items[i].description).len() == 0),
        },
        (forall|i: int|
            0 <= i < items.len() ==> tools::given((#[trigger] items[i]).id).len() > 0
                && tools::given(items[i].description).len() > 0) ==> declared_parts(
            items,
            items.len(),
        ) is Ok,
{
    lemma_declared(items, items.len());
}

/// Every declared subtask is on the list afterwards, pending, in the order of the call,
/// and named in the answer; where one was resolved before, nothing changes.
pub proof fn law_declared_subtasks_are_on_the_list(
    a: Agent,
    items: Seq<DeclaredView>,
    now: u64,
    after: Agent,
    answer: Seq<char>,
    i: int,
)
    requires
        a.declares(items, now, after, answer),
        0 <= i < items.len(),
    ensures
        a.undecided() && declared_parts(items, items.len()) is Ok ==> {
            &&& after.completeness.subtasks@.len() == items.len()
            &&& Some(after.completeness.subtasks@[i].id@) == items[i].id
            &&& Some(after.completeness.subtasks@[i].description@) == items[i].description
            &&& after.completeness.subtasks@[i].status is Pending
            &&& text::occurs(answer, items[i].id->0)
            &&& text::occurs(answer, items[i].description->0)
        },
        !a.undecided() || declared_parts(items, items.len()) is Err ==> after == a && text::occurs(
            answer,
            "ERROR"@,
        ),
        after.history == a.history,
{
    broadcast use text::group_occurs;

    law_declarations_are_taken_whole(items);
    match declared_parts(items, items.len()) {
        Ok(rows) => {
            if a.undecided() {
                let listed = declared_rows(rows);
                let w = declared_text(rows);
                assert(listed[i] == declared_row(rows[i]));
                text::law_joined_holds_each_part(listed, "\n"@, i);
                text::lemma_occurs_here(
                    text::joined(listed, "\n"@),
                    listed[i],
                    text::part_start(listed, "\n"@, i),
                );
                assert(text::occurs(w, text::joined(listed, "\n"@)));
                text::lemma_occurs_through(w, text::joined(listed, "\n"@), listed[i]);
                text::lemma_occurs_through(w, listed[i], rows[i].0);
                text::lemma_occurs_through(w, listed[i], rows[i].1);
                assert(after.completeness.subtasks@[i].id@ == rows[i].0);
            } else {
                reveal_strlit("ERROR");
                reveal_strlit("ERROR: declare_subtasks rejected: ");
                let told = "ERROR: declare_subtasks rejected: "@;
                assert("ERROR"@ =~= told.subrange(0, 5));
                lemma_error_is_told(told);
                text::lemma_prefix_occurs(
                    "ERROR: declare_subtasks rejected: "@,
                    "cannot re-declare subtasks after any have been resolved"@,
                );
            }
        },
        Err(e) => {
            lemma_refused_items(items, items.len());
        },
    }
}

proof fn lemma_error_is_told(s: Seq<char>)
    requires
        "ERROR"@.is_prefix_of(s),
    ensures
        text::occurs(s, "ERROR"@),
{
    assert(text::occurs_at(s, "ERROR"@, 0));
}

proof fn lemma_refused_items(items: Seq<DeclaredView>, n: nat)
    requires
        n <= items.len(),
    ensures
        declared_parts(items, n) matches Err(e) ==> text::occurs(e, "ERROR"@),
    decreases n,
{
    if n > 0 {
        lemma_refused_items(items, (n - 1) as nat);
        reveal_strlit("ERROR");
        reveal_strlit("ERROR: declare_subtasks item missing 'id': ");
        reveal_strlit("ERROR: declare_subtasks item '");
        if let Err(e) = declared_parts(items, n) {
            if declared_parts(items, (n - 1) as nat) is Ok {
                assert("ERROR"@ =~= e.subrange(0, 5));
                lemma_error_is_told(e);
            }
        }
    }
}

/// A mark as done is answered with the id that it names, and it changes the list as far
/// as its signature is that of the page on the screen: a mark that is not taken leaves
/// every subtask as it was.
pub proof fn law_marks_are_answered_by_id(
    a: Agent,
    id: Seq<char>,
    signature: Seq<char>,
    now: u64,
    answer: Seq<char>,
    after: Agent,
)
    requires
        a.marks(id, signature, now, answer, after),
    ensures
        id.len() > 0 ==> text::occurs(answer, "'"@ + id),
        id.len() == 0 ==> after == a,
        !(a.completeness.mark_done_outcome(id, signature) is MarkedDone)
            ==> after.completeness.subtasks@ == a.completeness.subtasks@ && after.log == a.log,
        id.len() > 0 && a.completeness.mark_done_outcome(id, signature) is MarkedDone ==> {
            &&& after.completeness.subtasks@ == a.completeness.after_mark_done(id, signature, now)
            &&& !after.completeness.snapshot_since_mark
            &&& text::occurs(answer, signature)
            &&& after.logged().len() == a.logged().len() + 1
        },
        after.history == a.history,
        after.completeness.last_snapshot_signature == a.completeness.last_snapshot_signature,
{
    broadcast use text::group_occurs;

    if id.len() > 0 {
        lemma_quoted_id("Subtask '"@, id);
        lemma_quoted_id("ERROR: mark_subtask_done for '"@, id);
        lemma_quoted_id("ERROR: subtask '"@, id);
        lemma_quoted_id("ERROR: no subtask with id '"@, id);
    }
}

proof fn lemma_quoted_id(head: Seq<char>, id: Seq<char>)
    ensures
        head == "Subtask '"@ || head == "ERROR: mark_subtask_done for '"@ || head
            == "ERROR: subtask '"@ || head == "ERROR: no subtask with id '"@ ==> text::occurs(
            head + id,
            "'"@ + id,
        ),
{
    reveal_strlit("'");
    reveal_strlit("Subtask '");
    reveal_strlit("ERROR: mark_subtask_done for '");
    reveal_strlit("ERROR: subtask '");
    reveal_strlit("ERROR: no subtask with id '");
    if head.len() > 0 && head.last() == '\'' {
        assert("'"@ =~= seq!['\'']);
        assert(head =~= head.drop_last() + "'"@);
        text::lemma_occurs_glued(head.drop_last(), "'"@, id);
    }
}

/// A subtask is skipped or failed under the id and for the reason that the model gives,
/// and both stand in the answer; without a reason nothing changes.
pub proof fn law_given_up_subtasks_keep_their_reason(
    a: Agent,
    how: Resolution,
    id: Seq<char>,
    reason: Seq<char>,
    now: u64,
    answer: Seq<char>,
    after: Agent,
    i: int,
)
    requires
        a.resolves(how, id, reason, now, answer, after),
        id.len() > 0,
        0 <= i < a.completeness.subtasks@.len(),
    ensures
        reason.len() == 0 ==> after == a,
        a.completeness.subtasks@[i].id@ != id ==> after.completeness.subtasks@[i]
            == a.completeness.subtasks@[i],
        reason.len() > 0 && a.completeness.subtasks@[i].id@ == id
            && a.completeness.subtasks@[i].status is Pending && (forall|j: int|
            0 <= j < i ==> (#[trigger] a.completeness.subtasks@[j]).id@ != id) ==> {
            let status = after.completeness.subtasks@[i].status;
            &&& status.spec_reason() == Some(reason)
            &&& how is Skipped <==> status is Skipped
            &&& how is Failed <==> status is Failed
            &&& text::occurs(answer, id)
            &&& text::occurs(answer, reason)
        },
        after.history == a.history,
{
    broadcast use text::group_occurs;

    let t = a.completeness;
    if reason.len() > 0 {
        let r = choose|r: String|
            r@ == reason && after.completeness.subtasks@ == t.after_resolve(
                id,
                #[trigger] how.status(r),
                now,
            );
        completeness::law_marks_go_to_the_named_subtask(t, id, how.status(r), now, i);
        completeness::law_lookup_finds_the_first(t.subtasks@, id);
    }
}

/// The items of a declaration are read one by one, each with the id and the description
/// that it gives.
pub proof fn law_items_are_read_one_by_one(items: Seq<Seq<char>>, i: int)
    requires
        0 <= i < items.len(),
    ensures
        items_in(items).len() == items.len(),
        items_in(items)[i].id == json::json_string(items[i], "/id"@),
        items_in(items)[i].description == json::json_string(items[i], "/description"@),
        items_in(items)[i].json == items[i],
{
}

/// What is refused of a declaration is named: the first item without an id as it was
/// given, and the first without a description by its id.
pub proof fn law_refused_items_are_named(items: Seq<DeclaredView>, n: nat, i: int)
    requires
        0 <= i < n <= items.len(),
        forall|j: int|
            0 <= j < i ==> tools::given((#[trigger] items[j]).id).len() > 0 && tools::given(
                items[j].description,
            ).len() > 0,
    ensures
        tools::given(items[i].id).len() == 0 ==> (declared_parts(items, n) matches Err(e)
            && text::occurs(e, items[i].json)),
        tools::given(items[i].id).len() > 0 && tools::given(items[i].description).len() == 0 ==> (
        declared_parts(items, n) matches Err(e) && text::occurs(e, tools::given(items[i].id))),
    decreases n,
{
    broadcast use text::group_occurs;

    if i == n - 1 {
        lemma_declared(items, i as nat);
    } else {
        law_refused_items_are_named(items, (n - 1) as nat, i);
    }
}

/// Every mark that is taken is written down with its id, and with the signature or the
/// reason that it came with.
pub proof fn law_taken_marks_are_written_down(
    a: Agent,
    how: Resolution,
    id: Seq<char>,
    given: Seq<char>,
    now: u64,
    done_answer: Seq<char>,
    marked: Agent,
    answer: Seq<char>,
    resolved: Agent,
)
    requires
        id.len() > 0,
        given.len() > 0,
        a.marks(id, given, now, done_answer, marked),
        a.resolves(how, id, given, now, answer, resolved),
    ensures
        a.completeness.mark_done_outcome(id, given) is MarkedDone ==> {
            &&& marked.logged().len() == a.logged().len() + 1
            &&& marked.logged().last() matches LogView::Line(line) && text::occurs(line, id)
                && text::occurs(line, given)
        },
        a.completeness.refusal(id) is None ==> {
            &&& resolved.logged().len() == a.logged().len() + 1
            &&& resolved.logged().last() matches LogView::Line(line) && text::occurs(line, id)
                && text::occurs(line, given)
        },
        a.completeness.refusal(id) is Some ==> {
            &&& resolved.log == a.log
            &&& resolved.completeness.subtasks@ == a.completeness.subtasks@
            &&& text::occurs(answer, "ERROR"@)
            &&& text::occurs(answer, id)
        },
        resolved.completeness.snapshot_since_mark == a.completeness.snapshot_since_mark,
{
    broadcast use text::group_occurs;

    reveal_strlit("ERROR");
    reveal_strlit("ERROR: subtask '");
    reveal_strlit("ERROR: no subtask with id '");
    let terminal = "ERROR: subtask '"@;
    let unknown = "ERROR: no subtask with id '"@;
    assert(terminal.subrange(0, 5) =~= "ERROR"@);
    assert(text::occurs_at(terminal, "ERROR"@, 0));
    assert(unknown.subrange(0, 5) =~= "ERROR"@);
    assert(text::occurs_at(unknown, "ERROR"@, 0));
}

/// A declaration is written down with how many subtasks it has, a held back `finish()`
/// with how many are open, and a `finish()` that is let through with its summary.
pub proof fn law_decisions_are_written_down(
    a: Agent,
    rows: Seq<(Seq<char>, Seq<char>)>,
    now: u64,
    r: FinishStep,
    after: Agent,
)
    requires
        a.finishes(now, r, after),
    ensures
        text::occurs(declared_body(rows), "DECLARE: subtasks="@ + text::decimal(rows.len())),
        r is Blocked ==> (after.logged().last() matches LogView::Line(line) && text::occurs(
            line,
            text::decimal(
                completeness::count_kind(a.completeness.subtasks@, StatusKind::Pending),
            ),
        ) && text::occurs(line, a.session_id@)),
        r matches FinishStep::Accepted { task } ==> {
            &&& after.logged().last() matches LogView::Line(line) && text::occurs(
                line,
                stated_task(a.history.messages@),
            )
            &&& after.reported().len() == a.reported().len() + 1
            &&& after.reported().last() matches EventView::Summary { at, text } && at == now
                && text::occurs(text, stated_task(a.history.messages@))
            &&& task@.is_suffix_of(stated_task(a.history.messages@))
        },
{
    broadcast use text::group_occurs;

    lemma_pending_count(a.completeness.subtasks@);
    let stated = stated_task(a.history.messages@);
    completeness::law_summaries_name_the_task(a.attempted(), now, a.session_id@, stated);
    let w = completeness::summary_text(a.attempted(), now, a.session_id@, stated);
    assert(text::occurs("task: "@ + stated, stated));
    text::lemma_occurs_through(w, "task: "@ + stated, stated);
    history::law_the_task_comes_back_from_its_message(stated, stated);
}

/// The task that a summary names is the first thing that the user said, or that nothing
/// is recorded.
pub proof fn law_summaries_are_of_the_stated_task(messages: Seq<HistoryMessage>)
    ensures
        history::first_user_content(messages) matches Some(said) ==> stated_task(messages) == said,
        history::first_user_content(messages) is None ==> stated_task(messages)
            == "(no task recorded)"@,
{
}

/// A mark that lacks its id or its reason is answered with what it lacks, and one that
/// has both is not.
pub proof fn law_incomplete_marks_are_told(how: Resolution, id: Seq<char>, reason: Seq<char>)
    ensures
        incomplete_call(how, id, reason) is None <==> id.len() > 0 && reason.len() > 0,
        incomplete_call(how, id, reason) matches Some(e) ==> text::occurs(
            e,
            "ERROR: mark_subtask_"@ + how.spec_word(),
        ),
        id.len() > 0 && reason.len() == 0 ==> (incomplete_call(how, id, reason) matches Some(e)
            && text::occurs(e, id)),
        how is Skipped ==> how.spec_word() == "skipped"@,
        how is Failed ==> how.spec_word() == "failed"@,
{
    broadcast use text::group_occurs;

}

} // verus!
