//! Carrying out the calls of the model: what each tool answers, and how the agent
//! changes.

use vstd::prelude::*;
use crate::agent::{Agent, AgentEvent, EventView, LogView, LoopState};
use crate::agent;
use crate::clock;
use crate::history::HistoryMessage;
use crate::model_reply::ModelCall;
use crate::pacing::{PacedAction, PacingDecision};
use crate::pacing;
use crate::session::TransitionRecord;
use crate::session;
use crate::summarizer::ProgressLine;
use crate::summarizer;
use crate::text;
use crate::tools::{CallView, ToolCall};
use crate::tools;

verus! {

// ---------------------------------------------------------------------------
// The call that is carried out
// ---------------------------------------------------------------------------

/// The call that is carried out, with the words under which it is reported.
#[derive(Debug)]
pub struct Dispatch {
    pub name: String,
    pub args: String,
    pub call: ToolCall,
}

/// The arguments of a click that closes a dialog.
pub open spec fn dismiss_args(reference: Seq<char>) -> Seq<char> {
    "{\"ref\":\""@ + reference + "\"}"@
}

impl Agent {
    /// What is carried out in the place of a call of the model, and what is left then.
    pub open spec fn dispatches(self, asked: ModelCall, r: Dispatch, after: Agent) -> bool {
        &&& match self.state.pending_modal_dismiss {
            Some(reference) => {
                &&& r.name@ == "click"@
                &&& r.args@ == dismiss_args(reference@)
                &&& r.call@ == (CallView::Click { reference: reference@ })
                &&& after == (Agent {
                    state: LoopState { pending_modal_dismiss: None, ..self.state },
                    log: after.log,
                    ..self
                })
                &&& after.logged() == self.logged().push(
                    LogView::Resilience {
                        kind: "modal_dismiss_dispatch"@,
                        detail: "dismiss_ref="@ + reference@ + " original_tool="@
                            + asked.name@,
                    },
                )
            },
            None => {
                &&& r.name@ == asked.name@
                &&& r.args@ == asked.args@
                &&& r.call@ == tools::call_of(asked.name@, asked.args@)
                &&& after == self
            },
        }
    }

    /// The call that is carried out. Where a dialog has to be closed first, it is a
    /// click on it in place of what the model asked for.
    pub fn choose_dispatch(&mut self, asked: &ModelCall) -> (r: Dispatch)
        ensures
            old(self).dispatches(*asked, r, *final(self)),
    {
        let mut pending: Option<String> = None;
        std::mem::swap(&mut pending, &mut self.state.pending_modal_dismiss);
        match pending {
            Some(reference) => {
                let mut detail = text::owned("dismiss_ref=");
                detail.append(reference.as_str());
                detail.append(" original_tool=");
                detail.append(asked.name.as_str());
                self.log_resilience("modal_dismiss_dispatch", detail);
                let mut args = text::owned("{\"ref\":\"");
                args.append(reference.as_str());
                args.append("\"}");
                Dispatch { name: text::owned("click"), args, call: ToolCall::Click { reference } }
            },
            None => Dispatch {
                name: asked.name.clone(),
                args: asked.args.clone(),
                call: tools::parse_call(asked.name.as_str(), asked.args.as_str()),
            },
        }
    }
}

// ---------------------------------------------------------------------------
// Reports on a call
// ---------------------------------------------------------------------------

/// The transcript line of a call: time stamp, observation, call and result.
pub open spec fn call_line(
    ts: u64,
    observation: Seq<char>,
    name: Seq<char>,
    args: Seq<char>,
    result: Seq<char>,
) -> Seq<char> {
    "["@ + text::decimal(ts as nat) + "] ["@ + observation + "] TOOL CALL: "@ + name + " (args: "@
        + args + ")\nRESULT: "@ + result + "\n\n"@
}

pub(crate) fn render_call(ts: u64, observation: &str, name: &str, args: &str, result: &str) -> (r: String)
    ensures
        r@ == call_line(ts, observation@, name@, args@, result@),
{
    let mut out = text::owned("[");
    out.append(text::decimal_of(ts).as_str());
    out.append("] [");
    out.append(observation);
    out.append("] TOOL CALL: ");
    out.append(name);
    out.append(" (args: ");
    out.append(args);
    out.append(")\nRESULT: ");
    out.append(result);
    out.append("\n\n");
    out
}

/// A note on a call, before it is stamped.
#[derive(Debug)]
pub struct ProgressNote {
    pub kind: String,
    pub text: String,
    pub success: bool,
}

impl Agent {
    /// Whether one more note can be counted.
    pub open spec fn can_note(self) -> bool {
        self.live_progress.total < u64::MAX
    }

    /// What is kept of a note on the progress of the task.
    pub open spec fn notes(
        self,
        note: Option<ProgressNote>,
        now: u64,
        r: Option<ProgressLine>,
        after: Agent,
    ) -> bool {
        &&& after.wf()
        &&& match note {
            None => r is None && after == self,
            Some(n) => {
                let line = ProgressLine {
                    kind: n.kind,
                    text: n.text,
                    timestamp_secs: now,
                    success: n.success,
                };
                &&& r == Some(line)
                &&& after == (Agent {
                    live_progress: after.live_progress,
                    events: after.events,
                    ..self
                })
                &&& after.live_progress.cap == self.live_progress.cap
                &&& after.live_progress.total == self.live_progress.total + 1
                &&& after.live_progress.lines@ == summarizer::last_of(
                    self.live_progress.lines@.push(line),
                    self.live_progress.cap as nat,
                )
                &&& after.reported() == self.reported().push(
                    EventView::Progress {
                        at: now,
                        text: n.text@,
                        kind: n.kind@,
                        success: n.success,
                    },
                )
            },
        }
    }

    /// Keeps and reports a note on a call, at the given second. A call that is not
    /// worth a note leaves nothing.
    pub fn emit_progress_line_at(&mut self, note: Option<ProgressNote>, now: u64) -> (r: Option<
        ProgressLine,
    >)
        requires
            old(self).wf(),
            old(self).can_note(),
        ensures
            old(self).notes(note, now, r, *final(self)),
    {
        match note {
            None => None,
            Some(n) => {
                let line = ProgressLine {
                    kind: n.kind,
                    text: n.text,
                    timestamp_secs: now,
                    success: n.success,
                };
                self.live_progress.push(line.clone());
                self.report(
                    AgentEvent::ProgressLine {
                        timestamp_secs: now,
                        text: line.text.clone(),
                        kind: line.kind.clone(),
                        success: line.success,
                    },
                );
                Some(line)
            },
        }
    }

    /// Keeps and reports a note on a call.
    pub fn emit_progress_line(&mut self, note: Option<ProgressNote>) -> (r: Option<ProgressLine>)
        requires
            old(self).wf(),
            old(self).can_note(),
        ensures
            final(self).wf(),
            match note {
                None => r is None && *final(self) == *old(self),
                Some(n) => {
                    &&& r is Some
                    &&& r->0.kind == n.kind
                    &&& r->0.text == n.text
                    &&& r->0.success == n.success
                    &&& *final(self) == (Agent {
                        live_progress: final(self).live_progress,
                        events: final(self).events,
                        ..*old(self)
                    })
                    &&& final(self).live_progress.cap == old(self).live_progress.cap
                    &&& final(self).live_progress.total == old(self).live_progress.total + 1
                    &&& final(self).live_progress.lines@ == summarizer::last_of(
                        old(self).live_progress.lines@.push(r->0),
                        old(self).live_progress.cap as nat,
                    )
                    &&& final(self).reported() == old(self).reported().push(
                        EventView::Progress {
                            at: r->0.timestamp_secs,
                            text: n.text@,
                            kind: n.kind@,
                            success: n.success,
                        },
                    )
                },
            },
    {
        let now: u64 = clock::now_secs();
        self.emit_progress_line_at(note, now)
    }

    /// How a carried out call is kept: as an answer to the model, in the log and as an event.
    pub open spec fn records(
        self,
        asked: ModelCall,
        observation: Seq<char>,
        result: Seq<char>,
        now: u64,
        after: Agent,
    ) -> bool {
        &&& after == (Agent {
            history: after.history,
            log: after.log,
            events: after.events,
            ..self
        })
        &&& answered(
            after.history.messages@,
            self.history.messages@,
            asked.id@,
            result,
        )
        &&& after.logged() == self.logged().push(
            LogView::Line(call_line(now, observation, asked.name@, asked.args@, result)),
        )
        &&& after.reported() == self.reported().push(
            EventView::Tool { at: now, name: asked.name@, args: asked.args@, result: result },
        )
    }

    /// Answers a call of the model, and records it in the transcript and among the
    /// reports.
    pub fn record_call(&mut self, asked: &ModelCall, observation: &str, result: &str, now: u64)
        ensures
            old(self).records(*asked, observation@, result@, now, *final(self)),
    {
        self.history.push_tool(asked.id.as_str(), result);
        self.log_line(
            render_call(now, observation, asked.name.as_str(), asked.args.as_str(), result),
        );
        self.report(
            AgentEvent::Tool {
                timestamp_secs: now,
                name: asked.name.clone(),
                args: asked.args.clone(),
                result: text::owned(result),
            },
        );
    }

    /// What is taken out as the result of the task, and what is left then.
    pub open spec fn hands_over(self, r: Option<String>, after: Agent) -> bool {
        &&& r == self.state.pending_finish_result
        &&& after == (Agent {
            state: LoopState { pending_finish_result: None, ..self.state },
            ..self
        })
    }

    /// The result of the task, once `finish()` was accepted.
    pub fn take_result(&mut self) -> (r: Option<String>)
        ensures
            old(self).hands_over(r, *final(self)),
    {
        let mut out: Option<String> = None;
        std::mem::swap(&mut out, &mut self.state.pending_finish_result);
        out
    }

    /// Records a change of the session's state.
    pub fn write_state_line(&mut self, record: &TransitionRecord)
        ensures
            *final(self) == (Agent {
                log: final(self).log,
                events: final(self).events,
                ..*old(self)
            }),
            final(self).logged() == old(self).logged().push(
                LogView::Line(session::state_text(old(self).session_id@, *record)),
            ),
            final(self).reported() == old(self).reported().push(EventView::State(*record)),
    {
        let line = session::state_line(self.session_id.as_str(), record);
        self.log_line(line);
        self.report(AgentEvent::State(record.clone()));
    }

    /// What is written down of the last change of the session.
    pub open spec fn follows(self, last: Option<TransitionRecord>, after: Agent) -> bool {
        &&& match last {
            Some(record) if record.from@ != record.to@ => {
                &&& after == (Agent {
                    log: after.log,
                    events: after.events,
                    ..self
                })
                &&& after.logged() == self.logged().push(
                    LogView::Line(session::state_text(self.session_id@, record)),
                )
                &&& after.reported() == self.reported().push(
                    EventView::State(record),
                )
            },
            _ => after == self,
        }
    }

    /// Records the last change of the session's state, where it was one.
    pub fn note_transition(&mut self, last: &Option<TransitionRecord>)
        ensures
            old(self).follows(*last, *final(self)),
    {
        if let Some(record) = last {
            if !text::same(record.from.as_str(), record.to.as_str()) {
                self.write_state_line(record);
            }
        }
    }
}

/// Whether `after` is `before` with the answer to a call behind it.
pub open spec fn answered(
    after: Seq<HistoryMessage>,
    before: Seq<HistoryMessage>,
    call_id: Seq<char>,
    result: Seq<char>,
) -> bool {
    &&& after.len() == before.len() + 1
    &&& after.drop_last() == before
    &&& after.last().answers(call_id, result)
}

// ---------------------------------------------------------------------------
// Actions that cannot be undone
// ---------------------------------------------------------------------------

/// Why the session is paused before an action that cannot be undone.
pub open spec fn gate_pause(kind: Seq<char>, target: Seq<char>) -> Seq<char> {
    "irreversible action: "@ + kind + " (target: "@ + target + ") — awaiting user confirmation"@
}

/// What the model is answered.
pub open spec fn gate_answer(kind: Seq<char>, target: Seq<char>) -> Seq<char> {
    "IRREVERSIBLE ACTION GATE: I'm about to "@ + kind + " (target: "@ + target
        + "). I need your confirmation before I proceed. The agent is now paused — please confirm in the chat to resume, or send a steering message to redirect."@
}

/// What is reported.
pub open spec fn gate_result(kind: Seq<char>, target: Seq<char>) -> Seq<char> {
    "GATE: irreversible action "@ + kind + " (target: "@ + target
        + ") paused for user confirmation. Loop will park on next iteration until resumed."@
}

/// The words for an action in the transcript.
pub open spec fn gate_detail(kind: Seq<char>, target: Seq<char>) -> Seq<char> {
    "action="@ + kind + " target="@ + target
}

fn render_gate_detail(kind: &str, target: &str) -> (r: String)
    ensures
        r@ == gate_detail(kind@, target@),
{
    let mut detail = text::owned("action=");
    detail.append(kind);
    detail.append(" target=");
    detail.append(target);
    detail
}

impl Agent {
    /// Why the session is paused for an action, and what is logged of it.
    pub open spec fn holds(
        self,
        kind: Seq<char>,
        target: Seq<char>,
        r: Seq<char>,
        after: Agent,
    ) -> bool {
        &&& r == gate_pause(kind, target)
        &&& after == (Agent { log: after.log, ..self })
        &&& after.logged() == self.logged().push(
            LogView::Resilience {
                kind: "irreversible_gate"@,
                detail: gate_detail(kind, target),
            },
        )
    }

    /// Logs that an action is held back, and says why the session is paused.
    pub fn hold_action(&mut self, kind: &str, target: &str) -> (r: String)
        ensures
            old(self).holds(kind@, target@, r@, *final(self)),
    {
        self.log_resilience("irreversible_gate", render_gate_detail(kind, target));
        let mut out = text::owned("irreversible action: ");
        out.append(kind);
        out.append(" (target: ");
        out.append(target);
        out.append(") — awaiting user confirmation");
        out
    }

    /// How a call that is held back is answered.
    pub open spec fn puts_off(
        self,
        asked: ModelCall,
        dispatch: Dispatch,
        kind: Seq<char>,
        target: Seq<char>,
        now: u64,
        r: Seq<char>,
        after: Agent,
    ) -> bool {
        &&& r == gate_result(kind, target)
        &&& after == (Agent {
            history: after.history,
            log: after.log,
            events: after.events,
            ..self
        })
        &&& answered(
            after.history.messages@,
            self.history.messages@,
            asked.id@,
            gate_answer(kind, target),
        )
        &&& after.logged() == self.logged().push(
            LogView::Line(
                agent::entry_text(
                    now,
                    self.session_id@,
                    "GATE-IRREVERSIBLE: "@ + gate_detail(kind, target),
                ),
            ),
        )
        &&& after.reported() == self.reported().push(
            EventView::Tool {
                at: now,
                name: dispatch.name@,
                args: dispatch.args@,
                result: gate_result(kind, target),
            },
        )
    }

    /// Answers the call of an action that is held back, and reports it.
    pub fn answer_held(
        &mut self,
        asked: &ModelCall,
        dispatch: &Dispatch,
        kind: &str,
        target: &str,
        now: u64,
    ) -> (r: String)
        ensures
            old(self).puts_off(*asked, *dispatch, kind@, target@, now, r@, *final(self)),
    {
        let mut answer = text::owned("IRREVERSIBLE ACTION GATE: I'm about to ");
        answer.append(kind);
        answer.append(" (target: ");
        answer.append(target);
        answer.append(
            "). I need your confirmation before I proceed. The agent is now paused — please confirm in the chat to resume, or send a steering message to redirect.",
        );
        self.history.push_tool(asked.id.as_str(), answer.as_str());
        let mut body = text::owned("GATE-IRREVERSIBLE: ");
        body.append(render_gate_detail(kind, target).as_str());
        let line = agent::entry(now, self.session_id.as_str(), body.as_str());
        self.log_line(line);
        let mut result = text::owned("GATE: irreversible action ");
        result.append(kind);
        result.append(" (target: ");
        result.append(target);
        result.append(
            ") paused for user confirmation. Loop will park on next iteration until resumed.",
        );
        self.report(
            AgentEvent::Tool {
                timestamp_secs: now,
                name: dispatch.name.clone(),
                args: dispatch.args.clone(),
                result: result.clone(),
            },
        );
        result
    }

    /// Whether one more action can be counted by the pacing guard.
    pub open spec fn can_pace(self) -> bool {
        self.pacing.can_count()
    }

    /// The transcript after a pacing decision. The line names the tool that the
    /// model asked for; a tool that is not paced by itself gets none.
    pub open spec fn paced_log(self, asked: Seq<char>, d: PacingDecision, now: u64) -> Seq<
        LogView,
    > {
        match PacedAction::named(asked) {
            Some(action) => match pacing::pacing_line(now, self.session_id@, action, d) {
                Some(line) => self.logged().push(LogView::Line(line)),
                None => self.logged(),
            },
            None => self.logged(),
        }
    }

    fn log_pace(&mut self, asked: &str, d: &PacingDecision, now: u64)
        ensures
            *final(self) == (Agent { log: final(self).log, ..*old(self) }),
            final(self).logged() == old(self).paced_log(asked@, *d, now),
    {
        if let Some(action) = PacedAction::from_tool_name(asked) {
            if let Some(line) = pacing::log_pacing_decision_at(
                now,
                self.session_id.as_str(),
                action,
                d,
            ) {
                self.log_line(line);
            }
        }
    }

    /// Decides how long to wait before a call is carried out, with the random part
    /// of the delay given.
    pub fn pace_with(&mut self, dispatched: &str, asked: &str, jitter: u64, now: u64) -> (r:
        PacingDecision)
        requires
            old(self).can_pace(),
            jitter <= old(self).pacing.config.spread(),
        ensures
            *final(self) == (Agent {
                pacing: final(self).pacing,
                log: final(self).log,
                ..*old(self)
            }),
            final(self).pacing.config == old(self).pacing.config,
            final(self).pacing.streak == old(self).pacing.next_streak(dispatched@),
            old(self).pacing.decides(dispatched@, jitter, r),
            final(self).logged() == old(self).paced_log(asked@, r, now),
    {
        let decision = self.pacing.before_action_with(dispatched, jitter);
        self.log_pace(asked, &decision, now);
        decision
    }

    /// Decides how long to wait before a call is carried out.
    pub fn pace(&mut self, dispatched: &str, asked: &str, now: u64) -> (r: PacingDecision)
        requires
            old(self).can_pace(),
        ensures
            *final(self) == (Agent {
                pacing: final(self).pacing,
                log: final(self).log,
                ..*old(self)
            }),
            final(self).pacing.config == old(self).pacing.config,
            final(self).pacing.streak == old(self).pacing.next_streak(dispatched@),
            exists|jitter: u64|
                jitter <= old(self).pacing.config.spread() && #[trigger] old(self).pacing.decides(
                    dispatched@,
                    jitter,
                    r,
                ),
            final(self).logged() == old(self).paced_log(asked@, r, now),
    {
        let decision = self.pacing.before_action(dispatched);
        self.log_pace(asked, &decision, now);
        decision
    }
}

// ---------------------------------------------------------------------------
// Laws
// ---------------------------------------------------------------------------

/// Where no dialog is in the way, the call that the model asked for is the one that is
/// carried out, with the arguments that it gave.
pub proof fn law_the_asked_call_is_carried_out(
    a: Agent,
    asked: ModelCall,
    r: Dispatch,
    after: Agent,
)
    requires
        a.dispatches(asked, r, after),
        a.state.pending_modal_dismiss is None,
    ensures
        r.name@ == asked.name@,
        r.args@ == asked.args@,
        r.call@ == tools::call_of(asked.name@, asked.args@),
        after == a,
{
}

/// A dialog that is in the way is closed first, by a click on what closes it, and once:
/// the next call is the one that the model asks for.
pub proof fn law_a_dialog_is_closed_once(
    a: Agent,
    asked: ModelCall,
    r: Dispatch,
    mid: Agent,
    again: ModelCall,
    next: Dispatch,
    after: Agent,
)
    requires
        a.state.pending_modal_dismiss is Some,
        a.dispatches(asked, r, mid),
        mid.dispatches(again, next, after),
    ensures
        r.call@ == (CallView::Click { reference: a.state.pending_modal_dismiss->0@ }),
        r.name@ == "click"@,
        text::occurs(r.args@, a.state.pending_modal_dismiss->0@),
        mid.history == a.history,
        mid.completeness == a.completeness,
        next.call@ == tools::call_of(again.name@, again.args@),
        after == mid,
{
    broadcast use text::group_occurs;

}

/// The line of a call shows its name, its arguments and what came of it.
pub proof fn law_call_lines_show_the_call(
    ts: u64,
    observation: Seq<char>,
    name: Seq<char>,
    args: Seq<char>,
    result: Seq<char>,
)
    ensures
        text::occurs(call_line(ts, observation, name, args, result), text::decimal(ts as nat)),
        text::occurs(call_line(ts, observation, name, args, result), observation),
        text::occurs(call_line(ts, observation, name, args, result), "TOOL CALL: "@ + name),
        text::occurs(call_line(ts, observation, name, args, result), " (args: "@ + args),
        text::occurs(call_line(ts, observation, name, args, result), ")\nRESULT: "@ + result),
{
    broadcast use text::group_occurs;

    reveal_strlit("] TOOL CALL: ");
    reveal_strlit("TOOL CALL: ");
    let head = "["@ + text::decimal(ts as nat) + "] ["@ + observation;
    assert("] TOOL CALL: "@ == seq![']', ' '] + "TOOL CALL: "@);
    assert(text::occurs((seq![']', ' '] + "TOOL CALL: "@) + name, "TOOL CALL: "@ + name));
    assert(text::occurs((head + "] TOOL CALL: "@) + name, "] TOOL CALL: "@ + name));
    text::lemma_occurs_through(
        (head + "] TOOL CALL: "@) + name,
        "] TOOL CALL: "@ + name,
        "TOOL CALL: "@ + name,
    );
}

/// What came of a call is told to the model under the id of that call, behind all that
/// was said before, and it is reported and logged.
pub proof fn law_the_model_is_told_what_came_of_a_call(
    a: Agent,
    asked: ModelCall,
    observation: Seq<char>,
    result: Seq<char>,
    now: u64,
    after: Agent,
)
    requires
        a.records(asked, observation, result, now, after),
    ensures
        after.history.messages@.len() == a.history.messages@.len() + 1,
        forall|i: int|
            0 <= i < a.history.messages@.len() ==> #[trigger] after.history.messages@[i]
                == a.history.messages@[i],
        after.history.messages@.last().role is Some,
        after.history.messages@.last().role->0@ == "tool"@,
        after.history.messages@.last().content is Some,
        after.history.messages@.last().content->0@ == result,
        after.history.messages@.last().tool_call_id is Some,
        after.history.messages@.last().tool_call_id->0@ == asked.id@,
        after.reported().last() == (EventView::Tool {
            at: now,
            name: asked.name@,
            args: asked.args@,
            result,
        }),
        after.logged().len() == a.logged().len() + 1,
        after.completeness == a.completeness,
        after.state == a.state,
{
    let before = a.history.messages@;
    let said = after.history.messages@;
    assert forall|i: int| 0 <= i < before.len() implies #[trigger] said[i] == before[i] by {
        assert(said.drop_last()[i] == said[i]);
    }
}

/// The result of a task is handed over as it was put down, and only once.
pub proof fn law_results_are_handed_over_once(
    a: Agent,
    first: Option<String>,
    mid: Agent,
    second: Option<String>,
    after: Agent,
)
    requires
        a.hands_over(first, mid),
        mid.hands_over(second, after),
    ensures
        first == a.state.pending_finish_result,
        second is None,
        mid.history == a.history,
        mid.log == a.log,
        after == mid,
{
}

/// Wherever an action is held back, its kind and its target are named.
pub proof fn law_held_actions_are_named(kind: Seq<char>, target: Seq<char>)
    ensures
        text::occurs(gate_pause(kind, target), kind),
        text::occurs(gate_pause(kind, target), target),
        text::occurs(gate_answer(kind, target), kind),
        text::occurs(gate_answer(kind, target), target),
        text::occurs(gate_result(kind, target), kind),
        text::occurs(gate_result(kind, target), target),
        text::occurs(gate_detail(kind, target), "action="@ + kind),
        text::occurs(gate_detail(kind, target), " target="@ + target),
{
    broadcast use text::group_occurs;

}

/// A call that is held back is answered under its id with the action that waits for a
/// yes, and nothing is carried out for it: all else stays as it was.
pub proof fn law_held_calls_are_answered(
    a: Agent,
    asked: ModelCall,
    dispatch: Dispatch,
    kind: Seq<char>,
    target: Seq<char>,
    now: u64,
    r: Seq<char>,
    after: Agent,
)
    requires
        a.puts_off(asked, dispatch, kind, target, now, r, after),
    ensures
        after.history.messages@.len() == a.history.messages@.len() + 1,
        after.history.messages@.drop_last() == a.history.messages@,
        after.history.messages@.last().tool_call_id is Some,
        after.history.messages@.last().tool_call_id->0@ == asked.id@,
        after.history.messages@.last().content is Some,
        text::occurs(after.history.messages@.last().content->0@, kind),
        text::occurs(after.history.messages@.last().content->0@, target),
        text::occurs(r, kind),
        text::occurs(r, target),
        after.completeness == a.completeness,
        after.state == a.state,
        after.reported().last() == (EventView::Tool {
            at: now,
            name: dispatch.name@,
            args: dispatch.args@,
            result: r,
        }),
{
    law_held_actions_are_named(kind, target);
}

/// The last lines of the live progress are the last notes: a new one stands at the end,
/// the older ones stay before it in their order as far as there is room.
pub proof fn law_notes_are_kept_at_the_end(
    a: Agent,
    note: ProgressNote,
    now: u64,
    r: Option<ProgressLine>,
    after: Agent,
)
    requires
        a.wf(),
        a.live_progress.cap > 0,
        a.notes(Some(note), now, r, after),
    ensures
        r is Some,
        r->0.text == note.text,
        r->0.kind == note.kind,
        r->0.success == note.success,
        r->0.timestamp_secs == now,
        after.live_progress.lines@.last() == r->0,
        after.live_progress.lines@.len() <= a.live_progress.cap,
        after.live_progress.lines@.drop_last().is_suffix_of(a.live_progress.lines@),
        a.live_progress.lines@.len() < a.live_progress.cap
            ==> after.live_progress.lines@.drop_last() == a.live_progress.lines@,
        after.reported().len() == a.reported().len() + 1,
        after.live_progress.cap == a.live_progress.cap,
        after.live_progress.total == a.live_progress.total + 1,
        after.history == a.history,
{
}

/// A change of the session is written down where it is one, with both its states.
pub proof fn law_transitions_are_written_down(
    a: Agent,
    record: TransitionRecord,
    after: Agent,
)
    requires
        a.follows(Some(record), after),
    ensures
        record.from@ != record.to@ ==> {
            &&& after.logged().len() == a.logged().len() + 1
            &&& after.reported().last() == EventView::State(record)
            &&& after.logged().last() matches LogView::Line(line) && text::occurs(line, record.from@)
                && text::occurs(line, record.to@)
        },
        record.from@ == record.to@ ==> after == a,
        after.history == a.history,
{
    broadcast use text::group_occurs;

}

/// The line of the log on the pace of a call grows the log by one where the call waits,
/// and by none where it does not or is not one that is paced.
pub proof fn law_only_waits_are_logged(a: Agent, asked: Seq<char>, d: PacingDecision, now: u64)
    ensures
        d is NoPacing ==> a.paced_log(asked, d, now) == a.logged(),
        PacedAction::named(asked) is None ==> a.paced_log(asked, d, now) == a.logged(),
        d is Pace && PacedAction::named(asked) is Some ==> {
            let log = a.paced_log(asked, d, now);
            &&& log.len() == a.logged().len() + 1
            &&& log.drop_last() == a.logged()
            &&& log.last() matches LogView::Line(line) && text::occurs(line, asked)
        },
{
    broadcast use text::group_occurs;

    if let Some(action) = PacedAction::named(asked) {
        pacing::law_names_match(action, asked);
        pacing::law_waits_are_logged(now, a.session_id@, action, d);
        if d is Pace {
            let line = pacing::pacing_line(now, a.session_id@, action, d)->0;
            assert(text::occurs("] PACING: action="@ + asked, asked));
            text::lemma_occurs_through(line, "] PACING: action="@ + asked, asked);
            assert(a.logged().push(LogView::Line(line)).drop_last() =~= a.logged());
        }
    }
}

/// The session is paused for an action with a reason that names it, and the pause is
/// logged with the same; nothing is carried out.
pub proof fn law_pauses_name_the_action(
    a: Agent,
    kind: Seq<char>,
    target: Seq<char>,
    r: Seq<char>,
    after: Agent,
)
    requires
        a.holds(kind, target, r, after),
    ensures
        text::occurs(r, kind),
        text::occurs(r, target),
        after.logged().len() == a.logged().len() + 1,
        after.logged().last() matches LogView::Resilience { detail, .. } && text::occurs(
            detail,
            kind,
        ) && text::occurs(detail, target),
        after.history == a.history,
        after.completeness == a.completeness,
        after.state == a.state,
{
    broadcast use text::group_occurs;

}

} // verus!
