//! The protocol of one user turn: what is reported to the user, and in which
//! order.
//!
//! The work between the reports (classifying a message, running the browser) is
//! done by the caller. Each function here reports what is due at its point of the
//! protocol to a `TurnSink`, so that a browser task is always announced, answered
//! and closed.

use vstd::prelude::*;
use crate::chat_agent::ChatAgent;
use crate::chat_agent;
use crate::handoff::{BrowserResult, BrowserStatus, Handoff};
use crate::planner;
use crate::router::{ConversationMessage, Intent};
use crate::text;
use crate::todo::{EvidenceMismatch, Todo};

verus! {

/// What is reported to the user.
#[derive(Debug, PartialEq, Eq)]
pub enum OrchestratorEvent {
    /// A browser task begins.
    TaskStarted { originating_message_id: String, task_description: String },
    /// A message sent while a task runs has been received.
    SteeringAcknowledged { originating_message_id: String, text: String },
    /// A browser task has come back; a `ChatReply` follows.
    BrowserResultReady { originating_message_id: String, result: BrowserResult },
    /// The reply to the user.
    ChatReply { originating_message_id: String, text: String },
    /// A browser task is over.
    TaskCompleted {
        originating_message_id: String,
        status: BrowserStatus,
        step_count: u32,
        summary: String,
    },
    /// A todo has changed.
    TodoStateChanged { task_id: String, todo: Todo },
    /// A worker's report was turned down (`evidence`), or a todo was cancelled
    /// (`reason`).
    TodoRejected {
        task_id: String,
        todo_id: String,
        evidence: Option<EvidenceMismatch>,
        reason: Option<String>,
    },
}

/// Where reports go.
pub trait TurnSink {
    /// Everything reported so far, oldest first.
    spec fn emitted(&self) -> Seq<OrchestratorEvent>;

    /// Reports one event.
    fn emit(&mut self, event: OrchestratorEvent)
        ensures
            final(self).emitted() == old(self).emitted().push(event),
    ;
}

/// A sink that keeps what is reported.
#[derive(Debug)]
pub struct EventLog {
    pub events: Vec<OrchestratorEvent>,
}

impl EventLog {
    pub fn new() -> (r: Self)
        ensures
            r.events@ == Seq::<OrchestratorEvent>::empty(),
    {
        EventLog { events: Vec::new() }
    }
}

impl TurnSink for EventLog {
    open spec fn emitted(&self) -> Seq<OrchestratorEvent> {
        self.events@
    }

    fn emit(&mut self, event: OrchestratorEvent) {
        self.events.push(event);
    }
}

// ---------------------------------------------------------------------------
// Single reports
// ---------------------------------------------------------------------------

/// The announcement of a browser task.
pub open spec fn is_task_started(e: OrchestratorEvent, h: Handoff) -> bool {
    e == (OrchestratorEvent::TaskStarted {
        originating_message_id: h.originating_message_id,
        task_description: h.task_description,
    })
}

/// The report that a browser task has come back.
pub open spec fn is_result_ready(e: OrchestratorEvent, h: Handoff, r: BrowserResult) -> bool {
    &&& e is BrowserResultReady
    &&& e->BrowserResultReady_originating_message_id == h.originating_message_id
    &&& e->BrowserResultReady_result.same(r)
}

/// A reply to the message with the given id.
pub open spec fn is_chat_reply(e: OrchestratorEvent, id: Seq<char>, reply: Seq<char>) -> bool {
    &&& e is ChatReply
    &&& e->ChatReply_originating_message_id@ == id
    &&& e->ChatReply_text@ == reply
}

/// The report that a browser task is over: as many steps as there are findings,
/// and the summary of the result, or the reply where it has none.
pub open spec fn is_task_completed(
    e: OrchestratorEvent,
    h: Handoff,
    r: BrowserResult,
    reply: Seq<char>,
) -> bool {
    &&& e is TaskCompleted
    &&& e->TaskCompleted_originating_message_id == h.originating_message_id
    &&& e->status == r.status
    &&& e->step_count == r.key_findings@.len() as u32
    &&& e->summary@ == if r.summary@.len() == 0 {
        reply
    } else {
        r.summary@
    }
}

/// Confirms to the user that a message sent while a task runs was received.
pub fn acknowledge_steering<S: TurnSink>(
    sink: &mut S,
    originating_message_id: &str,
    text: &str,
)
    ensures
        exists|e: OrchestratorEvent|
            {
                &&& #[trigger] old(sink).emitted().push(e) == final(sink).emitted()
                &&& e is SteeringAcknowledged
                &&& e->SteeringAcknowledged_originating_message_id@ == originating_message_id@
                &&& e->SteeringAcknowledged_text@ == text@
            },
{
    let event = OrchestratorEvent::SteeringAcknowledged {
        originating_message_id: text::owned(originating_message_id),
        text: text::owned(text),
    };
    let ghost e = event;
    sink.emit(event);
    assert(old(sink).emitted().push(e) == sink.emitted());
}

// ---------------------------------------------------------------------------
// A browser task
// ---------------------------------------------------------------------------

/// Why a task failed whose browser agent could not be started.
pub open spec fn start_failure() -> Seq<char> {
    "I couldn't start the browser task. The browser may not be reachable — try again, and if it keeps failing, restart the app."@
}

/// Whether a browser task goes through the planner and its workers: the settings say
/// so, and there are workers.
pub fn goes_through_planner(chat: &ChatAgent, has_workers: bool) -> (r: bool)
    ensures
        r == (chat.config.agent.planner_enabled && has_workers),
{
    chat.config.agent.planner_enabled && has_workers
}

/// Announces a browser task.
pub fn begin_browser_task<S: TurnSink>(sink: &mut S, handoff: &Handoff)
    ensures
        exists|e: OrchestratorEvent|
            {
                &&& #[trigger] old(sink).emitted().push(e) == final(sink).emitted()
                &&& is_task_started(e, *handoff)
            },
{
    let event = OrchestratorEvent::TaskStarted {
        originating_message_id: handoff.originating_message_id.clone(),
        task_description: handoff.task_description.clone(),
    };
    let ghost e = event;
    sink.emit(event);
    assert(old(sink).emitted().push(e) == sink.emitted());
}

/// What a browser task ends with.
pub open spec fn task_ended(outcome: Option<BrowserResult>, r: BrowserResult) -> bool {
    match outcome {
        Some(result) => r == result,
        None => {
            &&& r.status == BrowserStatus::Failed
            &&& r.session_id@ == "unknown-session"@
            &&& r.failure_reason@ == start_failure()
            &&& r.summary@.len() == 0
            &&& r.key_findings@.len() == 0
            &&& r.findings@.len() == 0
            &&& r.final_snapshot_signature is None
            &&& r.raw_transcript_ref is None
        },
    }
}

/// The result of a browser task: that of the browser agent, or a failure where the
/// agent could not be started.
pub fn task_result(outcome: Option<BrowserResult>) -> (r: BrowserResult)
    ensures
        task_ended(outcome, r),
{
    match outcome {
        Some(result) => result,
        None => BrowserResult::failure(
            "unknown-session",
            "I couldn't start the browser task. The browser may not be reachable — try again, and if it keeps failing, restart the app.",
            None,
        ),
    }
}

/// What closes a browser task: the result, the reply and the completion, in that
/// order.
pub open spec fn closing_events(
    s: Seq<OrchestratorEvent>,
    h: Handoff,
    r: BrowserResult,
    reply: Seq<char>,
) -> bool {
    &&& s.len() == 3
    &&& is_result_ready(s[0], h, r)
    &&& is_chat_reply(s[1], h.originating_message_id@, reply)
    &&& is_task_completed(s[2], h, r, reply)
}

/// Answers and closes a browser task, and returns the reply.
pub fn finish_browser_task<S: TurnSink>(
    sink: &mut S,
    chat: &ChatAgent,
    handoff: &Handoff,
    result: &BrowserResult,
    history: &[ConversationMessage],
) -> (r: String)
    ensures
        r@ == chat_agent::reply_text(chat.config.agent.planner_enabled, *result),
        r@.len() > 0,
        exists|s: Seq<OrchestratorEvent>|
            {
                &&& #[trigger] closing_events(s, *handoff, *result, r@)
                &&& final(sink).emitted() == old(sink).emitted() + s
            },
{
    let reply = chat.synthesize_reply(result, history, handoff);
    let ready = OrchestratorEvent::BrowserResultReady {
        originating_message_id: handoff.originating_message_id.clone(),
        result: result.clone(),
    };
    let said = OrchestratorEvent::ChatReply {
        originating_message_id: handoff.originating_message_id.clone(),
        text: reply.clone(),
    };
    let completed = OrchestratorEvent::TaskCompleted {
        originating_message_id: handoff.originating_message_id.clone(),
        status: result.status,
        step_count: #[verifier::truncate] (result.key_findings.len() as u32),
        summary: if result.summary.as_str().is_empty() {
            reply.clone()
        } else {
            result.summary.clone()
        },
    };
    let ghost s = seq![ready, said, completed];
    sink.emit(ready);
    sink.emit(said);
    sink.emit(completed);
    assert(closing_events(s, *handoff, *result, reply@));
    assert(sink.emitted() == old(sink).emitted() + s);
    reply
}

/// What one run of the browser agent ends with.
pub open spec fn run_ended(
    session_id: Seq<char>,
    outcome: Result<String, String>,
    transcript_ref: Option<String>,
    r: BrowserResult,
) -> bool {
    &&& r.session_id@ == session_id
    &&& r.raw_transcript_ref == transcript_ref
    &&& r.key_findings@.len() == 0
    &&& r.findings@.len() == 0
    &&& r.final_snapshot_signature is None
    &&& match outcome {
        Ok(text) => {
            &&& r.status == BrowserStatus::Done
            &&& r.summary@ == text@
            &&& r.failure_reason@.len() == 0
        },
        Err(e) => {
            &&& r.status == BrowserStatus::Failed
            &&& r.summary@.len() == 0
            &&& r.failure_reason@ == e@
        },
    }
}

/// The result of one run of the browser agent: its final answer, or its error.
pub fn agent_run_result(
    session_id: &str,
    outcome: Result<String, String>,
    transcript_ref: Option<String>,
) -> (r: BrowserResult)
    ensures
        run_ended(session_id@, outcome, transcript_ref, r),
{
    match outcome {
        Ok(text) => BrowserResult::done(
            session_id,
            text.as_str(),
            Vec::new(),
            None,
            transcript_ref,
        ),
        Err(e) => BrowserResult::failure(session_id, e.as_str(), transcript_ref),
    }
}

// ---------------------------------------------------------------------------
// A user turn
// ---------------------------------------------------------------------------

/// What a turn does once its message is classified.
#[derive(Debug, PartialEq, Eq)]
pub enum TurnStep {
    /// The turn is over, with this reply.
    Replied(String),
    /// The browser has work to do.
    Dispatch(Handoff),
    /// The browser has work to do, but there is no page to do it on.
    NoPage,
}

/// Why a browser task cannot run without a page.
pub open spec fn no_page_text() -> Seq<char> {
    "orchestrator: browser_task intent requires a &Page, got None"@
}

/// The message of `TurnStep::NoPage`.
pub fn no_page_message() -> (r: &'static str)
    ensures
        r@ == no_page_text(),
{
    "orchestrator: browser_task intent requires a &Page, got None"
}

/// What is made of a message of the user, and what is reported of it.
pub open spec fn turn_taken(
    before: Seq<OrchestratorEvent>,
    after: Seq<OrchestratorEvent>,
    message_id: Seq<char>,
    intent: Intent,
    has_page: bool,
    r: TurnStep,
) -> bool {
    match intent {
        Intent::Chat(reply) => {
            &&& r == TurnStep::Replied(reply)
            &&& exists|e: OrchestratorEvent|
                {
                    &&& #[trigger] before.push(e) == after
                    &&& is_chat_reply(e, message_id, reply@)
                }
        },
        Intent::BrowserTask(task) => {
            &&& after == before
            &&& r is NoPage <==> !has_page
            &&& has_page ==> {
                &&& r is Dispatch
                &&& r->Dispatch_0.task_description@ == task@
                &&& r->Dispatch_0.originating_message_id@ == message_id
                &&& r->Dispatch_0.constraints@.len() == 0
                &&& r->Dispatch_0.research_plan is None
                &&& chat_agent::planned_subtasks(r->Dispatch_0.subtasks@, task@)
            }
        },
    }
}

/// Takes a turn on from the classified message: a conversational message is
/// answered at once, a browser task is made ready for dispatch.
pub fn continue_turn<S: TurnSink>(
    sink: &mut S,
    chat: &ChatAgent,
    message_id: &str,
    intent: Intent,
    has_page: bool,
) -> (r: TurnStep)
    ensures
        turn_taken(
            old(sink).emitted(),
            final(sink).emitted(),
            message_id@,
            intent,
            has_page,
            r,
        ),
{
    match intent {
        Intent::Chat(reply) => {
            let event = OrchestratorEvent::ChatReply {
                originating_message_id: text::owned(message_id),
                text: reply.clone(),
            };
            let ghost e = event;
            sink.emit(event);
            assert(old(sink).emitted().push(e) == sink.emitted());
            TurnStep::Replied(reply)
        },
        Intent::BrowserTask(task) => {
            if !has_page {
                return TurnStep::NoPage;
            }
            TurnStep::Dispatch(chat.build_handoff(task.as_str(), message_id, Vec::new()))
        },
    }
}

// ---------------------------------------------------------------------------
// Laws
// ---------------------------------------------------------------------------

/// A browser task that could not even be started is answered with the reason.
pub proof fn law_unstarted_tasks_are_answered(planner_enabled: bool, r: BrowserResult)
    requires
        r.status == BrowserStatus::Failed,
        r.failure_reason@ == start_failure(),
        r.key_findings@.len() == 0,
        r.findings@.len() == 0,
    ensures
        chat_agent::reply_text(planner_enabled, r).len() > 0,
        text::occurs(
            chat_agent::reply_text(planner_enabled, r),
            chat_agent::or_else(start_failure(), "I couldn't complete the task."@),
        ),
{
    chat_agent::law_replies_are_never_empty(planner_enabled, r);
    chat_agent::law_failures_name_their_reason(planner_enabled, r);
}

/// The reply and the completion of a task carry the id of the message that asked
/// for it, and the reply comes first.
pub proof fn law_task_events_share_the_message_id(
    s: Seq<OrchestratorEvent>,
    h: Handoff,
    r: BrowserResult,
    reply: Seq<char>,
)
    requires
        closing_events(s, h, r, reply),
    ensures
        s[0]->BrowserResultReady_originating_message_id@ == h.originating_message_id@,
        s[1]->ChatReply_originating_message_id@ == h.originating_message_id@,
        s[2]->TaskCompleted_originating_message_id@ == h.originating_message_id@,
        s[1] is ChatReply && s[2] is TaskCompleted,
{
}

/// What the agent finished with is the summary of its run, and what it failed with is
/// the reason: a run is done exactly where it gave an answer.
pub proof fn law_runs_end_with_their_answer(
    session_id: Seq<char>,
    outcome: Result<String, String>,
    transcript_ref: Option<String>,
    r: BrowserResult,
)
    requires
        run_ended(session_id, outcome, transcript_ref, r),
    ensures
        r.status is Done <==> outcome is Ok,
        r.status is Failed <==> outcome is Err,
        outcome matches Ok(words) ==> r.summary@ == words@ && r.failure_reason@.len() == 0,
        outcome matches Err(reason) ==> r.failure_reason@ == reason@ && r.summary@.len() == 0,
        r.session_id@ == session_id,
        r.raw_transcript_ref == transcript_ref,
        r.final_snapshot_signature is None,
        r.key_findings@.len() == 0,
        r.findings@.len() == 0,
{
}

/// The result of a task is that of the browser agent, unchanged, and without one the
/// task has failed, for a reason that is told.
pub proof fn law_tasks_end_with_the_result_of_the_agent(
    outcome: Option<BrowserResult>,
    r: BrowserResult,
)
    requires
        task_ended(outcome, r),
    ensures
        outcome is Some ==> r == outcome->0,
        outcome is None ==> {
            &&& r.status is Failed
            &&& r.failure_reason@.len() > 0
            &&& r.summary@.len() == 0
            &&& r.key_findings@.len() == 0
            &&& r.findings@.len() == 0
            &&& r.final_snapshot_signature is None
            &&& r.raw_transcript_ref is None
            &&& r.session_id@ == "unknown-session"@
        },
{
    reveal_strlit(
        "I couldn't start the browser task. The browser may not be reachable — try again, and if it keeps failing, restart the app.",
    );
}

/// A message that asks for an answer gets that answer, under its id, and nothing else is
/// done; one that asks for a task is handed on word for word, with every clause of it,
/// or it is told that there is no page.
pub proof fn law_messages_are_answered_or_handed_on(
    before: Seq<OrchestratorEvent>,
    after: Seq<OrchestratorEvent>,
    message_id: Seq<char>,
    intent: Intent,
    has_page: bool,
    r: TurnStep,
)
    requires
        turn_taken(before, after, message_id, intent, has_page, r),
    ensures
        intent matches Intent::Chat(reply) ==> {
            &&& r matches TurnStep::Replied(said) && said@ == reply@
            &&& after.len() == before.len() + 1
            &&& after.drop_last() == before
            &&& after.last() is ChatReply
            &&& after.last()->ChatReply_text@ == reply@
            &&& after.last()->ChatReply_originating_message_id@ == message_id
        },
        intent matches Intent::BrowserTask(task) ==> {
            &&& after == before
            &&& r is Dispatch <==> has_page
            &&& r is NoPage <==> !has_page
            &&& r matches TurnStep::Dispatch(h) ==> {
                &&& h.task_description@ == task@
                &&& h.originating_message_id@ == message_id
                &&& h.subtasks@.len() == planner::planned(task@).len()
                &&& forall|i: int|
                    0 <= i < h.subtasks@.len() ==> (#[trigger] h.subtasks@[i]).description@
                        == planner::planned(task@)[i]
            }
        },
{
    if let Intent::Chat(reply) = intent {
        let e = choose|e: OrchestratorEvent|
            {
                &&& #[trigger] before.push(e) == after
                &&& is_chat_reply(e, message_id, reply@)
            };
        assert(before.push(e).drop_last() =~= before);
    }
}

/// The end of a task is told with its status, its reply and its summary; where it has no
/// summary, the reply stands for it.
pub proof fn law_the_end_of_a_task_is_told(
    s: Seq<OrchestratorEvent>,
    h: Handoff,
    r: BrowserResult,
    reply: Seq<char>,
)
    requires
        closing_events(s, h, r, reply),
    ensures
        s.len() == 3,
        s[0] is BrowserResultReady,
        s[0]->BrowserResultReady_result.status == r.status,
        s[0]->BrowserResultReady_result.summary == r.summary,
        s[0]->BrowserResultReady_result.findings@ == r.findings@,
        s[0]->BrowserResultReady_result.key_findings@ == r.key_findings@,
        s[0]->BrowserResultReady_result.failure_reason == r.failure_reason,
        s[1]->ChatReply_text@ == reply,
        s[2]->status == r.status,
        r.summary@.len() > 0 ==> s[2]->summary@ == r.summary@,
        r.summary@.len() == 0 ==> s[2]->summary@ == reply,
        r.key_findings@.len() <= u32::MAX ==> s[2]->step_count == r.key_findings@.len(),
{
}

/// The start of a task is told with the task and the id of the message that asked.
pub proof fn law_the_start_of_a_task_is_told(e: OrchestratorEvent, h: Handoff)
    requires
        is_task_started(e, h),
    ensures
        e is TaskStarted,
        e->TaskStarted_originating_message_id@ == h.originating_message_id@,
        e->task_description@ == h.task_description@,
{
}

} // verus!
