//! The agent loop: what the agent knows between two steps, and how each step
//! changes it.
//!
//! The loop itself waits for a page, a model and a user, and is driven from
//! outside. Every decision in it is taken here: each step takes what came back from
//! the outside world, changes the agent, and says what to do next. Lines for the
//! transcript and reports for the user are collected in the agent, in order, until
//! the driver takes them.

use vstd::prelude::*;
use crate::captcha_telemetry::CaptchaTelemetry;
use crate::captcha_telemetry;
use crate::chat::UserMessage;
use crate::clock;
use crate::completeness::{CompletenessTracker, DeclareItem, SubTask};
use crate::config::{AgentConfig, OpencodeZenConfig, ProviderConfig};
use crate::end_of_task_passthrough::passthrough_check;
use crate::end_of_task_passthrough;
use crate::history::{History, HistoryMessage};
use crate::history;
use crate::pacing::PacingGuard;
use crate::planner;
use crate::planner::Plan;
use crate::resilience::Challenge;
use crate::session;
use crate::session::TransitionRecord;
use crate::summarizer::{LiveProgress, ProgressLine};
use crate::text;

verus! {

pub const SYSTEM_PROMPT: &'static str = "You are mew, a visible browser agent. You drive a real Chromium window.
You can perceive pages via accessibility-tree snapshots and take actions like click, type, scroll.
If you need to interact with an element that has no meaningful accessible name/role (e.g. an empty button or canvas), use the `vision_inspect` tool first to visually inspect it.
You must achieve the user's objective by observing the state, choosing a tool, and waiting for the next turn.
When you are completely done and have the final answer or outcome, call finish() with the result. CRITICAL RULE: If an action times out or fails (e.g., stale reference), NEVER report in finish() that the action 'was performed', 'succeeded', or 'was completed'. You must explicitly state that you attempted the action and it failed/timed out, and do not conflate the attempt with success.

COMPLETENESS PROTOCOL (mandatory for multi-item tasks):
If the task contains multiple similar sub-actions (e.g. 'do X for each of these N things', 'send a message to each person on the list', 'fill in N form fields'), you MUST at the start call the `declare_subtasks` tool with a short id and one-line description for each sub-item. The `items` parameter must be a JSON array of objects with `id` and `description` fields. The agent will track this list in code, not in your memory.
For each sub-item, after you take a fresh `snapshot()` and verify the expected state change on the page, call `mark_subtask_done(id, snapshot_signature)` where `snapshot_signature` is the value the snapshot tool returns in its result message (it looks like `len:0123abcd`). You cannot mark a subtask done without a fresh snapshot — the tool will reject any signature that doesn't match the most recent on-screen snapshot.
If you cannot complete a sub-item, call `mark_subtask_skipped(id, reason)` (deliberately out of scope) or `mark_subtask_failed(id, reason)` (attempted but could not verify). Both are accepted as terminal states.
Calling `finish()` while any subtask is still pending is intercepted: the agent will force a fresh snapshot and re-prompt you to either mark each pending item done/skipped/failed or explicitly justify it. The \
    gate is not a suggestion.";

// ---------------------------------------------------------------------------
// Reports and transcript
// ---------------------------------------------------------------------------

/// What the agent reports while it runs.
#[derive(Debug, PartialEq, Eq)]
pub enum AgentEvent {
    /// The session has changed its state.
    State(TransitionRecord),
    /// A tool was called.
    Tool { timestamp_secs: u64, name: String, args: String, result: String },
    /// The session has been summed up.
    Summary { timestamp_secs: u64, text: String },
    /// A one-line note on what was done.
    ProgressLine { timestamp_secs: u64, text: String, kind: String, success: bool },
}

impl Clone for AgentEvent {
    fn clone(&self) -> (r: Self)
        ensures
            r == *self,
    {
        match self {
            AgentEvent::State(record) => AgentEvent::State(record.clone()),
            AgentEvent::Tool { timestamp_secs, name, args, result } => AgentEvent::Tool {
                timestamp_secs: *timestamp_secs,
                name: name.clone(),
                args: args.clone(),
                result: result.clone(),
            },
            AgentEvent::Summary { timestamp_secs, text } => AgentEvent::Summary {
                timestamp_secs: *timestamp_secs,
                text: text.clone(),
            },
            AgentEvent::ProgressLine { timestamp_secs, text, kind, success } => {
                AgentEvent::ProgressLine {
                    timestamp_secs: *timestamp_secs,
                    text: text.clone(),
                    kind: kind.clone(),
                    success: *success,
                }
            },
        }
    }
}

/// The contents of an `AgentEvent`.
pub ghost enum EventView {
    State(TransitionRecord),
    Tool { at: u64, name: Seq<char>, args: Seq<char>, result: Seq<char> },
    Summary { at: u64, text: Seq<char> },
    Progress { at: u64, text: Seq<char>, kind: Seq<char>, success: bool },
}

impl View for AgentEvent {
    type V = EventView;

    open spec fn view(&self) -> EventView {
        match *self {
            AgentEvent::State(record) => EventView::State(record),
            AgentEvent::Tool { timestamp_secs, name, args, result } => EventView::Tool {
                at: timestamp_secs,
                name: name@,
                args: args@,
                result: result@,
            },
            AgentEvent::Summary { timestamp_secs, text } => EventView::Summary {
                at: timestamp_secs,
                text: text@,
            },
            AgentEvent::ProgressLine { timestamp_secs, text, kind, success } => {
                EventView::Progress { at: timestamp_secs, text: text@, kind: kind@, success }
            },
        }
    }
}

/// One entry of the transcript.
#[derive(Debug, PartialEq, Eq)]
pub enum LogEntry {
    /// A finished line.
    Line(String),
    /// Something that page inspection met.
    Resilience { kind: String, detail: String },
}

/// The contents of a `LogEntry`.
pub ghost enum LogView {
    Line(Seq<char>),
    Resilience { kind: Seq<char>, detail: Seq<char> },
}

impl View for LogEntry {
    type V = LogView;

    open spec fn view(&self) -> LogView {
        match *self {
            LogEntry::Line(line) => LogView::Line(line@),
            LogEntry::Resilience { kind, detail } => LogView::Resilience {
                kind: kind@,
                detail: detail@,
            },
        }
    }
}

/// A transcript line: time stamp, session, body.
pub open spec fn entry_text(ts: u64, session: Seq<char>, body: Seq<char>) -> Seq<char> {
    "["@ + text::decimal(ts as nat) + "] ["@ + session + "] "@ + body + "\n\n"@
}

/// Renders a transcript line.
pub fn entry(ts: u64, session: &str, body: &str) -> (r: String)
    ensures
        r@ == entry_text(ts, session@, body@),
{
    let mut out = text::owned("[");
    out.append(text::decimal_of(ts).as_str());
    out.append("] [");
    out.append(session);
    out.append("] ");
    out.append(body);
    out.append("\n\n");
    out
}

// ---------------------------------------------------------------------------
// The agent
// ---------------------------------------------------------------------------

/// What the loop carries from one step to the next.
#[derive(Debug)]
pub struct LoopState {
    pub total_tokens: usize,
    pub iterations: usize,
    pub current_url: Option<String>,
    /// Whether the next observation shows the whole page.
    pub force_snapshot: bool,
    pub prior_was_dashboard_like: bool,
    pub pending_backoff_secs: Option<u64>,
    /// The element to click in place of the next call.
    pub pending_modal_dismiss: Option<String>,
    pub ref_recovery_attempts: u32,
    /// How often `finish()` was called since one was last held back.
    pub finish_calls_this_gate: usize,
    /// The result of the task, once `finish()` was accepted.
    pub pending_finish_result: Option<String>,
    pub summary_written: bool,
    pub pending_captcha: Option<Challenge>,
}

/// The agent that works on one task.
#[derive(Debug)]
pub struct Agent {
    pub config: ProviderConfig,
    pub session_id: String,
    pub history: History,
    pub completeness: CompletenessTracker,
    pub pacing: PacingGuard,
    pub captcha_telemetry: CaptchaTelemetry,
    pub live_progress: LiveProgress,
    /// Notes of the user whose transcript line is not written yet.
    pub pending_user_note_writes: Vec<UserMessage>,
    pub state: LoopState,
    /// Transcript entries that the driver has not taken yet.
    pub log: Vec<LogEntry>,
    /// Reports that the driver has not taken yet.
    pub events: Vec<AgentEvent>,
}

/// The state at the start of a task.
pub open spec fn initial_state() -> LoopState {
    LoopState {
        total_tokens: 0,
        iterations: 0,
        current_url: None,
        force_snapshot: false,
        prior_was_dashboard_like: false,
        pending_backoff_secs: None,
        pending_modal_dismiss: None,
        ref_recovery_attempts: 0,
        finish_calls_this_gate: 0,
        pending_finish_result: None,
        summary_written: false,
        pending_captcha: None,
    }
}

impl Agent {
    pub open spec fn wf(self) -> bool {
        &&& self.live_progress.wf()
        &&& self.captcha_telemetry.wf()
    }

    /// The transcript entries that wait to be taken.
    pub open spec fn logged(self) -> Seq<LogView> {
        self.log@.map_values(|e: LogEntry| e@)
    }

    /// The reports that wait to be taken.
    pub open spec fn reported(self) -> Seq<EventView> {
        self.events@.map_values(|e: AgentEvent| e@)
    }

    /// An agent that has not started on its task.
    pub open spec fn fresh(self, task: Seq<char>) -> bool {
        &&& self.wf()
        &&& self.history.messages@.len() == 2
        &&& self.history.messages@[0].says("system"@, SYSTEM_PROMPT@)
        &&& self.history.messages@[1].says("user"@, "Task: "@ + task)
        &&& self.completeness.subtasks@.len() == 0
        &&& self.completeness.last_snapshot_iteration is None
        &&& self.completeness.last_snapshot_signature is None
        &&& !self.completeness.snapshot_since_mark
        &&& self.completeness.finish_attempts == 0
        &&& !self.completeness.gate_triggered
        &&& self.pacing.streak is None
        &&& self.live_progress.lines@.len() == 0
        &&& self.live_progress.total == 0
        &&& self.pending_user_note_writes@.len() == 0
        &&& self.state == initial_state()
        &&& self.events@.len() == 0
    }

    pub(crate) fn log_line(&mut self, line: String)
        ensures
            *final(self) == (Agent { log: final(self).log, ..*old(self) }),
            final(self).logged() == old(self).logged().push(LogView::Line(line@)),
    {
        self.log.push(LogEntry::Line(line));
        assert(self.logged() == old(self).logged().push(LogView::Line(line@)));
    }

    /// Logs something that page inspection met.
    pub(crate) fn log_resilience(&mut self, kind: &str, detail: String)
        ensures
            *final(self) == (Agent { log: final(self).log, ..*old(self) }),
            final(self).logged() == old(self).logged().push(
                LogView::Resilience { kind: kind@, detail: detail@ },
            ),
    {
        self.log.push(LogEntry::Resilience { kind: text::owned(kind), detail });
        assert(self.logged() == old(self).logged().push(
            LogView::Resilience { kind: kind@, detail: detail@ },
        ));
    }

    pub(crate) fn report(&mut self, event: AgentEvent)
        ensures
            *final(self) == (Agent { events: final(self).events, ..*old(self) }),
            final(self).reported() == old(self).reported().push(event@),
    {
        self.events.push(event);
        assert(self.reported() == old(self).reported().push(event@));
    }

    /// Hands the transcript entries out.
    pub fn take_log(&mut self) -> (r: Vec<LogEntry>)
        ensures
            *final(self) == (Agent { log: final(self).log, ..*old(self) }),
            final(self).log@ == Seq::<LogEntry>::empty(),
            r == old(self).log,
    {
        let mut out: Vec<LogEntry> = Vec::new();
        std::mem::swap(&mut out, &mut self.log);
        out
    }

    /// Hands the reports out.
    pub fn take_events(&mut self) -> (r: Vec<AgentEvent>)
        ensures
            *final(self) == (Agent { events: final(self).events, ..*old(self) }),
            final(self).events@ == Seq::<AgentEvent>::empty(),
            r == old(self).events,
    {
        let mut out: Vec<AgentEvent> = Vec::new();
        std::mem::swap(&mut out, &mut self.events);
        out
    }

    fn build(
        config: ProviderConfig,
        session_id: String,
        task: &str,
        pacing: PacingGuard,
        captcha_telemetry: CaptchaTelemetry,
    ) -> (r: Self)
        requires
            captcha_telemetry.wf(),
            pacing.streak is None,
        ensures
            r.fresh(task@),
            r.config == config,
            r.session_id == session_id,
            r.pacing == pacing,
            r.captcha_telemetry == captcha_telemetry,
            r.live_progress.cap == config.agent.summarization.live_lines_cap,
            r.log@.len() == 0,
    {
        let cap: usize = config.agent.summarization.live_lines_cap;
        Agent {
            config,
            session_id,
            history: History::new(SYSTEM_PROMPT, task),
            completeness: CompletenessTracker::new(),
            pacing,
            captcha_telemetry,
            live_progress: LiveProgress::new(cap),
            pending_user_note_writes: Vec::new(),
            state: LoopState {
                total_tokens: 0,
                iterations: 0,
                current_url: None,
                force_snapshot: false,
                prior_was_dashboard_like: false,
                pending_backoff_secs: None,
                pending_modal_dismiss: None,
                ref_recovery_attempts: 0,
                finish_calls_this_gate: 0,
                pending_finish_result: None,
                summary_written: false,
                pending_captcha: None,
            },
            log: Vec::new(),
            events: Vec::new(),
        }
    }

    /// An agent for a task, made at the given second. The session is named after
    /// that second, and its start is the first line of the transcript.
    pub fn new_at(
        config: ProviderConfig,
        task: &str,
        captcha_telemetry: CaptchaTelemetry,
        now: u64,
    ) -> (r: Self)
        requires
            captcha_telemetry.wf(),
        ensures
            r.made_at(config, task@, captcha_telemetry, now),
    {
        let mut session_id = text::owned("session_");
        session_id.append(text::decimal_of(now).as_str());
        let pacing = PacingGuard::new(config.agent.pacing);
        let line = session::start_line(now, session_id.as_str());
        let mut agent = Agent::build(config, session_id, task, pacing, captcha_telemetry);
        agent.log_line(line);
        assert(agent.logged() == seq![LogView::Line(line@)]);
        agent
    }

    /// The agent that is made for a task at the given second.
    pub open spec fn made_at(
        self,
        config: ProviderConfig,
        task: Seq<char>,
        captcha_telemetry: CaptchaTelemetry,
        now: u64,
    ) -> bool {
        &&& self.fresh(task)
        &&& self.config == config
        &&& self.session_id@ == "session_"@ + text::decimal(now as nat)
        &&& self.pacing.config == config.agent.pacing
        &&& self.captcha_telemetry == captcha_telemetry
        &&& self.live_progress.cap == config.agent.summarization.live_lines_cap
        &&& self.logged() == seq![LogView::Line(session::start_text(now, self.session_id@))]
    }

    /// An agent for a task. The rows of the telemetry are those that were stored.
    pub fn new(config: ProviderConfig, task: &str, captcha_telemetry: CaptchaTelemetry) -> (r: Self)
        requires
            captcha_telemetry.wf(),
        ensures
            exists|now: u64| #[trigger] r.made_at(config, task@, captcha_telemetry, now),
    {
        let now: u64 = clock::now_secs();
        Agent::new_at(config, task, captcha_telemetry, now)
    }

    /// An agent that never paces and writes no transcript, with settings that lead
    /// nowhere.
    pub fn new_for_test(task: &str) -> (r: Self)
        ensures
            r.fresh(task@),
            r.log@.len() == 0,
            r.pacing.config == r.config.agent.pacing,
            r.captcha_telemetry.rows.spec_keys().len() == 0,
            r.captcha_telemetry.persist_path is None,
            r.config.opencode_zen.base_url@ == "http://test/"@,
            r.config.opencode_zen.api_key@ == "test"@,
            r.config.opencode_zen.default_model@ == "test"@,
            r.config.opencode_zen.max_iterations == 1,
            r.config.opencode_zen.max_tokens is None,
            r.config.browser is None,
            r.config.agent.is_default(),
            r.live_progress.cap == 5,
            exists|now: u64| r.session_id@ == "session_"@ + #[trigger] text::decimal(now as nat),
    {
        let now: u64 = clock::now_secs();
        let mut session_id = text::owned("session_");
        session_id.append(text::decimal_of(now).as_str());
        let config = ProviderConfig {
            opencode_zen: OpencodeZenConfig {
                base_url: text::owned("http://test/"),
                api_key: text::owned("test"),
                default_model: text::owned("test"),
                max_iterations: 1,
                max_tokens: None,
            },
            browser: None,
            agent: AgentConfig::default(),
        };
        let captcha_telemetry = CaptchaTelemetry::new(None);
        Agent::build(config, session_id, task, PacingGuard::disabled(), captcha_telemetry)
    }
}

// ---------------------------------------------------------------------------
// Access
// ---------------------------------------------------------------------------

impl Agent {
    pub fn live_progress_snapshot(&self) -> (r: Vec<ProgressLine>)
        ensures
            r@ == self.live_progress.lines@,
    {
        self.live_progress.snapshot()
    }

    /// The text of a `finish()` call, trimmed, where it can be shown to the user as
    /// it is.
    pub fn try_passthrough_finish(&self, raw: &str) -> (r: Option<String>)
        ensures
            text::opt_view(r) == if end_of_task_passthrough::passes(text::trimmed(raw@)) {
                Some(text::trimmed(raw@))
            } else {
                None
            },
    {
        passthrough_check(raw)
    }

    pub fn history_snapshot(&self) -> (r: Vec<HistoryMessage>)
        ensures
            r@ == self.history.messages@,
    {
        self.history.snapshot()
    }

    pub fn session_id(&self) -> (r: &str)
        ensures
            r@ == self.session_id@,
    {
        self.session_id.as_str()
    }

    pub fn session_id_for_test(&self) -> (r: &str)
        ensures
            r@ == self.session_id@,
    {
        self.session_id.as_str()
    }

    /// The name of the file that holds the transcript.
    pub fn transcript_name(&self) -> (r: String)
        ensures
            r@ == "transcript_"@ + self.session_id@ + ".log"@,
    {
        let mut out = text::owned("transcript_");
        out.append(self.session_id.as_str());
        out.append(".log");
        out
    }

    pub fn captcha_telemetry(&self) -> (r: &CaptchaTelemetry)
        ensures
            *r == self.captcha_telemetry,
    {
        &self.captcha_telemetry
    }

    pub fn completeness(&self) -> (r: &CompletenessTracker)
        ensures
            *r == self.completeness,
    {
        &self.completeness
    }

    pub fn completeness_mut(&mut self) -> (r: &mut CompletenessTracker)
        ensures
            *r == old(self).completeness,
            *final(self) == (Agent { completeness: *final(r), ..*old(self) }),
    {
        &mut self.completeness
    }

    pub fn pacing_mut_for_test(&mut self) -> (r: &mut PacingGuard)
        ensures
            *r == old(self).pacing,
            *final(self) == (Agent { pacing: *final(r), ..*old(self) }),
    {
        &mut self.pacing
    }

    /// Cuts the conversation back, keeping the notes of the user.
    pub fn truncate_for_test(&mut self, keep_front: usize)
        ensures
            *final(self) == (Agent { history: final(self).history, ..*old(self) }),
            final(self).history.messages@ == history::truncated(
                old(self).history.messages@,
                keep_front as nat,
            ),
    {
        self.history.truncate_preserving_user_notes(keep_front);
    }
}

// ---------------------------------------------------------------------------
// The plan before the first step
// ---------------------------------------------------------------------------

/// The line of the `n`th subtask, counted from one.
pub open spec fn plan_row(n: nat, id: Seq<char>, description: Seq<char>) -> Seq<char> {
    "  "@ + text::decimal(n) + ". ["@ + id + "] "@ + description + "\n"@
}

/// The lines of the first `n` subtasks, given by their ids and descriptions.
pub open spec fn plan_rows(rows: Seq<(Seq<char>, Seq<char>)>, n: nat) -> Seq<char>
    decreases n,
{
    if n == 0 {
        Seq::empty()
    } else {
        plan_rows(rows, (n - 1) as nat) + plan_row(n, rows[n - 1].0, rows[n - 1].1)
    }
}

/// What the model is told of a plan with the given subtasks.
pub open spec fn plan_block(rows: Seq<(Seq<char>, Seq<char>)>) -> Seq<char> {
    if rows.len() == 0 {
        NO_PLAN@
    } else {
        "PLAN (pre-flight decomposition):\n"@ + plan_rows(rows, rows.len()) + PLAN_RULES@
    }
}

pub const NO_PLAN: &'static str = "PLAN (pre-flight decomposition):\n  (none — single undifferentiated task)\nYou are not required to call declare_subtasks. Call finish() directly when the task is complete.";

pub const PLAN_RULES: &'static str = "You must complete each subtask in order. After verifying each one on a fresh snapshot, call mark_subtask_done(id) where `id` is the bracketed id above. You may re-declare via declare_subtasks while every subtask is still Pending, but the canonical list above is owned by the code — re-declaration is for refinement, not replacement. Calling finish() while any subtask is Pending is intercepted; the \
    gate will force a snapshot re-prompt.";

/// The ids and descriptions of declared items.
pub open spec fn item_rows(items: Seq<DeclareItem>) -> Seq<(Seq<char>, Seq<char>)> {
    items.map_values(|d: DeclareItem| (d.id@, d.description@))
}

/// The ids and descriptions of the subtasks of a task.
pub open spec fn planned_rows(task: Seq<char>) -> Seq<(Seq<char>, Seq<char>)> {
    Seq::new(
        planner::planned(task).len(),
        |i: int| (planner::slug(planner::planned(task)[i], i as nat), planner::planned(task)[i]),
    )
}

/// Renders what the model is told of a plan.
pub fn render_plan_block(plan: &Plan) -> (r: String)
    ensures
        r@ == plan_block(item_rows(plan.subtasks@)),
{
    let n: usize = plan.subtasks.len();
    if n == 0 {
        return text::owned(NO_PLAN);
    }
    let ghost rows = item_rows(plan.subtasks@);
    let mut lines = String::new();
    let mut i: usize = 0;
    while i < n
        invariant
            i <= n == plan.subtasks@.len(),
            rows == item_rows(plan.subtasks@),
            lines@ == plan_rows(rows, i as nat),
        decreases n - i,
    {
        let mut row = text::owned("  ");
        row.append(text::decimal_of((i + 1) as u64).as_str());
        row.append(". [");
        row.append(plan.subtasks[i].id.as_str());
        row.append("] ");
        row.append(plan.subtasks[i].description.as_str());
        row.append("\n");
        lines.append(row.as_str());
        i += 1;
    }
    let mut out = text::owned("PLAN (pre-flight decomposition):\n");
    out.append(lines.as_str());
    out.append(PLAN_RULES);
    out
}

/// The transcript body of a plan.
pub open spec fn preflight_text(task: Seq<char>) -> Seq<char> {
    "PREFLIGHT: subtasks="@ + text::decimal(planner::planned(task).len())
        + " escalated=false rationale=\""@ + planner::rationale_text(task) + "\""@
}

/// Whether the subtasks are the given ones, none of them resolved.
pub open spec fn subtasks_for(s: Seq<SubTask>, rows: Seq<(Seq<char>, Seq<char>)>) -> bool {
    &&& s.len() == rows.len()
    &&& forall|i: int|
        0 <= i < s.len() ==> {
            &&& (#[trigger] s[i]).id@ == rows[i].0
            &&& s[i].description@ == rows[i].1
            &&& s[i].status is Pending
            &&& s[i].evidence_iteration is None
            &&& s[i].evidence_signature is None
            &&& s[i].decided_at_secs is None
        }
}

/// The messages after `block` was added to the first of them.
pub open spec fn briefed(
    after: Seq<HistoryMessage>,
    before: Seq<HistoryMessage>,
    block: Seq<char>,
) -> bool {
    if before.len() > 0 && before[0].content is Some {
        &&& after.len() == before.len()
        &&& after[0].reworded(before[0], before[0].content->0@ + "\n\n"@ + block)
        &&& forall|i: int| 1 <= i < after.len() ==> #[trigger] after[i] == before[i]
    } else {
        after == before
    }
}

impl Agent {
    /// Whether the subtasks can still be declared.
    pub open spec fn undecided(self) -> bool {
        forall|i: int|
            0 <= i < self.completeness.subtasks@.len() ==> (
            #[trigger] self.completeness.subtasks@[i]).status is Pending
    }

    /// Why the plan cannot be made.
    pub open spec fn preflight_error(self) -> Option<Seq<char>> {
        match history::task_content(self.history.messages@) {
            None => Some("preflight: no user-role message found"@),
            Some(content) => {
                if planner::planned(history::task_of(content)).len() > 0 && !self.undecided() {
                    Some(
                        "preflight: declare failed: "@
                            + "cannot re-declare subtasks after any have been resolved"@,
                    )
                } else {
                    None
                }
            },
        }
    }

    fn brief(&mut self, block: &str)
        ensures
            *final(self) == (Agent { history: final(self).history, ..*old(self) }),
            briefed(final(self).history.messages@, old(self).history.messages@, block@),
    {
        if self.history.messages.len() == 0 {
            return;
        }
        let mut first = self.history.messages[0].clone();
        let content = match &first.content {
            Some(c) => {
                let mut out = c.clone();
                out.append("\n\n");
                out.append(block);
                out
            },
            None => return,
        };
        first.set_content(content.as_str());
        self.history.messages.set(0, first);
    }

    /// What the plan of a task comes to, and what it leaves.
    pub open spec fn plans(self, now: u64, r: Result<(), String>, after: Agent) -> bool {
        &&& match r {
            Err(e) => self.preflight_error() == Some(e@) && after == self,
            Ok(_) => {
                let task = history::task_of(
                    history::task_content(self.history.messages@)->0,
                );
                let rows = planned_rows(task);
                &&& self.preflight_error() is None
                &&& after == (Agent {
                    history: after.history,
                    completeness: after.completeness,
                    log: after.log,
                    ..self
                })
                &&& briefed(
                    after.history.messages@,
                    self.history.messages@,
                    plan_block(rows),
                )
                &&& rows.len() == 0 ==> after.completeness == self.completeness
                &&& rows.len() > 0 ==> subtasks_for(after.completeness.subtasks@, rows)
                &&& after.completeness.same_session(self.completeness)
                &&& after.completeness.snapshot_since_mark == self.completeness.snapshot_since_mark
                &&& after.logged() == self.logged().push(
                    LogView::Line(entry_text(now, self.session_id@, preflight_text(task))),
                )
            },
        }
    }

    /// Plans the task before the first step, at the given second: declares its
    /// subtasks and tells the model of them.
    pub fn run_preflight_plan_at(&mut self, now: u64) -> (r: Result<(), String>)
        ensures
            old(self).plans(now, r, *final(self)),
    {
        let content = match self.history.task_message() {
            Some(c) => c,
            None => return Err(text::owned("preflight: no user-role message found")),
        };
        let task = history::strip_task(content.as_str());
        let plan = planner::plan(task.as_str());
        let ghost rows = planned_rows(task@);
        assert(item_rows(plan.subtasks@) == rows);
        let n: usize = plan.subtasks.len();
        let block = render_plan_block(&plan);
        let rationale = plan.rationale;
        if n > 0 {
            let ghost items = plan.subtasks@;
            match self.completeness.declare(plan.subtasks) {
                Ok(_) => {
                    assert forall|i: int| 0 <= i < rows.len() implies {
                        &&& (#[trigger] self.completeness.subtasks@[i]).id@ == rows[i].0
                        &&& self.completeness.subtasks@[i].description@ == rows[i].1
                    } by {
                        assert(item_rows(items)[i] == rows[i]);
                    }
                },
                Err(e) => {
                    assert(!old(self).undecided());
                    let mut out = text::owned("preflight: declare failed: ");
                    out.append(e);
                    return Err(out);
                },
            }
        }
        self.brief(block.as_str());
        let mut body = text::owned("PREFLIGHT: subtasks=");
        body.append(text::decimal_of(n as u64).as_str());
        body.append(" escalated=false rationale=\"");
        body.append(rationale.as_str());
        body.append("\"");
        let line = entry(now, self.session_id.as_str(), body.as_str());
        self.log_line(line);
        Ok(())
    }
}

// ---------------------------------------------------------------------------
// Laws
// ---------------------------------------------------------------------------

/// Once the task is planned, every request carries the plan: it stands at the end
/// of the first message, and no cut back of the conversation drops or changes that.
pub proof fn law_every_prompt_carries_the_plan(
    before: Seq<HistoryMessage>,
    after: Seq<HistoryMessage>,
    block: Seq<char>,
    keep: nat,
    k: nat,
)
    requires
        before.len() > 0,
        before[0].content is Some,
        !before[0].is_step(),
        briefed(after, before, block),
        keep > 0,
    ensures
        carries(after, block),
        carries(history::truncated(after, keep), block),
        carries(history::trimmed(after, k), block),
{
    let head = before[0].content->0@ + "\n\n"@;
    let content = head + block;
    assert(content.subrange(head.len() as int, content.len() as int) == block);
    history::law_head_stays(after, keep, k);
}

/// Whether the first message ends with the given block.
pub open spec fn carries(messages: Seq<HistoryMessage>, block: Seq<char>) -> bool {
    &&& messages.len() > 0
    &&& messages[0].content is Some
    &&& block.is_suffix_of(messages[0].content->0@)
}

/// A line of the transcript shows its time, its session and its text.
pub proof fn law_entries_show_their_text(ts: u64, session: Seq<char>, body: Seq<char>)
    ensures
        text::occurs(entry_text(ts, session, body), text::decimal(ts as nat)),
        text::occurs(entry_text(ts, session, body), session),
        text::occurs(entry_text(ts, session, body), body),
{
    broadcast use text::group_occurs;

}

proof fn lemma_plan_row_at(rows: Seq<(Seq<char>, Seq<char>)>, n: nat, i: int)
    requires
        0 <= i < n <= rows.len(),
    ensures
        text::occurs(plan_rows(rows, n), plan_row((i + 1) as nat, rows[i].0, rows[i].1)),
    decreases n,
{
    broadcast use text::group_occurs;

    if i < n - 1 {
        lemma_plan_row_at(rows, (n - 1) as nat, i);
    }
}

/// The model is told every subtask of the plan: its number, its id in brackets and what
/// it is about.
pub proof fn law_the_plan_tells_every_subtask(rows: Seq<(Seq<char>, Seq<char>)>, i: int)
    requires
        0 <= i < rows.len(),
    ensures
        text::occurs(plan_block(rows), plan_row((i + 1) as nat, rows[i].0, rows[i].1)),
        text::occurs(plan_block(rows), text::decimal((i + 1) as nat)),
        text::occurs(plan_block(rows), ". ["@ + rows[i].0),
        text::occurs(plan_block(rows), "] "@ + rows[i].1),
{
    broadcast use text::group_occurs;

    let row = plan_row((i + 1) as nat, rows[i].0, rows[i].1);
    let all = plan_rows(rows, rows.len());
    let w = plan_block(rows);
    lemma_plan_row_at(rows, rows.len(), i);
    assert(text::occurs(w, all));
    text::lemma_occurs_through(w, all, row);
    text::lemma_occurs_through(w, row, text::decimal((i + 1) as nat));
    text::lemma_occurs_through(w, row, ". ["@ + rows[i].0);
    text::lemma_occurs_through(w, row, "] "@ + rows[i].1);
}

/// A task that is planned has every clause of it on the list, in order and pending, and
/// the model reads of each in its first message; the other messages stay as they were.
pub proof fn law_every_planned_subtask_is_tracked(
    a: Agent,
    now: u64,
    r: Result<(), String>,
    after: Agent,
    i: int,
)
    requires
        a.plans(now, r, after),
        r is Ok,
        a.history.messages@.len() > 0,
        a.history.messages@[0].content is Some,
        0 <= i < planner::planned(
            history::task_of(history::task_content(a.history.messages@)->0),
        ).len(),
    ensures
        ({
            let clauses = planner::planned(
                history::task_of(history::task_content(a.history.messages@)->0),
            );
            let s = after.completeness.subtasks@;
            &&& s.len() == clauses.len()
            &&& s[i].description@ == clauses[i]
            &&& s[i].id@ == planner::slug(clauses[i], i as nat)
            &&& s[i].status is Pending
            &&& after.history.messages@[0].content is Some
            &&& text::occurs(after.history.messages@[0].content->0@, clauses[i])
            &&& text::occurs(after.history.messages@[0].content->0@, s[i].id@)
        }),
        a.history.messages@[0].content->0@.is_prefix_of(after.history.messages@[0].content->0@),
        after.history.messages@.len() == a.history.messages@.len(),
        after.history.messages@.drop_first() == a.history.messages@.drop_first(),
        after.logged().len() == a.logged().len() + 1,
        after.completeness.last_snapshot_signature == a.completeness.last_snapshot_signature,
        after.completeness.finish_attempts == a.completeness.finish_attempts,
        after.completeness.snapshot_since_mark == a.completeness.snapshot_since_mark,
        after.state == a.state,
{
    broadcast use text::group_occurs;

    let task = history::task_of(history::task_content(a.history.messages@)->0);
    let rows = planned_rows(task);
    let block = plan_block(rows);
    let said = a.history.messages@[0].content->0@;
    let w = after.history.messages@[0].content->0@;
    assert(after.completeness.subtasks@[i].id@ == rows[i].0);
    law_the_plan_tells_every_subtask(rows, i);
    assert(w == said + "\n\n"@ + block);
    assert(text::occurs(w, block));
    text::lemma_occurs_through(block, "] "@ + rows[i].1, rows[i].1);
    text::lemma_occurs_through(block, ". ["@ + rows[i].0, rows[i].0);
    text::lemma_occurs_through(w, block, rows[i].1);
    text::lemma_occurs_through(w, block, rows[i].0);
    assert(said =~= w.subrange(0, said.len() as int));
    let x = after.history.messages@.drop_first();
    let y = a.history.messages@.drop_first();
    assert forall|j: int| 0 <= j < x.len() implies #[trigger] x[j] == y[j] by {
        assert(after.history.messages@[j + 1] == a.history.messages@[j + 1]);
    }
}

/// A plan that cannot be made changes nothing and tells why: there is no task, or a
/// subtask has been resolved already.
pub proof fn law_a_plan_fails_for_a_reason(a: Agent, now: u64, r: Result<(), String>, after: Agent)
    requires
        a.plans(now, r, after),
    ensures
        r is Err ==> after == a,
        history::task_content(a.history.messages@) is None ==> r is Err,
        history::task_content(a.history.messages@) is Some && a.undecided() ==> r is Ok,
        history::task_content(a.history.messages@) is Some && planner::planned(
            history::task_of(history::task_content(a.history.messages@)->0),
        ).len() == 0 ==> r is Ok && after.completeness == a.completeness,
{
}

/// An agent starts on the task that it was given: a conversation of two messages, the
/// second of which says the task, nothing on the list and nothing spent.
pub proof fn law_agents_start_on_their_task(
    a: Agent,
    config: ProviderConfig,
    task: Seq<char>,
    telemetry: CaptchaTelemetry,
    now: u64,
)
    requires
        a.made_at(config, task, telemetry, now),
    ensures
        a.history.messages@.len() == 2,
        a.history.messages@[1].has_role("user"@),
        a.history.messages@[1].content is Some,
        history::task_of(a.history.messages@[1].content->0@) == task,
        history::task_content(a.history.messages@) == Some("Task: "@ + task),
        a.completeness.subtasks@.len() == 0,
        a.completeness.gate_is_open(),
        a.state.iterations == 0,
        a.state.total_tokens == 0,
        a.state.pending_finish_result is None,
        a.state.pending_modal_dismiss is None,
        a.config == config,
        a.captcha_telemetry == telemetry,
        a.live_progress.lines@.len() == 0,
        text::occurs(a.session_id@, text::decimal(now as nat)),
        a.logged().len() == 1,
        a.logged()[0] matches LogView::Line(line) && text::occurs(line, a.session_id@)
            && text::occurs(line, text::decimal(now as nat)),
        a.reported().len() == 0,
        a.completeness.last_snapshot_signature is None,
        a.completeness.last_snapshot_iteration is None,
        !a.completeness.snapshot_since_mark,
        a.completeness.finish_attempts == 0,
        !a.completeness.gate_triggered,
        a.pacing.streak is None,
        a.pacing.config == config.agent.pacing,
        a.live_progress.cap == config.agent.summarization.live_lines_cap,
        a.pending_user_note_writes@.len() == 0,
        !a.state.summary_written,
        !a.state.force_snapshot,
        a.state.current_url is None,
        a.state.pending_backoff_secs is None,
        a.state.pending_captcha is None,
        a.state.finish_calls_this_gate == 0,
        a.state.ref_recovery_attempts == 0,
        a.live_progress.total == 0,
{
    broadcast use text::group_occurs;

    let s = a.history.messages@;
    history::law_the_task_comes_back_from_its_message(task, task);
    assert(!s[0].has_role("user"@)) by {
        reveal_strlit("system");
        reveal_strlit("user");
        assert("system"@.len() != "user"@.len());
    }
    history::law_the_task_is_what_the_user_said_first(s, 1);
}

} // verus!
