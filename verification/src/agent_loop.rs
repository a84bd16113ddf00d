//! The steps of one iteration of the agent loop, up to the choice of a tool.

use vstd::prelude::*;
use crate::agent::{Agent, LogView, LoopState};
use crate::agent;
use crate::captcha_telemetry;
use crate::chat::UserMessage;
use crate::history::HistoryMessage;
use crate::history;
use crate::resilience::{Challenge, ResilienceHookOutcome};
use crate::text;
use crate::todo;

verus! {

// ---------------------------------------------------------------------------
// Limits
// ---------------------------------------------------------------------------

/// Why the loop stops before the task is done.
#[derive(Debug, Clone, Copy, PartialEq, Eq, Structural)]
pub enum Halt {
    IterationLimit,
    TokenLimit,
}

impl Halt {
    pub open spec fn spec_text(self) -> Seq<char> {
        match self {
            Halt::IterationLimit => "Iteration limit reached"@,
            Halt::TokenLimit => "Token limit reached"@,
        }
    }

    pub fn text(&self) -> (r: &'static str)
        ensures
            r@ == self.spec_text(),
    {
        match self {
            Halt::IterationLimit => "Iteration limit reached",
            Halt::TokenLimit => "Token limit reached",
        }
    }
}

impl Agent {
    /// The limit that has been reached.
    pub open spec fn halt(self) -> Option<Halt> {
        if self.state.iterations >= self.config.opencode_zen.max_iterations {
            Some(Halt::IterationLimit)
        } else if self.config.opencode_zen.max_tokens is Some && self.state.total_tokens
            >= self.config.opencode_zen.max_tokens->0 {
            Some(Halt::TokenLimit)
        } else {
            None
        }
    }

    /// Whether the agent becomes `after` when it asks for its next iteration and is
    /// answered `r`.
    pub open spec fn asked(self, r: Result<usize, Halt>, after: Agent) -> bool {
        match r {
            Err(h) => self.halt() == Some(h) && after == self,
            Ok(n) => {
                &&& self.halt() is None
                &&& n == self.state.iterations + 1
                &&& n <= self.config.opencode_zen.max_iterations
                &&& after == (Agent { state: LoopState { iterations: n, ..self.state }, ..self })
            },
        }
    }

    /// Starts the next iteration, unless a limit has been reached.
    pub fn begin_iteration(&mut self) -> (r: Result<usize, Halt>)
        ensures
            old(self).asked(r, *final(self)),
    {
        if self.state.iterations >= self.config.opencode_zen.max_iterations {
            return Err(Halt::IterationLimit);
        }
        if let Some(max_tokens) = self.config.opencode_zen.max_tokens {
            if self.state.total_tokens >= max_tokens {
                return Err(Halt::TokenLimit);
            }
        }
        self.state.iterations = self.state.iterations + 1;
        Ok(self.state.iterations)
    }
}

// ---------------------------------------------------------------------------
// Navigation
// ---------------------------------------------------------------------------

impl Agent {
    /// Whether a page with the given address is another one than before.
    pub open spec fn navigated(self, url: Seq<char>) -> bool {
        match self.state.current_url {
            Some(old_url) => old_url@ != url,
            None => true,
        }
    }

    /// Whether a page is another than the one before, and what is kept of the conversation then.
    pub open spec fn arrives(self, url: Seq<char>, r: bool, after: Agent) -> bool {
        &&& r == self.navigated(url)
        &&& after == (Agent {
            history: after.history,
            pacing: after.pacing,
            state: after.state,
            ..self
        })
        &&& after.state == (LoopState {
            current_url: after.state.current_url,
            ref_recovery_attempts: if r {
                0
            } else {
                self.state.ref_recovery_attempts
            },
            prior_was_dashboard_like: !r && self.state.prior_was_dashboard_like,
            ..self.state
        })
        &&& text::opt_view(after.state.current_url) == Some(url)
        &&& after.pacing.config == self.pacing.config
        &&& after.pacing.streak == if r {
            None
        } else {
            self.pacing.streak
        }
        &&& after.history.messages@ == if r {
            history::truncated(self.history.messages@, 2)
        } else {
            history::trimmed(self.history.messages@, 5)
        }
    }

    /// Notes the address of the page. On a new page the conversation is cut back to
    /// its head and the notes of the user, and the pacing streak, the count of
    /// recovered elements and the memory of the last page are dropped; on the same
    /// page the conversation is cut back to the last five steps.
    pub fn observe_url(&mut self, url: &str) -> (r: bool)
        ensures
            old(self).arrives(url@, r, *final(self)),
    {
        let navigated = match &self.state.current_url {
            Some(old_url) => !text::same(old_url.as_str(), url),
            None => true,
        };
        self.state.current_url = Some(text::owned(url));
        if navigated {
            self.history.truncate_preserving_user_notes(2);
            self.pacing.reset();
            self.state.ref_recovery_attempts = 0;
            self.state.prior_was_dashboard_like = false;
        } else {
            self.history.trim_in_page_history(5);
        }
        navigated
    }
}

// ---------------------------------------------------------------------------
// Notes of the user
// ---------------------------------------------------------------------------

/// The message that a note of the user becomes.
pub open spec fn note_text(note: Seq<char>) -> Seq<char> {
    "[user note while task is running] "@ + note
}

/// The transcript lines of notes of the user.
pub open spec fn note_lines(session: Seq<char>, notes: Seq<UserMessage>) -> Seq<LogView> {
    notes.map_values(
        |m: UserMessage|
            LogView::Line(agent::entry_text(m.timestamp_secs, session, "USER: "@ + m.text@)),
    )
}

/// Whether `after` is `before` with the notes behind it.
pub open spec fn noted(
    after: Seq<HistoryMessage>,
    before: Seq<HistoryMessage>,
    notes: Seq<UserMessage>,
) -> bool {
    &&& after.len() == before.len() + notes.len()
    &&& after.take(before.len() as int) == before
    &&& forall|i: int|
        0 <= i < notes.len() ==> (#[trigger] after[before.len() + i]).says(
            "user"@,
            note_text(notes[i].text@),
        )
}

fn note_message(note: &str) -> (r: HistoryMessage)
    ensures
        r.says("user"@, note_text(note@)),
{
    let mut out = text::owned("[user note while task is running] ");
    out.append(note);
    HistoryMessage::user(out.as_str())
}

fn note_line(session: &str, m: &UserMessage) -> (r: String)
    ensures
        r@ == agent::entry_text(m.timestamp_secs, session@, "USER: "@ + m.text@),
{
    let mut body = text::owned("USER: ");
    body.append(m.text.as_str());
    agent::entry(m.timestamp_secs, session, body.as_str())
}

impl Agent {
    fn fold_notes(&mut self, pending: &Vec<UserMessage>)
        ensures
            *final(self) == (Agent { history: final(self).history, ..*old(self) }),
            noted(final(self).history.messages@, old(self).history.messages@, pending@),
    {
        let ghost before = self.history.messages@;
        let mut i: usize = 0;
        assert(before.take(before.len() as int) == before);
        while i < pending.len()
            invariant
                i <= pending@.len(),
                before == old(self).history.messages@,
                *self == (Agent { history: self.history, ..*old(self) }),
                noted(self.history.messages@, before, pending@.take(i as int)),
            decreases pending@.len() - i,
        {
            let ghost now = self.history.messages@;
            self.history.push(note_message(pending[i].text.as_str()));
            i += 1;
            assert(self.history.messages@.take(before.len() as int) == now.take(
                before.len() as int,
            ));
            assert forall|k: int| 0 <= k < i implies (#[trigger] self.history.messages@[before.len()
                + k]).says("user"@, note_text(pending@.take(i as int)[k].text@)) by {
                if k < i - 1 {
                    assert(self.history.messages@[before.len() + k] == now[before.len() + k]);
                    assert(now[before.len() + k].says(
                        "user"@,
                        note_text(pending@.take(i - 1)[k].text@),
                    ));
                }
            }
        }
        assert(pending@.take(pending@.len() as int) == pending@);
    }

    fn log_notes(&mut self, notes: &Vec<UserMessage>)
        ensures
            *final(self) == (Agent { log: final(self).log, ..*old(self) }),
            final(self).logged() == old(self).logged() + note_lines(old(self).session_id@, notes@),
    {
        let ghost session = self.session_id@;
        let mut i: usize = 0;
        assert(self.logged() == old(self).logged() + note_lines(session, notes@.take(0)));
        while i < notes.len()
            invariant
                i <= notes@.len(),
                session == old(self).session_id@,
                *self == (Agent { log: self.log, ..*old(self) }),
                self.logged() == old(self).logged() + note_lines(session, notes@.take(i as int)),
            decreases notes@.len() - i,
        {
            let line = note_line(self.session_id.as_str(), &notes[i]);
            self.log_line(line);
            i += 1;
            assert(notes@.take(i as int) == notes@.take(i - 1).push(notes@[i - 1]));
            assert(note_lines(session, notes@.take(i as int)) == note_lines(
                session,
                notes@.take(i - 1),
            ).push(LogView::Line(line@)));
        }
        assert(notes@.take(notes@.len() as int) == notes@);
    }

    /// What is written down of the notes that wait for it.
    pub open spec fn catches_up(self, after: Agent) -> bool {
        &&& after == (Agent {
            pending_user_note_writes: after.pending_user_note_writes,
            log: after.log,
            ..self
        })
        &&& after.pending_user_note_writes@ == Seq::<UserMessage>::empty()
        &&& after.logged() == self.logged() + note_lines(
            self.session_id@,
            self.pending_user_note_writes@,
        )
    }

    /// Writes the transcript lines of notes that were folded in before.
    pub fn flush_pending_user_note_writes(&mut self)
        ensures
            old(self).catches_up(*final(self)),
    {
        let mut notes: Vec<UserMessage> = Vec::new();
        std::mem::swap(&mut notes, &mut self.pending_user_note_writes);
        self.log_notes(&notes);
    }

    /// What is kept of the notes that the user sent.
    pub open spec fn listens(self, pending: Seq<UserMessage>, after: Agent) -> bool {
        &&& after == (Agent {
            history: after.history,
            pending_user_note_writes: after.pending_user_note_writes,
            log: after.log,
            ..self
        })
        &&& noted(after.history.messages@, self.history.messages@, pending)
        &&& after.pending_user_note_writes@ == Seq::<UserMessage>::empty()
        &&& after.logged() == self.logged() + note_lines(
            self.session_id@,
            self.pending_user_note_writes@,
        ) + note_lines(self.session_id@, pending)
    }

    /// Adds the notes that the user has sent to the conversation and to the
    /// transcript, behind those that still wait for their line.
    pub fn drain_and_apply_user_messages(&mut self, pending: &Vec<UserMessage>)
        ensures
            old(self).listens(pending@, *final(self)),
    {
        self.flush_pending_user_note_writes();
        self.fold_notes(pending);
        self.log_notes(pending);
    }

    /// What is kept of the notes that the user sent while the log cannot be written.
    pub open spec fn listens_on(self, pending: Seq<UserMessage>, after: Agent) -> bool {
        &&& after == (Agent {
            history: after.history,
            pending_user_note_writes: after.pending_user_note_writes,
            ..self
        })
        &&& noted(after.history.messages@, self.history.messages@, pending)
        &&& after.pending_user_note_writes@ == self.pending_user_note_writes@
            + pending
    }

    /// Adds the notes that the user has sent to the conversation; their lines are
    /// written later.
    pub fn drain_and_apply_user_messages_defer_file(&mut self, pending: &Vec<UserMessage>)
        ensures
            old(self).listens_on(pending@, *final(self)),
    {
        self.fold_notes(pending);
        let mut i: usize = 0;
        assert(pending@.take(0) == Seq::<UserMessage>::empty());
        while i < pending.len()
            invariant
                i <= pending@.len(),
                *self == (Agent {
                    history: self.history,
                    pending_user_note_writes: self.pending_user_note_writes,
                    ..*old(self)
                }),
                noted(self.history.messages@, old(self).history.messages@, pending@),
                self.pending_user_note_writes@ == old(self).pending_user_note_writes@
                    + pending@.take(i as int),
            decreases pending@.len() - i,
        {
            self.pending_user_note_writes.push(pending[i].clone());
            i += 1;
            assert(pending@.take(i as int) == pending@.take(i - 1).push(pending@[i - 1]));
        }
        assert(pending@.take(pending@.len() as int) == pending@);
    }

    /// Adds one note to the conversation and to the transcript.
    pub fn apply_user_message_for_test(&mut self, msg: &UserMessage)
        ensures
            *final(self) == (Agent {
                history: final(self).history,
                log: final(self).log,
                ..*old(self)
            }),
            noted(final(self).history.messages@, old(self).history.messages@, seq![*msg]),
            final(self).logged() == old(self).logged() + note_lines(
                old(self).session_id@,
                seq![*msg],
            ),
    {
        let mut one: Vec<UserMessage> = Vec::new();
        one.push(msg.clone());
        assert(one@ == seq![*msg]);
        self.fold_notes(&one);
        self.log_notes(&one);
    }
}

// ---------------------------------------------------------------------------
// Observation
// ---------------------------------------------------------------------------

/// How often a page is read again after a failure.
pub const TREE_RETRIES: u32 = 4;

/// Whether a page is read again: the last reading failed, and not all retries were
/// used.
pub fn retry_extraction(failed: bool, retries: u32) -> (r: bool)
    ensures
        r == (failed && retries < TREE_RETRIES),
{
    failed && retries < TREE_RETRIES
}

/// What the model is shown of a page.
#[derive(Debug, Clone, Copy, PartialEq, Eq, Structural)]
pub enum Observation {
    /// The whole page.
    Full,
    /// The whole page, since nearly all of it was replaced.
    Replaced,
    /// What has changed.
    Changes,
}

/// Above this many removed and this many added elements a page counts as replaced.
pub const REPLACE_THRESHOLD: usize = 50;

/// What is shown of a page, given how many elements were removed and added since
/// the previous reading, where there is one.
pub open spec fn observation_for(
    navigated: bool,
    diff: Option<(usize, usize)>,
    forced: bool,
) -> Observation {
    match diff {
        None => Observation::Full,
        Some((removed, added)) => {
            if navigated {
                Observation::Full
            } else if removed > REPLACE_THRESHOLD && added > REPLACE_THRESHOLD {
                Observation::Replaced
            } else if forced {
                Observation::Full
            } else {
                Observation::Changes
            }
        },
    }
}

/// The words for an observation in the transcript.
pub open spec fn observation_text(obs: Seq<char>) -> Seq<char> {
    "Observation: "@ + text::decimal(vstd::utf8::encode_utf8(obs).len()) + " bytes"@
}

/// Renders the words for an observation.
pub fn observation_summary(obs: &str) -> (r: String)
    ensures
        r@ == observation_text(obs@),
{
    let n: usize = obs.as_bytes().len();
    let mut out = text::owned("Observation: ");
    out.append(text::decimal_of(n as u64).as_str());
    out.append(" bytes");
    out
}

impl Agent {
    /// Decides what the model is shown of a page.
    pub fn choose_observation(&self, navigated: bool, diff: Option<(usize, usize)>) -> (r:
        Observation)
        ensures
            r == observation_for(navigated, diff, self.state.force_snapshot),
    {
        match diff {
            None => Observation::Full,
            Some((removed, added)) => {
                if navigated {
                    Observation::Full
                } else if removed > REPLACE_THRESHOLD && added > REPLACE_THRESHOLD {
                    Observation::Replaced
                } else if self.state.force_snapshot {
                    Observation::Full
                } else {
                    Observation::Changes
                }
            },
        }
    }

    /// What is kept of a look at the page.
    pub open spec fn observes(self, obs: Seq<char>, kind: Observation, after: Agent) -> bool {
        &&& after == (Agent {
            history: after.history,
            completeness: after.completeness,
            state: LoopState { force_snapshot: false, ..self.state },
            ..self
        })
        &&& after.completeness.subtasks == self.completeness.subtasks
        &&& after.completeness.finish_attempts == self.completeness.finish_attempts
        &&& after.completeness.gate_triggered == self.completeness.gate_triggered
        &&& after.completeness.last_snapshot_iteration == Some(self.state.iterations)
        &&& text::opt_view(after.completeness.last_snapshot_signature) == Some(
            todo::signature_text(obs),
        )
        &&& after.completeness.snapshot_since_mark
        &&& after.history.messages@ == if kind is Replaced {
            history::truncated(self.history.messages@, 2)
        } else {
            self.history.messages@
        }
    }

    /// Records what the model is shown: its signature is the evidence that a
    /// subtask can be marked done with. A replaced page cuts the conversation back.
    pub fn record_observation(&mut self, obs: &str, kind: Observation)
        requires
            todo::signable(obs@),
        ensures
            old(self).observes(obs@, kind, *final(self)),
    {
        self.state.force_snapshot = false;
        let signature = todo::planner_signature(obs);
        self.completeness.record_snapshot(self.state.iterations, signature);
        if kind == Observation::Replaced {
            self.history.truncate_preserving_user_notes(2);
        }
    }
}

// ---------------------------------------------------------------------------
// What page inspection asks for
// ---------------------------------------------------------------------------

/// How the loop goes on after page inspection.
#[derive(Debug)]
pub enum PageStep {
    Proceed,
    /// Pause the session for this reason, and stop the loop with this error.
    Stop { pause_reason: String, error: String },
}

/// The host of a challenge, or another word where it is not known.
pub open spec fn hint_or(c: Challenge, otherwise: Seq<char>) -> Seq<char> {
    match c.domain_hint {
        Some(d) => d@,
        None => otherwise,
    }
}

fn hint_of(c: &Challenge, otherwise: &str) -> (r: String)
    ensures
        r@ == hint_or(*c, otherwise@),
{
    match &c.domain_hint {
        Some(d) => d.clone(),
        None => text::owned(otherwise),
    }
}

/// The message for a finding.
pub open spec fn finding_text(kind: Seq<char>, summary: Seq<char>) -> Seq<char> {
    "[resilience:"@ + kind + "] "@ + summary
        + "\n\nThe page state above is the latest observation. Decide your next step accordingly."@
}

/// The message for a challenge, with what the user can do about it.
pub open spec fn captcha_text(c: Challenge, hint: Seq<char>) -> Seq<char> {
    "[resilience:captcha] "@ + c.label@ + "\n\n"@ + hint
}

/// The transcript detail of a challenge.
pub open spec fn captcha_detail(c: Challenge, hint: Seq<char>) -> Seq<char> {
    "challenge_kind="@ + c.kind.spec_name() + " domain="@ + hint_or(c, "(unknown)"@) + " hint=\""@
        + hint + "\""@
}

/// Why the session is paused for a challenge.
pub open spec fn captcha_pause(c: Challenge) -> Seq<char> {
    "captcha:"@ + c.kind.spec_name() + " ("@ + hint_or(c, "unknown host"@) + ")"@
}

/// The error with which the loop stops for a challenge.
pub open spec fn captcha_error(c: Challenge, hint: Seq<char>) -> Seq<char> {
    "captcha challenge detected: "@ + c.label@ + " — "@ + hint
}

/// The transcript entry of what page inspection reports.
pub open spec fn report_entry(outcome: ResilienceHookOutcome, hint: Seq<char>) -> Option<LogView> {
    match outcome {
        ResilienceHookOutcome::AutoDismiss { dismiss_ref } => Some(
            LogView::Resilience {
                kind: "modal_autodismiss"@,
                detail: "dismiss_ref="@ + dismiss_ref@,
            },
        ),
        ResilienceHookOutcome::Backoff { secs } => Some(
            LogView::Resilience {
                kind: "rate_limit_backoff"@,
                detail: "secs="@ + text::decimal(secs as nat),
            },
        ),
        ResilienceHookOutcome::SurfaceAsFinding { summary, kind } => Some(
            LogView::Resilience { kind: kind@, detail: summary@ },
        ),
        ResilienceHookOutcome::PauseForCaptcha { challenge } => Some(
            LogView::Resilience {
                kind: "CaptchaPause"@,
                detail: captcha_detail(challenge, hint),
            },
        ),
        _ => None,
    }
}

/// The message that the model gets for what page inspection reports.
pub open spec fn report_message(outcome: ResilienceHookOutcome, hint: Seq<char>) -> Option<
    Seq<char>,
> {
    match outcome {
        ResilienceHookOutcome::SurfaceAsFinding { summary, kind } => Some(
            finding_text(kind@, summary@),
        ),
        ResilienceHookOutcome::PauseForCaptcha { challenge } => Some(
            captcha_text(challenge, hint),
        ),
        _ => None,
    }
}

/// Whether `after` is `before` with one message of the user's role behind it.
pub open spec fn told(
    after: Seq<HistoryMessage>,
    before: Seq<HistoryMessage>,
    message: Seq<char>,
) -> bool {
    &&& after.len() == before.len() + 1
    &&& after.drop_last() == before
    &&& after.last().says("user"@, message)
}

impl Agent {
    /// Whether a challenge on the page can be counted.
    pub open spec fn can_meet(self, outcome: ResilienceHookOutcome) -> bool {
        outcome matches ResilienceHookOutcome::PauseForCaptcha { challenge } ==> {
            self.captcha_telemetry.can_count(hint_or(challenge, "unknown"@), challenge.kind)
        }
    }

    /// Whether `apply_page_report` takes the report.
    pub fn takes_report(&self, outcome: &ResilienceHookOutcome) -> (r: bool)
        requires
            self.wf(),
        ensures
            r == self.can_meet(*outcome),
    {
        match outcome {
            ResilienceHookOutcome::PauseForCaptcha { challenge } => {
                let domain = hint_of(challenge, "unknown");
                if domain.as_str().is_empty() {
                    return true;
                }
                let host = captcha_telemetry::normalize_host(domain.as_str());
                match self.captcha_telemetry.count(host.as_str(), challenge.kind) {
                    Some(n) => n < u32::MAX,
                    None => true,
                }
            },
            _ => true,
        }
    }

    /// The state after page inspection, but for what it copies from the report.
    pub open spec fn inspected(self, outcome: ResilienceHookOutcome, dashboard_like: bool, after:
        LoopState) -> bool {
        &&& after == (LoopState {
            pending_modal_dismiss: after.pending_modal_dismiss,
            pending_backoff_secs: match outcome {
                ResilienceHookOutcome::Backoff { secs } => Some(secs),
                _ => self.state.pending_backoff_secs,
            },
            pending_captcha: match outcome {
                ResilienceHookOutcome::PauseForCaptcha { challenge } => Some(challenge),
                _ => self.state.pending_captcha,
            },
            prior_was_dashboard_like: if outcome is PauseForCaptcha {
                self.state.prior_was_dashboard_like
            } else {
                dashboard_like
            },
            ..self.state
        })
        &&& match outcome {
            ResilienceHookOutcome::AutoDismiss { dismiss_ref } => after.pending_modal_dismiss
                == Some(dismiss_ref),
            _ => after.pending_modal_dismiss == self.state.pending_modal_dismiss,
        }
    }

    /// What is made of what was found on the page.
    pub open spec fn meets(
        self,
        outcome: ResilienceHookOutcome,
        hint: Seq<char>,
        dashboard_like: bool,
        now: u64,
        r: PageStep,
        after: Agent,
    ) -> bool {
        &&& after.wf()
        &&& after == (Agent {
            history: after.history,
            captcha_telemetry: after.captcha_telemetry,
            state: after.state,
            log: after.log,
            ..self
        })
        &&& self.inspected(outcome, dashboard_like, after.state)
        &&& match report_entry(outcome, hint) {
            Some(e) => after.logged() == self.logged().push(e),
            None => after.log == self.log,
        }
        &&& match report_message(outcome, hint) {
            Some(m) => told(
                after.history.messages@,
                self.history.messages@,
                m,
            ),
            None => after.history == self.history,
        }
        &&& match outcome {
            ResilienceHookOutcome::PauseForCaptcha { challenge } => {
                &&& r is Stop
                &&& r->pause_reason@ == captcha_pause(challenge)
                &&& r->error@ == captcha_error(challenge, hint)
                &&& self.captcha_telemetry.took(
                    captcha_telemetry::TelemetryCall::Met {
                        domain: hint_or(challenge, "unknown"@),
                        kind: challenge.kind,
                        now,
                    },
                    after.captcha_telemetry,
                )
            },
            _ => r is Proceed && after.captcha_telemetry == self.captcha_telemetry,
        }
    }

    /// Acts on what page inspection reports, at the given second. `hint` says what
    /// the user can do about a challenge; a challenge is counted and stops the loop.
    pub fn apply_page_report(
        &mut self,
        outcome: &ResilienceHookOutcome,
        hint: &str,
        dashboard_like: bool,
        now: u64,
    ) -> (r: PageStep)
        requires
            old(self).wf(),
            old(self).can_meet(*outcome),
        ensures
            old(self).meets(*outcome, hint@, dashboard_like, now, r, *final(self)),
    {
        match outcome {
            ResilienceHookOutcome::AutoDismiss { dismiss_ref } => {
                let mut detail = text::owned("dismiss_ref=");
                detail.append(dismiss_ref.as_str());
                self.log_resilience("modal_autodismiss", detail);
                self.state.pending_modal_dismiss = Some(dismiss_ref.clone());
            },
            ResilienceHookOutcome::Backoff { secs } => {
                let mut detail = text::owned("secs=");
                detail.append(text::decimal_of(*secs).as_str());
                self.log_resilience("rate_limit_backoff", detail);
                self.state.pending_backoff_secs = Some(*secs);
            },
            ResilienceHookOutcome::SurfaceAsFinding { summary, kind } => {
                self.log_resilience(kind.as_str(), summary.clone());
                let mut message = text::owned("[resilience:");
                message.append(kind.as_str());
                message.append("] ");
                message.append(summary.as_str());
                message.append(
                    "\n\nThe page state above is the latest observation. Decide your next step accordingly.",
                );
                self.history.push_user(message.as_str());
            },
            ResilienceHookOutcome::PauseForCaptcha { challenge } => {
                return self.stop_for_challenge(challenge, hint, now);
            },
            _ => {},
        }
        self.state.prior_was_dashboard_like = dashboard_like;
        PageStep::Proceed
    }

    fn stop_for_challenge(&mut self, challenge: &Challenge, hint: &str, now: u64) -> (r: PageStep)
        requires
            old(self).wf(),
            old(self).can_meet(ResilienceHookOutcome::PauseForCaptcha { challenge: *challenge }),
        ensures
            final(self).wf(),
            *final(self) == (Agent {
                history: final(self).history,
                captcha_telemetry: final(self).captcha_telemetry,
                state: LoopState { pending_captcha: Some(*challenge), ..old(self).state },
                log: final(self).log,
                ..*old(self)
            }),
            final(self).logged() == old(self).logged().push(
                LogView::Resilience {
                    kind: "CaptchaPause"@,
                    detail: captcha_detail(*challenge, hint@),
                },
            ),
            told(
                final(self).history.messages@,
                old(self).history.messages@,
                captcha_text(*challenge, hint@),
            ),
            r is Stop,
            r->pause_reason@ == captcha_pause(*challenge),
            r->error@ == captcha_error(*challenge, hint@),
            old(self).captcha_telemetry.took(
                captcha_telemetry::TelemetryCall::Met {
                    domain: hint_or(*challenge, "unknown"@),
                    kind: challenge.kind,
                    now,
                },
                final(self).captcha_telemetry,
            ),
    {
        self.state.pending_captcha = Some(challenge.clone());
        let domain = hint_of(challenge, "unknown");
        self.captcha_telemetry.record_at(domain.as_str(), challenge.kind, now);
        let mut detail = text::owned("challenge_kind=");
        detail.append(challenge.kind.as_str());
        detail.append(" domain=");
        detail.append(hint_of(challenge, "(unknown)").as_str());
        detail.append(" hint=\"");
        detail.append(hint);
        detail.append("\"");
        self.log_resilience("CaptchaPause", detail);
        let mut message = text::owned("[resilience:captcha] ");
        message.append(challenge.label.as_str());
        message.append("\n\n");
        message.append(hint);
        self.history.push_user(message.as_str());
        let mut pause_reason = text::owned("captcha:");
        pause_reason.append(challenge.kind.as_str());
        pause_reason.append(" (");
        pause_reason.append(hint_of(challenge, "unknown host").as_str());
        pause_reason.append(")");
        let mut error = text::owned("captcha challenge detected: ");
        error.append(challenge.label.as_str());
        error.append(" — ");
        error.append(hint);
        PageStep::Stop { pause_reason, error }
    }

    /// How long to wait, and what is left then.
    pub open spec fn backs_off(self, r: Option<u64>, after: Agent) -> bool {
        &&& r == self.state.pending_backoff_secs
        &&& after == (Agent {
            state: LoopState {
                pending_backoff_secs: None,
                force_snapshot: self.state.force_snapshot || r is Some,
                ..self.state
            },
            ..self
        })
    }

    /// How long to wait for a site that throttles. After a wait the model is shown
    /// the whole page.
    pub fn take_backoff(&mut self) -> (r: Option<u64>)
        ensures
            old(self).backs_off(r, *final(self)),
    {
        let secs = self.state.pending_backoff_secs;
        self.state.pending_backoff_secs = None;
        if secs.is_some() {
            self.state.force_snapshot = true;
        }
        secs
    }

    /// Shows the model what was observed.
    pub fn show_page(&mut self, obs: &str)
        ensures
            *final(self) == (Agent { history: final(self).history, ..*old(self) }),
            told(
                final(self).history.messages@,
                old(self).history.messages@,
                "Current page state:\n"@ + obs@,
            ),
    {
        let mut message = text::owned("Current page state:\n");
        message.append(obs);
        self.history.push_user(message.as_str());
    }
}

// ---------------------------------------------------------------------------
// Laws
// ---------------------------------------------------------------------------

/// A message that the user sends while a task runs becomes a note, and no cut back
/// after a navigation loses it.
pub proof fn law_user_messages_survive_navigation(
    after: Seq<HistoryMessage>,
    before: Seq<HistoryMessage>,
    notes: Seq<UserMessage>,
    keep: nat,
    i: int,
)
    requires
        noted(after, before, notes),
        0 <= i < notes.len(),
    ensures
        after[before.len() + i].is_note(),
        history::truncated(after, keep).contains(after[before.len() + i]),
{
    let k = before.len() + i;
    let m = after[k];
    let prefix = history::USER_NOTE_PREFIX@;
    let content = note_text(notes[i].text@);
    reveal_strlit("[user note while task is running] ");
    reveal_strlit("[user note while task is running]");
    assert(content.subrange(0, prefix.len() as int) =~= prefix);
    assert(m.is_note());
    if after.len() <= keep {
        assert(after.contains(m));
    } else if k < keep {
        assert(history::truncated(after, keep)[k] == m);
    } else {
        let rest = after.skip(keep as int);
        let p = |x: HistoryMessage| x.is_note();
        assert(rest[k - keep] == m);
        broadcast use vstd::seq_lib::group_filter_ensures;

        assert(rest.contains(m));
        assert(rest.filter(p).contains(m));
        let j = rest.filter(p).index_of(m);
        assert(history::truncated(after, keep)[keep + j] == m);
    }
}

/// A note loses nothing by waiting for its transcript line: written later, behind
/// those that waited before it, it gives the same line in the same order.
pub proof fn law_deferred_notes_reach_the_transcript(
    session: Seq<char>,
    waiting: Seq<UserMessage>,
    notes: Seq<UserMessage>,
)
    ensures
        note_lines(session, waiting + notes) == note_lines(session, waiting) + note_lines(
            session,
            notes,
        ),
        note_lines(session, notes).len() == notes.len(),
{
}

/// A page that is new, or that the loop wants to see whole, is shown whole.
pub proof fn law_forced_observations_are_whole(
    navigated: bool,
    diff: Option<(usize, usize)>,
    forced: bool,
)
    ensures
        navigated || forced || diff is None ==> observation_for(navigated, diff, forced) !is Changes,
        navigated ==> observation_for(navigated, diff, forced) is Full,
{
}

/// How many of the answers let an iteration begin.
pub open spec fn iterations_begun(answers: Seq<Result<usize, Halt>>) -> nat
    decreases answers.len(),
{
    if answers.len() == 0 {
        0
    } else {
        iterations_begun(answers.drop_last()) + if answers.last() is Ok {
            1nat
        } else {
            0nat
        }
    }
}

/// However often an agent asks for its next iteration, no more are begun than the
/// settings allow, they are numbered from one, and none begins once the tokens are
/// spent. `before` and `after` are the agent round each call; between two calls
/// neither the count of iterations nor the limits change.
pub proof fn law_iterations_are_bounded(
    before: Seq<Agent>,
    answers: Seq<Result<usize, Halt>>,
    after: Seq<Agent>,
)
    requires
        before.len() == answers.len(),
        after.len() == answers.len(),
        answers.len() > 0,
        before[0].state.iterations == 0,
        forall|i: int|
            0 <= i < answers.len() ==> before[i].asked(#[trigger] answers[i], after[i]),
        forall|i: int|
            0 < i < answers.len() ==> {
                &&& (#[trigger] before[i]).state.iterations == after[i - 1].state.iterations
                &&& before[i].config.opencode_zen == after[i - 1].config.opencode_zen
            },
    ensures
        iterations_begun(answers) <= before[0].config.opencode_zen.max_iterations,
        forall|i: int|
            0 <= i < answers.len() && answers[i] is Ok ==> {
                &&& (#[trigger] answers[i])->Ok_0 == iterations_begun(answers.take(i + 1))
                &&& before[i].config.opencode_zen.max_tokens is Some
                    ==> before[i].state.total_tokens
                    < before[i].config.opencode_zen.max_tokens->0
            },
{
    lemma_iterations_counted(before, answers, after, answers.len() - 1);
    assert(answers.take(answers.len() - 1 + 1) == answers);
    assert forall|i: int| 0 <= i < answers.len() && answers[i] is Ok implies {
        &&& (#[trigger] answers[i])->Ok_0 == iterations_begun(answers.take(i + 1))
        &&& before[i].config.opencode_zen.max_tokens is Some ==> before[i].state.total_tokens
            < before[i].config.opencode_zen.max_tokens->0
    } by {
        lemma_iterations_counted(before, answers, after, i);
    }
}

proof fn lemma_iterations_counted(
    before: Seq<Agent>,
    answers: Seq<Result<usize, Halt>>,
    after: Seq<Agent>,
    i: int,
)
    requires
        before.len() == answers.len(),
        after.len() == answers.len(),
        0 <= i < answers.len(),
        before[0].state.iterations == 0,
        forall|j: int|
            0 <= j < answers.len() ==> before[j].asked(#[trigger] answers[j], after[j]),
        forall|j: int|
            0 < j < answers.len() ==> {
                &&& (#[trigger] before[j]).state.iterations == after[j - 1].state.iterations
                &&& before[j].config.opencode_zen == after[j - 1].config.opencode_zen
            },
    ensures
        after[i].state.iterations == iterations_begun(answers.take(i + 1)),
        after[i].config.opencode_zen == before[0].config.opencode_zen,
        iterations_begun(answers.take(i + 1)) <= before[0].config.opencode_zen.max_iterations,
    decreases i,
{
    let head = answers.take(i + 1);
    assert(head.drop_last() == answers.take(i));
    assert(head.last() == answers[i]);
    assert(before[i].asked(answers[i], after[i]));
    if i > 0 {
        lemma_iterations_counted(before, answers, after, i - 1);
        assert(before[i].state.iterations == after[i - 1].state.iterations);
    } else {
        assert(iterations_begun(answers.take(0)) == 0);
    }
}

/// An iteration begins exactly while there are iterations and tokens left, and it is
/// counted; one that does not begin changes nothing.
pub proof fn law_iterations_begin_within_the_limits(a: Agent, r: Result<usize, Halt>, after: Agent)
    requires
        a.asked(r, after),
    ensures
        r is Ok <==> {
            &&& a.state.iterations < a.config.opencode_zen.max_iterations
            &&& a.config.opencode_zen.max_tokens matches Some(most) ==> a.state.total_tokens < most
        },
        r is Ok ==> after.state.iterations == a.state.iterations + 1,
        r is Err ==> after == a,
        r matches Err(h) ==> (h is IterationLimit <==> a.state.iterations
            >= a.config.opencode_zen.max_iterations),
        after.history == a.history,
        after.state.total_tokens == a.state.total_tokens,
{
}

/// A page is new where its address is another than the last one; the same address again
/// is the same page.
pub proof fn law_pages_are_told_by_their_address(
    a: Agent,
    url: Seq<char>,
    r: bool,
    mid: Agent,
    next: Seq<char>,
    again: bool,
    after: Agent,
)
    requires
        a.arrives(url, r, mid),
        mid.arrives(next, again, after),
    ensures
        again <==> next != url,
        a.state.current_url is None ==> r,
        a.state.current_url matches Some(last) ==> (r <==> last@ != url),
        mid.completeness == a.completeness,
        mid.state.iterations == a.state.iterations,
        mid.state.total_tokens == a.state.total_tokens,
        mid.state.pending_finish_result == a.state.pending_finish_result,
        r ==> mid.pacing.streak is None && mid.state.ref_recovery_attempts == 0,
        !r ==> mid.pacing.streak == a.pacing.streak,
{
}

/// On a new page the conversation goes on from its first two messages and the notes of
/// the user; on the same page all is kept but old steps, of which the last ten stay.
pub proof fn law_a_new_page_starts_the_conversation_over(
    a: Agent,
    url: Seq<char>,
    r: bool,
    after: Agent,
)
    requires
        a.arrives(url, r, after),
        a.history.messages@.len() >= 2,
    ensures
        r ==> after.history.messages@.take(2) == a.history.messages@.take(2),
        r && a.history.messages@.len() > 2 ==> forall|i: int|
            2 <= i < after.history.messages@.len() ==> (
            #[trigger] after.history.messages@[i]).is_note(),
        !r ==> history::count_steps(after.history.messages@) <= 10,
        !r && history::count_steps(a.history.messages@) <= 10 ==> after.history.messages@
            == a.history.messages@,
        !r ==> after.history.messages@.filter(|m: HistoryMessage| !m.is_step())
            == a.history.messages@.filter(|m: HistoryMessage| !m.is_step()),
{
    history::law_notes_survive_truncation(a.history.messages@, 2);
    history::law_trimming_drops_only_old_steps(a.history.messages@, 5);
}

/// Every note of the user reaches the model word for word, in the order in which the
/// notes were sent, behind what was said before, and the transcript as well.
pub proof fn law_notes_reach_the_model_and_the_transcript(
    a: Agent,
    pending: Seq<UserMessage>,
    after: Agent,
    i: int,
)
    requires
        a.listens(pending, after),
        0 <= i < pending.len(),
    ensures
        after.history.messages@.len() == a.history.messages@.len() + pending.len(),
        after.history.messages@.take(a.history.messages@.len() as int) == a.history.messages@,
        ({
            let m = after.history.messages@[a.history.messages@.len() + i];
            &&& m.has_role("user"@)
            &&& m.content is Some
            &&& pending[i].text@.is_suffix_of(m.content->0@)
        }),
        after.logged().len() == a.logged().len() + a.pending_user_note_writes@.len()
            + pending.len(),
        after.logged()[a.logged().len() + a.pending_user_note_writes@.len() + i] matches LogView::Line(
            line,
        ) && text::occurs(line, "USER: "@ + pending[i].text@) && text::occurs(
            line,
            text::decimal(pending[i].timestamp_secs as nat),
        ),
        after.pending_user_note_writes@.len() == 0,
        after.completeness == a.completeness,
        after.state == a.state,
{
    broadcast use text::group_occurs;

    let m = after.history.messages@[a.history.messages@.len() + i];
    let w = m.content->0@;
    let t = pending[i].text@;
    assert(m.says("user"@, note_text(t)));
    text::lemma_suffix_occurs("[user note while task is running] "@, t);
    let x = a.logged();
    let y = note_lines(a.session_id@, a.pending_user_note_writes@);
    let z = note_lines(a.session_id@, pending);
    assert(((x + y) + z)[x.len() + y.len() + i] == z[i]);
}

/// Notes that come while the transcript cannot be written reach the model at once, and
/// the transcript later: none of them is lost or written twice.
pub proof fn law_waiting_notes_are_written_once(
    a: Agent,
    pending: Seq<UserMessage>,
    mid: Agent,
    after: Agent,
)
    requires
        a.pending_user_note_writes@.len() == 0,
        a.listens_on(pending, mid),
        mid.catches_up(after),
    ensures
        mid.history.messages@.len() == a.history.messages@.len() + pending.len(),
        mid.log == a.log,
        after.history == mid.history,
        after.pending_user_note_writes@.len() == 0,
        after.logged() == a.logged() + note_lines(a.session_id@, pending),
{
    assert(a.pending_user_note_writes@ + pending =~= pending);
}

/// What was seen last is what a mark as done is held against: the signature of a page
/// that was just looked at is taken for a pending subtask, and no other is.
pub proof fn law_the_last_look_confirms_a_subtask(
    a: Agent,
    obs: Seq<char>,
    kind: Observation,
    after: Agent,
    id: Seq<char>,
    sig: Seq<char>,
)
    requires
        a.observes(obs, kind, after),
        after.completeness.refusal(id) is None,
    ensures
        after.completeness.mark_done_outcome(id, sig) is MarkedDone <==> sig == todo::signature_text(
            obs,
        ),
        after.completeness.subtasks == a.completeness.subtasks,
        after.completeness.last_snapshot_iteration == Some(a.state.iterations),
        !after.state.force_snapshot,
        after.completeness.gate_triggered == a.completeness.gate_triggered,
        after.completeness.finish_attempts == a.completeness.finish_attempts,
        after.state.iterations == a.state.iterations,
        kind !is Replaced ==> after.history.messages@ == a.history.messages@,
{
}

/// A page is shown as what changed on it only where it is the same page, where it is not
/// wanted whole and where not more than fifty elements left and came; where more did,
/// it counts as another page.
pub proof fn law_changes_are_shown_of_the_same_page(
    navigated: bool,
    removed: usize,
    added: usize,
    forced: bool,
)
    ensures
        observation_for(navigated, Some((removed, added)), forced) is Changes <==> !navigated
            && !forced && (removed <= 50 || added <= 50),
        observation_for(navigated, Some((removed, added)), forced) is Replaced <==> !navigated
            && removed > 50 && added > 50,
        observation_for(navigated, None, forced) is Full,
{
}

/// What a page puts in the way is told: of a challenge its label, its kind, its host and
/// what to do about it, and of any other finding its kind and its summary.
pub proof fn law_challenges_are_told(
    c: Challenge,
    hint: Seq<char>,
    kind: Seq<char>,
    summary: Seq<char>,
)
    ensures
        text::occurs(captcha_text(c, hint), c.label@),
        text::occurs(captcha_text(c, hint), hint),
        text::occurs(captcha_error(c, hint), c.label@),
        text::occurs(captcha_error(c, hint), hint),
        text::occurs(captcha_pause(c), "captcha:"@ + c.kind.spec_name()),
        text::occurs(captcha_detail(c, hint), "challenge_kind="@ + c.kind.spec_name()),
        text::occurs(captcha_detail(c, hint), hint),
        c.domain_hint is Some ==> {
            &&& text::occurs(captcha_pause(c), c.domain_hint->0@)
            &&& text::occurs(captcha_detail(c, hint), c.domain_hint->0@)
            &&& forall|otherwise: Seq<char>| #[trigger]
                hint_or(c, otherwise) == c.domain_hint->0@
        },
        text::occurs(finding_text(kind, summary), "[resilience:"@ + kind),
        text::occurs(finding_text(kind, summary), "] "@ + summary),
{
    broadcast use text::group_occurs;

}

/// A challenge stops the loop, and nothing else that is found on a page does. A dialog
/// is kept to be closed, a limit to be waited for, and the model is told of a challenge
/// or a finding at the end of the conversation.
pub proof fn law_only_challenges_stop_the_loop(
    a: Agent,
    outcome: ResilienceHookOutcome,
    hint: Seq<char>,
    dashboard_like: bool,
    now: u64,
    r: PageStep,
    after: Agent,
)
    requires
        a.meets(outcome, hint, dashboard_like, now, r, after),
    ensures
        r is Stop <==> outcome is PauseForCaptcha,
        outcome matches ResilienceHookOutcome::AutoDismiss { dismiss_ref }
            ==> after.state.pending_modal_dismiss == Some(dismiss_ref),
        outcome matches ResilienceHookOutcome::Backoff { secs } ==> after.state.pending_backoff_secs
            == Some(secs),
        outcome matches ResilienceHookOutcome::SurfaceAsFinding { summary, kind } ==> {
            &&& after.history.messages@.len() == a.history.messages@.len() + 1
            &&& after.history.messages@.drop_last() == a.history.messages@
            &&& text::occurs(after.history.messages@.last().content->0@, summary@)
            &&& after.logged().last() == (LogView::Resilience { kind: kind@, detail: summary@ })
        },
        outcome matches ResilienceHookOutcome::PauseForCaptcha { challenge } ==> {
            &&& after.state.pending_captcha == Some(challenge)
            &&& after.history.messages@.len() == a.history.messages@.len() + 1
            &&& text::occurs(after.history.messages@.last().content->0@, challenge.label@)
            &&& text::occurs(r->error@, challenge.label@)
            &&& after.logged().len() == a.logged().len() + 1
        },
        outcome matches ResilienceHookOutcome::AutoDismiss { dismiss_ref } ==> (after.logged().last()
            matches LogView::Resilience { detail, .. } && text::occurs(detail, dismiss_ref@)),
        outcome matches ResilienceHookOutcome::Backoff { secs } ==> (after.logged().last()
            matches LogView::Resilience { detail, .. } && text::occurs(
            detail,
            text::decimal(secs as nat),
        )),
        outcome matches ResilienceHookOutcome::PauseForCaptcha { challenge } ==> (
        after.logged().last() matches LogView::Resilience { detail, .. } && text::occurs(
            detail,
            challenge.kind.spec_name(),
        ) && text::occurs(r->pause_reason@, challenge.kind.spec_name())),
        outcome !is SurfaceAsFinding && outcome !is PauseForCaptcha ==> after.history == a.history,
        outcome !is AutoDismiss ==> after.state.pending_modal_dismiss
            == a.state.pending_modal_dismiss,
        outcome !is Backoff ==> after.state.pending_backoff_secs == a.state.pending_backoff_secs,
        outcome !is PauseForCaptcha ==> after.captcha_telemetry == a.captcha_telemetry
            && after.state.pending_captcha == a.state.pending_captcha
            && after.state.prior_was_dashboard_like == dashboard_like,
        after.completeness == a.completeness,
        after.state.iterations == a.state.iterations,
{
    broadcast use text::group_occurs;

}

/// A wait that a page asks for is taken once, and the page is looked at again after it.
pub proof fn law_a_wait_is_taken_once(
    a: Agent,
    first: Option<u64>,
    mid: Agent,
    second: Option<u64>,
    after: Agent,
)
    requires
        a.backs_off(first, mid),
        mid.backs_off(second, after),
    ensures
        first == a.state.pending_backoff_secs,
        second is None,
        first is Some ==> mid.state.force_snapshot,
        first is None ==> mid == a,
        after == mid,
{
}

/// The summary of a look at the page tells its size in bytes.
pub proof fn law_looks_are_told_by_their_size(obs: Seq<char>)
    ensures
        text::occurs(
            observation_text(obs),
            text::decimal(vstd::utf8::encode_utf8(obs).len()) + " bytes"@,
        ),
{
    broadcast use text::group_occurs;

}

} // verus!
