//! The tools that act on the page: what they answer, when they try again, and what
//! they leave in the agent.

use vstd::prelude::*;
use crate::agent::{Agent, LogView, LoopState};
use crate::agent;
use crate::clock;
use crate::json;
use crate::model_reply;
use crate::nav;
use crate::resilience::RefRecoveryOutcome;
use crate::text;
use crate::tools;

verus! {

// ---------------------------------------------------------------------------
// Attempts
// ---------------------------------------------------------------------------

/// How often an action on the page is tried.
pub const ACTION_ATTEMPTS: u32 = 3;

/// Seconds before an action is tried for the second time; doubled each time.
pub const ACTION_RETRY_SECS: u64 = 1;

/// What an action on the page came to.
#[derive(Debug)]
pub enum Attempt {
    Succeeded,
    Failed { error: String },
    TimedOut,
    /// The element is no longer on the page.
    Stale { recovery: RefRecoveryOutcome },
}

/// What an attempt leads to.
#[derive(Debug)]
pub struct AttemptStep {
    pub result: String,
    /// Seconds after which the action is tried again, if it is.
    pub again_after: Option<u64>,
}

/// Whether an action is tried again after the given attempt.
pub open spec fn tried_again(attempt: u32, outcome: Attempt) -> Option<nat> {
    if outcome is Failed || outcome is TimedOut {
        nav::retry_wait(attempt, ACTION_ATTEMPTS, ACTION_RETRY_SECS)
    } else {
        None
    }
}

/// The seconds of an optional wait.
pub open spec fn wait_view(o: Option<u64>) -> Option<nat> {
    match o {
        Some(secs) => Some(secs as nat),
        None => None,
    }
}

fn again_after(attempt: u32, outcome: &Attempt) -> (r: Option<u64>)
    requires
        1 <= attempt,
    ensures
        wait_view(r) == tried_again(attempt, *outcome),
{
    proof {
        reveal_with_fuel(nav::power_of_two, 3);
    }
    match outcome {
        Attempt::Failed { .. } => nav::retry_delay_secs(
            attempt,
            ACTION_ATTEMPTS,
            ACTION_RETRY_SECS,
        ),
        Attempt::TimedOut => nav::retry_delay_secs(attempt, ACTION_ATTEMPTS, ACTION_RETRY_SECS),
        _ => None,
    }
}

/// The answer to an action that failed.
pub open spec fn failure_text(what: Seq<char>, error: Seq<char>) -> Seq<char> {
    "ERROR: Action failed ("@ + what + "). "@ + error + ". Do not assume success."@
}

fn render_failure(what: &str, error: &str) -> (r: String)
    ensures
        r@ == failure_text(what@, error@),
{
    let mut out = text::owned("ERROR: Action failed (");
    out.append(what);
    out.append("). ");
    out.append(error);
    out.append(". Do not assume success.");
    out
}

/// The answer to an action that timed out.
pub open spec fn timeout_text(doing: Seq<char>, action: Seq<char>) -> Seq<char> {
    "ERROR: Action failed (Timeout while "@ + doing + "). The "@ + action
        + " timed out and did not complete successfully. Do not assume your action succeeded."@
}

fn render_timeout(doing: &str, action: &str) -> (r: String)
    ensures
        r@ == timeout_text(doing@, action@),
{
    let mut out = text::owned("ERROR: Action failed (Timeout while ");
    out.append(doing);
    out.append("). The ");
    out.append(action);
    out.append(
        " timed out and did not complete successfully. Do not assume your action succeeded.",
    );
    out
}

// ---------------------------------------------------------------------------
// navigate
// ---------------------------------------------------------------------------

/// Where a name leads, and how that was found out.
#[derive(Debug)]
pub struct NavResolution {
    pub original_input: String,
    pub url: String,
    /// How the name was resolved.
    pub path: String,
}

/// What to do with a resolved address.
#[derive(Debug)]
pub enum NavStep {
    /// Answer the call with this; the browser stays where it is.
    Refuse { result: String },
    /// Go there; `host` is the host in the address, where it has one.
    Go { host: Option<String> },
}

/// The error of a navigation that is meant to crash the session.
pub open spec fn crash_text(url: Seq<char>) -> Option<Seq<char>> {
    if text::occurs(url, "force-crash"@) {
        Some("Deliberately forced crash mid-task!"@)
    } else {
        None
    }
}

/// The error of a navigation that is meant to crash the session.
pub fn forced_crash(url: &str) -> (r: Option<&'static str>)
    ensures
        match r {
            Some(e) => crash_text(url@) == Some(e@),
            None => crash_text(url@) is None,
        },
{
    if text::contains(url, "force-crash") {
        Some("Deliberately forced crash mid-task!")
    } else {
        None
    }
}

/// The transcript body of a resolved name.
pub open spec fn resolve_text(n: NavResolution) -> Seq<char> {
    "NAV-RESOLVE: input=\""@ + n.original_input@ + "\" path="@ + n.path@ + " resolved_url="@
        + n.url@
}

/// The answer to a navigation that is not allowed.
pub open spec fn refused_text(n: NavResolution) -> Seq<char> {
    "ERROR: Action failed (Navigation). Domain for URL '"@ + n.url@ + "' (resolved from '"@
        + n.original_input@ + "' via "@ + n.path@
        + ") is not in the allowlist. Do not attempt this domain."@
}

/// The answer to an attempt at a navigation.
pub open spec fn navigate_text(n: NavResolution, outcome: Attempt) -> Seq<char> {
    match outcome {
        Attempt::Succeeded => "Navigated successfully (resolved \""@ + n.original_input@
            + "\" -> \""@ + n.url@ + "\" via "@ + n.path@ + ")"@,
        Attempt::Failed { error } => failure_text("Navigation"@, error@),
        _ => timeout_text("navigating"@, "navigation"@),
    }
}

/// What an attempt at a navigation leads to.
pub fn navigate_step(n: &NavResolution, attempt: u32, outcome: &Attempt) -> (r: AttemptStep)
    requires
        1 <= attempt,
        *outcome !is Stale,
    ensures
        r.result@ == navigate_text(*n, *outcome),
        wait_view(r.again_after) == tried_again(attempt, *outcome),
{
    let result = match outcome {
        Attempt::Succeeded => {
            let mut out = text::owned("Navigated successfully (resolved \"");
            out.append(n.original_input.as_str());
            out.append("\" -> \"");
            out.append(n.url.as_str());
            out.append("\" via ");
            out.append(n.path.as_str());
            out.append(")");
            out
        },
        Attempt::Failed { error } => render_failure("Navigation", error.as_str()),
        _ => render_timeout("navigating", "navigation"),
    };
    AttemptStep { result, again_after: again_after(attempt, outcome) }
}

impl Agent {
    /// Whether a navigation is refused, or goes on to the given host, for a resolved
    /// address with the given domain name.
    pub open spec fn sent(
        self,
        n: NavResolution,
        domain: Option<Seq<char>>,
        host: Option<Seq<char>>,
        r: NavStep,
    ) -> bool {
        let may_go = nav::may_go(domain, text::opt_views(self.config.agent.allowed_domains));
        match r {
            NavStep::Refuse { result } => !may_go && result@ == refused_text(n),
            NavStep::Go { host: found } => may_go && text::opt_view(found) == host,
        }
    }

    /// What is made of a navigation, and what is logged of it.
    pub open spec fn sets_out(
        self,
        n: NavResolution,
        domain: Option<Seq<char>>,
        host: Option<Seq<char>>,
        now: u64,
        r: NavStep,
        after: Agent,
    ) -> bool {
        &&& after == (Agent { log: after.log, ..self })
        &&& after.logged() == self.logged().push(
            LogView::Line(agent::entry_text(now, self.session_id@, resolve_text(n))),
        )
        &&& self.sent(n, domain, host, r)
    }

    /// Decides whether the browser goes to a resolved address, given the domain name
    /// and the host in it.
    pub fn begin_navigation_to(
        &mut self,
        n: &NavResolution,
        domain: &Option<String>,
        host: Option<String>,
        now: u64,
    ) -> (r: NavStep)
        ensures
            old(self).sets_out(
                *n,
                text::opt_view(*domain),
                text::opt_view(host),
                now,
                r,
                *final(self),
            ),
    {
        let mut body = text::owned("NAV-RESOLVE: input=\"");
        body.append(n.original_input.as_str());
        body.append("\" path=");
        body.append(n.path.as_str());
        body.append(" resolved_url=");
        body.append(n.url.as_str());
        let line = agent::entry(now, self.session_id.as_str(), body.as_str());
        self.log_line(line);
        if nav::domain_permitted(domain, &self.config.agent.allowed_domains) {
            NavStep::Go { host }
        } else {
            let mut result = text::owned("ERROR: Action failed (Navigation). Domain for URL '");
            result.append(n.url.as_str());
            result.append("' (resolved from '");
            result.append(n.original_input.as_str());
            result.append("' via ");
            result.append(n.path.as_str());
            result.append(") is not in the allowlist. Do not attempt this domain.");
            NavStep::Refuse { result }
        }
    }

    /// Decides whether the browser goes to a resolved address.
    pub fn begin_navigation(&mut self, n: &NavResolution, now: u64) -> (r: NavStep)
        ensures
            old(self).sets_out(
                *n,
                nav::domain_in(n.url@),
                nav::host_in(n.url@),
                now,
                r,
                *final(self),
            ),
    {
        let domain = nav::url_domain(n.url.as_str());
        let host = nav::url_host(n.url.as_str());
        self.begin_navigation_to(n, &domain, host, now)
    }

    /// The transcript entry of a wait before a host that is known for challenges.
    pub open spec fn challenger_entry(host: Seq<char>, delay_ms: u64) -> LogView {
        LogView::Resilience {
            kind: "PreNavPacing"@,
            detail: "host="@ + host + " delay_ms="@ + text::decimal(delay_ms as nat),
        }
    }

    /// How many milliseconds to wait before a visit to a host that is known for
    /// challenges, given the nanoseconds of the clock.
    pub fn challenger_wait_with(&mut self, host: &str, nanos: u64) -> (r: u64)
        ensures
            r == nav::challenger_delay(nanos, old(self).state.iterations as u64),
            *final(self) == (Agent { log: final(self).log, ..*old(self) }),
            final(self).logged() == old(self).logged().push(Agent::challenger_entry(host@, r)),
    {
        let delay: u64 = nav::pre_nav_delay_ms(nanos, self.state.iterations as u64);
        let mut detail = text::owned("host=");
        detail.append(host);
        detail.append(" delay_ms=");
        detail.append(text::decimal_of(delay).as_str());
        self.log_resilience("PreNavPacing", detail);
        delay
    }

    /// How many milliseconds to wait before a visit to a host that is known for
    /// challenges.
    pub fn challenger_wait(&mut self, host: &str) -> (r: u64)
        ensures
            1500 <= r <= 2999,
            exists|nanos: u64|
                r == #[trigger] nav::challenger_delay(nanos, old(self).state.iterations as u64),
            *final(self) == (Agent { log: final(self).log, ..*old(self) }),
            final(self).logged() == old(self).logged().push(Agent::challenger_entry(host@, r)),
    {
        let nanos: u64 = match clock::nanos_within_second() {
            Some(n) => n as u64,
            None => 0,
        };
        let r: u64 = self.challenger_wait_with(host, nanos);
        r
    }
}

// ---------------------------------------------------------------------------
// click and type
// ---------------------------------------------------------------------------

/// The actions on one element.
#[derive(Debug, Clone, Copy, PartialEq, Eq, Structural)]
pub enum RefAction {
    Click,
    Type,
}

/// The answer where an element is not on the page.
pub open spec fn missing_ref_text(reference: Seq<char>) -> Seq<char> {
    "ref_id "@ + reference + " (normalized: "@ + tools::normalized_ref(reference)
        + ") not found on page"@
}

/// The answer where an element is not on the page.
pub fn missing_ref(reference: &str) -> (r: String)
    ensures
        r@ == missing_ref_text(reference@),
{
    let mut out = text::owned("ref_id ");
    out.append(reference);
    out.append(" (normalized: ");
    out.append(tools::normalize_ref(reference).as_str());
    out.append(") not found on page");
    out
}

/// The answer where an element has left the page.
pub open spec fn stale_text(
    action: RefAction,
    reference: Seq<char>,
    recovery: RefRecoveryOutcome,
) -> Seq<char> {
    match recovery {
        RefRecoveryOutcome::Retry { .. } => "Stale ref detected ("@ + reference + match action {
            RefAction::Click => "). Recovery: re-snapshot and retry with the new ref. The agent will re-snapshot and pick a fresh ref next iteration."@,
            RefAction::Type => "). Recovery: re-snapshot and retry with the new ref."@,
        },
        RefRecoveryOutcome::EscalateToLLM { reason, .. } =>
        "ERROR: Action failed (Stale Element Reference). "@ + reason@ + match action {
            RefAction::Click => ". The element was removed from the DOM. Your action had NO effect. Re-evaluate the new page state and decide your next step."@,
            RefAction::Type => ". The element was removed from the DOM. Your action had NO effect."@,
        },
        RefRecoveryOutcome::AbortWithReason { reason, .. } =>
        "ERROR: Action aborted (Stale Element Reference). "@ + reason@ + match action {
            RefAction::Click => ". Your action had NO effect."@,
            RefAction::Type => ". A type action against a guessed target would be unsafe."@,
        },
    }
}

/// The transcript entry where an element has left the page.
pub open spec fn stale_entry(reference: Seq<char>, recovery: RefRecoveryOutcome) -> LogView {
    match recovery {
        RefRecoveryOutcome::Retry { new_ref, attempts_so_far } => LogView::Resilience {
            kind: "ref_recovery_retry"@,
            detail: "old="@ + reference + " new="@ + new_ref@ + " attempt="@ + text::decimal(
                attempts_so_far as nat,
            ),
        },
        RefRecoveryOutcome::EscalateToLLM { attempts_so_far, .. } => LogView::Resilience {
            kind: "ref_recovery_escalate"@,
            detail: "ref="@ + reference + " attempt="@ + text::decimal(attempts_so_far as nat),
        },
        RefRecoveryOutcome::AbortWithReason { attempts_so_far, .. } => LogView::Resilience {
            kind: "ref_recovery_abort"@,
            detail: "ref="@ + reference + " attempt="@ + text::decimal(attempts_so_far as nat),
        },
    }
}

/// The answer to an attempt at an action on an element.
pub open spec fn ref_action_text(action: RefAction, reference: Seq<char>, outcome: Attempt) -> Seq<
    char,
> {
    match outcome {
        Attempt::Succeeded => match action {
            RefAction::Click => "Clicked successfully"@,
            RefAction::Type => "Typed successfully"@,
        },
        Attempt::Failed { error } => match action {
            RefAction::Click => failure_text("Click"@, error@),
            RefAction::Type => failure_text("Type"@, error@),
        },
        Attempt::TimedOut => match action {
            RefAction::Click => timeout_text("clicking"@, "click action"@),
            RefAction::Type => timeout_text("typing"@, "type action"@),
        },
        Attempt::Stale { recovery } => stale_text(action, reference, recovery),
    }
}

fn render_stale(action: RefAction, reference: &str, recovery: &RefRecoveryOutcome) -> (r: String)
    ensures
        r@ == stale_text(action, reference@, *recovery),
{
    match recovery {
        RefRecoveryOutcome::Retry { .. } => {
            let mut out = text::owned("Stale ref detected (");
            out.append(reference);
            match action {
                RefAction::Click => out.append(
                    "). Recovery: re-snapshot and retry with the new ref. The agent will re-snapshot and pick a fresh ref next iteration.",
                ),
                RefAction::Type => out.append(
                    "). Recovery: re-snapshot and retry with the new ref.",
                ),
            }
            out
        },
        RefRecoveryOutcome::EscalateToLLM { reason, .. } => {
            let mut out = text::owned("ERROR: Action failed (Stale Element Reference). ");
            out.append(reason.as_str());
            match action {
                RefAction::Click => out.append(
                    ". The element was removed from the DOM. Your action had NO effect. Re-evaluate the new page state and decide your next step.",
                ),
                RefAction::Type => out.append(
                    ". The element was removed from the DOM. Your action had NO effect.",
                ),
            }
            out
        },
        RefRecoveryOutcome::AbortWithReason { reason, .. } => {
            let mut out = text::owned("ERROR: Action aborted (Stale Element Reference). ");
            out.append(reason.as_str());
            match action {
                RefAction::Click => out.append(". Your action had NO effect."),
                RefAction::Type => out.append(
                    ". A type action against a guessed target would be unsafe.",
                ),
            }
            out
        },
    }
}

impl Agent {
    fn log_stale(&mut self, reference: &str, recovery: &RefRecoveryOutcome)
        ensures
            *final(self) == (Agent { log: final(self).log, ..*old(self) }),
            final(self).logged() == old(self).logged().push(stale_entry(reference@, *recovery)),
    {
        match recovery {
            RefRecoveryOutcome::Retry { new_ref, attempts_so_far } => {
                let mut detail = text::owned("old=");
                detail.append(reference);
                detail.append(" new=");
                detail.append(new_ref.as_str());
                detail.append(" attempt=");
                detail.append(text::decimal_of(*attempts_so_far as u64).as_str());
                self.log_resilience("ref_recovery_retry", detail);
            },
            RefRecoveryOutcome::EscalateToLLM { attempts_so_far, .. } => {
                let mut detail = text::owned("ref=");
                detail.append(reference);
                detail.append(" attempt=");
                detail.append(text::decimal_of(*attempts_so_far as u64).as_str());
                self.log_resilience("ref_recovery_escalate", detail);
            },
            RefRecoveryOutcome::AbortWithReason { attempts_so_far, .. } => {
                let mut detail = text::owned("ref=");
                detail.append(reference);
                detail.append(" attempt=");
                detail.append(text::decimal_of(*attempts_so_far as u64).as_str());
                self.log_resilience("ref_recovery_abort", detail);
            },
        }
    }

    /// What an attempt at an element is answered, and what it leaves.
    pub open spec fn acts(
        self,
        action: RefAction,
        reference: Seq<char>,
        attempt: u32,
        outcome: Attempt,
        r: AttemptStep,
        after: Agent,
    ) -> bool {
        &&& r.result@ == ref_action_text(action, reference, outcome)
        &&& wait_view(r.again_after) == tried_again(attempt, outcome)
        &&& match outcome {
            Attempt::Succeeded => after == (Agent {
                state: LoopState { ref_recovery_attempts: 0, ..self.state },
                ..self
            }),
            Attempt::Stale { recovery } => {
                &&& after == (Agent {
                    state: LoopState {
                        ref_recovery_attempts: recovery.spec_attempts(),
                        force_snapshot: true,
                        ..self.state
                    },
                    log: after.log,
                    ..self
                })
                &&& after.logged() == self.logged().push(
                    stale_entry(reference, recovery),
                )
            },
            _ => after == self,
        }
    }

    /// What an attempt at an action on an element leads to; `reference` is that of
    /// the element, normalized. Where the element has left the page, the action is
    /// not tried again, and the model is shown the whole page.
    pub fn ref_action_step(
        &mut self,
        action: RefAction,
        reference: &str,
        attempt: u32,
        outcome: &Attempt,
    ) -> (r: AttemptStep)
        requires
            1 <= attempt,
        ensures
            old(self).acts(action, reference@, attempt, *outcome, r, *final(self)),
    {
        let result = match outcome {
            Attempt::Succeeded => {
                self.state.ref_recovery_attempts = 0;
                match action {
                    RefAction::Click => text::owned("Clicked successfully"),
                    RefAction::Type => text::owned("Typed successfully"),
                }
            },
            Attempt::Failed { error } => match action {
                RefAction::Click => render_failure("Click", error.as_str()),
                RefAction::Type => render_failure("Type", error.as_str()),
            },
            Attempt::TimedOut => match action {
                RefAction::Click => render_timeout("clicking", "click action"),
                RefAction::Type => render_timeout("typing", "type action"),
            },
            Attempt::Stale { recovery } => {
                self.log_stale(reference, recovery);
                self.state.ref_recovery_attempts = recovery.attempts();
                self.state.force_snapshot = true;
                render_stale(action, reference, recovery)
            },
        };
        AttemptStep { result, again_after: again_after(attempt, outcome) }
    }
}

// ---------------------------------------------------------------------------
// scroll, press_key and snapshot
// ---------------------------------------------------------------------------

/// The answer to a scroll.
pub open spec fn scroll_text(outcome: Attempt) -> Seq<char> {
    match outcome {
        Attempt::Succeeded => "Scrolled successfully"@,
        Attempt::Failed { error } => failure_text("Scroll"@, error@),
        _ => timeout_text("scrolling"@, "scroll action"@),
    }
}

/// The answer to a scroll, which is tried once.
pub fn scroll_result(outcome: &Attempt) -> (r: String)
    requires
        *outcome !is Stale,
    ensures
        r@ == scroll_text(*outcome),
{
    match outcome {
        Attempt::Succeeded => text::owned("Scrolled successfully"),
        Attempt::Failed { error } => render_failure("Scroll", error.as_str()),
        _ => render_timeout("scrolling", "scroll action"),
    }
}

/// The answer to a key press.
pub open spec fn press_key_text(outcome: Attempt) -> Seq<char> {
    match outcome {
        Attempt::Succeeded => "Key pressed successfully"@,
        Attempt::Failed { error } => failure_text("Press Key"@, error@),
        _ => timeout_text("pressing key"@, "press_key action"@),
    }
}

/// The answer to a key press, which is tried once.
pub fn press_key_result(outcome: &Attempt) -> (r: String)
    requires
        *outcome !is Stale,
    ensures
        r@ == press_key_text(*outcome),
{
    match outcome {
        Attempt::Succeeded => text::owned("Key pressed successfully"),
        Attempt::Failed { error } => render_failure("Press Key", error.as_str()),
        _ => render_timeout("pressing key", "press_key action"),
    }
}

/// The signature of the last snapshot, or a word on its absence.
pub open spec fn snapshot_word(signature: Option<Seq<char>>) -> Seq<char> {
    match signature {
        Some(s) => s,
        None => "(none yet — perception block has not recorded a snapshot for this session)"@,
    }
}

/// The answer to a call of `snapshot`.
pub open spec fn snapshot_text(signature: Option<Seq<char>>) -> Seq<char> {
    "Snapshot taken. Observe the new page state in the next user message. Current snapshot_signature: "@
        + snapshot_word(signature)
}

impl Agent {
    /// The answer to a call of `snapshot`.
    pub fn snapshot_result(&self) -> (r: String)
        ensures
            r@ == snapshot_text(text::opt_view(self.completeness.last_snapshot_signature)),
    {
        let mut out = text::owned(
            "Snapshot taken. Observe the new page state in the next user message. Current snapshot_signature: ",
        );
        match &self.completeness.last_snapshot_signature {
            Some(s) => out.append(s.as_str()),
            None => out.append(
                "(none yet — perception block has not recorded a snapshot for this session)",
            ),
        }
        out
    }
}

/// What the call of a tool that does not exist is answered.
pub open spec fn unknown_tool_text(name: Seq<char>) -> Seq<char> {
    "Unknown tool '"@ + name + "'"@
}

/// The answer to a call of a tool that does not exist.
pub fn unknown_tool(name: &str) -> (r: String)
    ensures
        r@ == unknown_tool_text(name@),
{
    let mut out = text::owned("Unknown tool '");
    out.append(name);
    out.append("'");
    out
}

// ---------------------------------------------------------------------------
// vision_inspect
// ---------------------------------------------------------------------------

pub const VISION_MODEL: &'static str = "mimo-v2.5-free";

pub const VISION_PROMPT: &'static str = "Describe what you see in this cropped UI region. Identify if it looks like a button, icon, or specific widget.";

/// The request to describe a picture, given in base 64.
pub open spec fn vision_request(picture: Seq<char>) -> Seq<char> {
    let words = json::with_text(json::with_text("{}"@, "type"@, "text"@), "text"@, VISION_PROMPT@);
    let url = json::with_text("{}"@, "url"@, "data:image/png;base64,"@ + picture);
    let image = json::json_with(
        json::with_text("{}"@, "type"@, "image_url"@),
        "image_url"@,
        url,
    );
    let message = json::json_with(
        json::with_text("{}"@, "role"@, "user"@),
        "content"@,
        json::array_of(seq![words, image]),
    );
    json::json_with(
        json::with_text("{}"@, "model"@, VISION_MODEL@),
        "messages"@,
        json::array_of(seq![message]),
    )
}

/// Renders the request to describe a picture.
pub fn vision_body(picture: &str) -> (r: String)
    ensures
        r@ == vision_request(picture@),
{
    let words = json::set_text("{}", "type", "text");
    let words = json::set_text(words.as_str(), "text", VISION_PROMPT);
    let mut data = text::owned("data:image/png;base64,");
    data.append(picture);
    let url = json::set_text("{}", "url", data.as_str());
    let image = json::set_text("{}", "type", "image_url");
    let image = json::with_key(image.as_str(), "image_url", url.as_str());
    let ghost parts = seq![words@, image@];
    let mut content: Vec<String> = Vec::new();
    content.push(words);
    content.push(image);
    assert(text::views(content@) == parts);
    let message = json::set_text("{}", "role", "user");
    let message = json::with_key(
        message.as_str(),
        "content",
        json::array_text(&content).as_str(),
    );
    let ghost only = seq![message@];
    let mut messages: Vec<String> = Vec::new();
    messages.push(message);
    assert(text::views(messages@) == only);
    let out = json::set_text("{}", "model", VISION_MODEL);
    json::with_key(out.as_str(), "messages", json::array_text(&messages).as_str())
}

/// The description in a reply to that request.
pub open spec fn description_in(reply: Seq<char>) -> Option<Seq<char>> {
    model_reply::content_in(reply)
}

/// A region of the page, as it is shown.
#[derive(Debug)]
pub struct Region {
    pub x: String,
    pub y: String,
    pub w: String,
    pub h: String,
}

/// What came of looking at a region. Numbers are given as they are shown.
#[derive(Debug)]
pub enum Sight {
    ScreenshotFailed { error: String },
    ScreenshotTimedOut,
    CallFailed { error: String },
    CallTimedOut,
    /// The reply was no JSON.
    Unreadable,
    Undescribed,
    /// A description that can be relied on.
    Clear { description: String, bounds: Region, confidence: String },
    /// A description that is too vague, with a smaller region to look at instead.
    Vague { confidence: String, threshold: String, tighter: Option<Region> },
}

/// What is made of the description in a reply.
pub open spec fn tells_description(
    no_json: bool,
    description: Option<Seq<char>>,
    r: Result<String, Sight>,
) -> bool {
    if no_json {
        r == Err::<String, Sight>(Sight::Unreadable)
    } else {
        match description {
            Some(d) => r matches Ok(shown) && shown@ == d,
            None => r == Err::<String, Sight>(Sight::Undescribed),
        }
    }
}

/// The description, unless the reply is no JSON or holds none.
pub fn described(no_json: bool, description: Option<String>) -> (r: Result<String, Sight>)
    ensures
        r == if no_json {
            Err::<String, Sight>(Sight::Unreadable)
        } else {
            match description {
                Some(d) => Ok::<String, Sight>(d),
                None => Err::<String, Sight>(Sight::Undescribed),
            }
        },
        tells_description(no_json, text::opt_view(description), r),
{
    if no_json {
        return Err(Sight::Unreadable);
    }
    match description {
        Some(d) => Ok(d),
        None => Err(Sight::Undescribed),
    }
}

/// Reads the description in a reply.
pub fn read_description(reply: &str) -> (r: Result<String, Sight>)
    ensures
        tells_description(json::json_error(reply@) is Some, description_in(reply@), r),
{
    described(json::parse_error(reply).is_some(), model_reply::reply_content(reply))
}

/// The suggestion of a smaller region.
pub open spec fn tighter_text(tighter: Option<Region>) -> Seq<char> {
    match tighter {
        Some(c) => " Suggested tighter crop: x="@ + c.x@ + " y="@ + c.y@ + " w="@ + c.w@ + " h="@
            + c.h@ + " (use this for the next screenshot)."@,
        None => Seq::empty(),
    }
}

/// The answer to a look at a region.
pub open spec fn sight_text(reference: Seq<char>, sight: Sight) -> Seq<char> {
    match sight {
        Sight::ScreenshotFailed { error } => "Failed to take screenshot of region: "@ + error@,
        Sight::ScreenshotTimedOut => "Timeout while taking screenshot of region"@,
        Sight::CallFailed { error } => "Vision API call failed: "@ + error@,
        Sight::CallTimedOut => "Vision API call timed out"@,
        Sight::Unreadable => "Vision API returned invalid JSON"@,
        Sight::Undescribed => "Vision API returned no description"@,
        Sight::Clear { description, bounds, confidence } => "Vision fallback result for region "@
            + reference + ":\nDescription: "@ + description@ + "\nBounds: "@ + bounds.w@ + "x"@
            + bounds.h@ + " at "@ + bounds.x@ + ","@ + bounds.y@ + "\nConfidence: "@ + confidence@,
        Sight::Vague { confidence, threshold, tighter } =>
        "Vision result is not reliable (confidence "@ + confidence@ + ", threshold "@ + threshold@
            + "). The LLM's description was too vague to act on."@ + tighter_text(tighter)
            + " Try a different region or use a structured accessibility-tree element instead of vision."@,
    }
}

impl Agent {
    /// What the model is told of a look at a region, and what is logged of it.
    pub open spec fn sees(
        self,
        reference: Seq<char>,
        sight: Sight,
        r: Seq<char>,
        after: Agent,
    ) -> bool {
        &&& r == sight_text(reference, sight)
        &&& match sight {
            Sight::Vague { confidence, threshold, .. } => {
                &&& after == (Agent { log: after.log, ..self })
                &&& after.logged() == self.logged().push(
                    LogView::Resilience {
                        kind: "vision_ambiguity"@,
                        detail: "ref="@ + reference + " confidence="@ + confidence@
                            + " threshold="@ + threshold@,
                    },
                )
            },
            _ => after == self,
        }
    }

    /// The answer to a look at a region. A vague description is logged.
    pub fn sight_result(&mut self, reference: &str, sight: &Sight) -> (r: String)
        ensures
            old(self).sees(reference@, *sight, r@, *final(self)),
    {
        match sight {
            Sight::ScreenshotFailed { error } => {
                let mut out = text::owned("Failed to take screenshot of region: ");
                out.append(error.as_str());
                out
            },
            Sight::ScreenshotTimedOut => text::owned("Timeout while taking screenshot of region"),
            Sight::CallFailed { error } => {
                let mut out = text::owned("Vision API call failed: ");
                out.append(error.as_str());
                out
            },
            Sight::CallTimedOut => text::owned("Vision API call timed out"),
            Sight::Unreadable => text::owned("Vision API returned invalid JSON"),
            Sight::Undescribed => text::owned("Vision API returned no description"),
            Sight::Clear { description, bounds, confidence } => {
                let mut out = text::owned("Vision fallback result for region ");
                out.append(reference);
                out.append(":\nDescription: ");
                out.append(description.as_str());
                out.append("\nBounds: ");
                out.append(bounds.w.as_str());
                out.append("x");
                out.append(bounds.h.as_str());
                out.append(" at ");
                out.append(bounds.x.as_str());
                out.append(",");
                out.append(bounds.y.as_str());
                out.append("\nConfidence: ");
                out.append(confidence.as_str());
                out
            },
            Sight::Vague { confidence, threshold, tighter } => {
                let mut detail = text::owned("ref=");
                detail.append(reference);
                detail.append(" confidence=");
                detail.append(confidence.as_str());
                detail.append(" threshold=");
                detail.append(threshold.as_str());
                self.log_resilience("vision_ambiguity", detail);
                let crop = match tighter {
                    Some(c) => {
                        let mut crop = text::owned(" Suggested tighter crop: x=");
                        crop.append(c.x.as_str());
                        crop.append(" y=");
                        crop.append(c.y.as_str());
                        crop.append(" w=");
                        crop.append(c.w.as_str());
                        crop.append(" h=");
                        crop.append(c.h.as_str());
                        crop.append(" (use this for the next screenshot).");
                        crop
                    },
                    None => String::new(),
                };
                let mut out = text::owned("Vision result is not reliable (confidence ");
                out.append(confidence.as_str());
                out.append(", threshold ");
                out.append(threshold.as_str());
                out.append("). The LLM's description was too vague to act on.");
                out.append(crop.as_str());
                out.append(
                    " Try a different region or use a structured accessibility-tree element instead of vision.",
                );
                out
            },
        }
    }
}

// ---------------------------------------------------------------------------
// Laws
// ---------------------------------------------------------------------------

/// An action on the page is tried three times at the most, and a second time only
/// after it failed or timed out.
pub proof fn law_actions_are_tried_three_times(attempt: u32, outcome: Attempt)
    requires
        1 <= attempt,
    ensures
        tried_again(attempt, outcome) is Some <==> attempt < 3 && (outcome is Failed || outcome
            is TimedOut),
        attempt == 1 && tried_again(attempt, outcome) is Some ==> tried_again(attempt, outcome)
            == Some(1nat),
        attempt == 2 && tried_again(attempt, outcome) is Some ==> tried_again(attempt, outcome)
            == Some(2nat),
{
    reveal_with_fuel(nav::power_of_two, 3);
}

/// An answer never tells the model that a failed action succeeded: the answer to an
/// action that failed or timed out begins with `ERROR`.
pub proof fn law_failures_are_reported_as_errors(
    n: NavResolution,
    action: RefAction,
    reference: Seq<char>,
    outcome: Attempt,
)
    requires
        outcome is Failed || outcome is TimedOut,
    ensures
        "ERROR"@.is_prefix_of(navigate_text(n, outcome)),
        "ERROR"@.is_prefix_of(ref_action_text(action, reference, outcome)),
        "ERROR"@.is_prefix_of(scroll_text(outcome)),
        "ERROR"@.is_prefix_of(press_key_text(outcome)),
{
    reveal_strlit("ERROR");
    reveal_strlit("ERROR: Action failed (");
    reveal_strlit("ERROR: Action failed (Timeout while ");
    let e = "ERROR"@;
    assert forall|what: Seq<char>, error: Seq<char>| e.is_prefix_of(
        #[trigger] failure_text(what, error),
    ) by {
        assert(failure_text(what, error).subrange(0, 5) =~= e);
    }
    assert forall|doing: Seq<char>, what: Seq<char>| e.is_prefix_of(
        #[trigger] timeout_text(doing, what),
    ) by {
        assert(timeout_text(doing, what).subrange(0, 5) =~= e);
    }
}

/// The answer to a navigation that worked names what was asked for, the address that it
/// led to and the way there; one that failed names the error.
pub proof fn law_navigations_are_told(n: NavResolution, error: String)
    ensures
        text::occurs(navigate_text(n, Attempt::Succeeded), n.original_input@),
        text::occurs(navigate_text(n, Attempt::Succeeded), "\" -> \""@ + n.url@),
        text::occurs(navigate_text(n, Attempt::Succeeded), "\" via "@ + n.path@),
        text::occurs(navigate_text(n, Attempt::Failed { error }), error@),
        text::occurs(resolve_text(n), n.original_input@),
        text::occurs(resolve_text(n), "\" path="@ + n.path@),
        text::occurs(resolve_text(n), " resolved_url="@ + n.url@),
        text::occurs(refused_text(n), n.url@),
        text::occurs(refused_text(n), n.original_input@),
        text::occurs(refused_text(n), n.path@),
{
    broadcast use text::group_occurs;

}

/// A navigation is refused exactly where there is a list of domains, the address has a
/// domain, and the domain is on no line of the list; else it goes to the host of the
/// address.
pub proof fn law_navigation_stays_on_the_list(
    a: Agent,
    n: NavResolution,
    domain: Option<Seq<char>>,
    host: Option<Seq<char>>,
    r: NavStep,
)
    requires
        a.sent(n, domain, host, r),
    ensures
        a.config.agent.allowed_domains is None ==> r is Go,
        domain is None ==> r is Go,
        r matches NavStep::Go { host: found } ==> text::opt_view(found) == host,
        r matches NavStep::Refuse { result } ==> text::occurs(result@, n.url@),
        a.config.agent.allowed_domains is Some && domain is Some ==> (r is Go <==> exists|i: int|
            0 <= i < a.config.agent.allowed_domains->0@.len() && nav::within(
                domain->0,
                (#[trigger] a.config.agent.allowed_domains->0@[i])@,
            )),
{
    broadcast use text::group_occurs;

    if a.config.agent.allowed_domains is Some && domain is Some {
        let list = a.config.agent.allowed_domains->0@;
        let names = text::views(list);
        assert forall|i: int| 0 <= i < list.len() implies #[trigger] names[i] == list[i]@ by {}
        if r is Go {
            let i = choose|i: int| 0 <= i < names.len() && nav::within(domain->0, #[trigger] names[i]);
            assert(names[i] == list[i]@);
        }
        if exists|i: int| 0 <= i < list.len() && nav::within(domain->0, (#[trigger] list[i])@) {
            let i = choose|i: int|
                0 <= i < list.len() && nav::within(domain->0, (#[trigger] list[i])@);
            assert(names[i] == list[i]@);
        }
    }
}

/// The answer to an action that failed names what failed and the error, and an element
/// that is gone is answered with why it could not be reached.
pub proof fn law_failures_name_their_error(
    action: RefAction,
    reference: Seq<char>,
    error: String,
    what: Seq<char>,
    recovery: RefRecoveryOutcome,
)
    ensures
        text::occurs(failure_text(what, error@), what),
        text::occurs(failure_text(what, error@), error@),
        text::occurs(ref_action_text(action, reference, Attempt::Failed { error }), error@),
        text::occurs(scroll_text(Attempt::Failed { error }), error@),
        text::occurs(press_key_text(Attempt::Failed { error }), error@),
        text::occurs(missing_ref_text(reference), "ref_id "@ + reference),
        text::occurs(missing_ref_text(reference), tools::normalized_ref(reference)),
        recovery matches RefRecoveryOutcome::EscalateToLLM { reason, .. } ==> text::occurs(
            stale_text(action, reference, recovery),
            reason@,
        ),
        recovery matches RefRecoveryOutcome::AbortWithReason { reason, .. } ==> text::occurs(
            stale_text(action, reference, recovery),
            reason@,
        ),
        recovery is Retry ==> text::occurs(stale_text(action, reference, recovery), reference),
        text::occurs(unknown_tool_text(reference), reference),
        text::occurs(timeout_text(what, error@), what),
        text::occurs(timeout_text(what, error@), "). The "@ + error@),
        text::occurs(scroll_text(Attempt::TimedOut), "scrolling"@),
        text::occurs(press_key_text(Attempt::TimedOut), "pressing key"@),
        text::occurs(ref_action_text(RefAction::Click, reference, Attempt::TimedOut), "clicking"@),
        text::occurs(ref_action_text(RefAction::Type, reference, Attempt::TimedOut), "typing"@),
{
    broadcast use text::group_occurs;

}

/// An action that worked is answered as one that did, and what the model did is told
/// apart: a click is no typing, and a key is no scroll.
pub proof fn law_successes_are_told_apart(reference: Seq<char>)
    ensures
        text::occurs(
            ref_action_text(RefAction::Click, reference, Attempt::Succeeded),
            "Clicked"@,
        ),
        text::occurs(ref_action_text(RefAction::Type, reference, Attempt::Succeeded), "Typed"@),
        text::occurs(scroll_text(Attempt::Succeeded), "Scrolled"@),
        text::occurs(press_key_text(Attempt::Succeeded), "Key pressed"@),
{
    reveal_strlit("Clicked");
    reveal_strlit("Clicked successfully");
    reveal_strlit("Typed");
    reveal_strlit("Typed successfully");
    reveal_strlit("Scrolled");
    reveal_strlit("Scrolled successfully");
    reveal_strlit("Key pressed");
    reveal_strlit("Key pressed successfully");
    assert("Clicked successfully"@.subrange(0, 7) =~= "Clicked"@);
    assert(text::occurs_at("Clicked successfully"@, "Clicked"@, 0));
    assert("Typed successfully"@.subrange(0, 5) =~= "Typed"@);
    assert(text::occurs_at("Typed successfully"@, "Typed"@, 0));
    assert("Scrolled successfully"@.subrange(0, 8) =~= "Scrolled"@);
    assert(text::occurs_at("Scrolled successfully"@, "Scrolled"@, 0));
    assert("Key pressed successfully"@.subrange(0, 11) =~= "Key pressed"@);
    assert(text::occurs_at("Key pressed successfully"@, "Key pressed"@, 0));
}

/// An element that is gone makes the page be read again, and how often that happened in
/// a row is counted; an action that works starts the count over.
pub proof fn law_lost_elements_are_counted(
    a: Agent,
    action: RefAction,
    reference: Seq<char>,
    attempt: u32,
    outcome: Attempt,
    r: AttemptStep,
    after: Agent,
)
    requires
        1 <= attempt,
        a.acts(action, reference, attempt, outcome, r, after),
    ensures
        outcome is Succeeded ==> after.state.ref_recovery_attempts == 0 && after.log == a.log,
        outcome matches Attempt::Stale { recovery } ==> {
            &&& after.state.force_snapshot
            &&& after.logged().len() == a.logged().len() + 1
            &&& recovery matches RefRecoveryOutcome::Retry { attempts_so_far, .. }
                ==> after.state.ref_recovery_attempts == attempts_so_far
            &&& recovery matches RefRecoveryOutcome::EscalateToLLM { attempts_so_far, .. }
                ==> after.state.ref_recovery_attempts == attempts_so_far
            &&& recovery matches RefRecoveryOutcome::AbortWithReason { attempts_so_far, .. }
                ==> after.state.ref_recovery_attempts == attempts_so_far
        },
        outcome is Failed || outcome is TimedOut ==> after == a,
        r.again_after is Some <==> attempt < 3 && (outcome is Failed || outcome is TimedOut),
        after.history == a.history,
        after.completeness == a.completeness,
{
    law_actions_are_tried_three_times(attempt, outcome);
}

/// The log of a lost element shows the element, the new one where there is one, and the
/// count.
pub proof fn law_lost_elements_are_logged(reference: Seq<char>, recovery: RefRecoveryOutcome)
    ensures
        stale_entry(reference, recovery) matches LogView::Resilience { detail, .. } && text::occurs(
            detail,
            reference,
        ) && text::occurs(detail, text::decimal(recovery.spec_attempts() as nat)),
        recovery matches RefRecoveryOutcome::Retry { new_ref, .. } ==> (stale_entry(
            reference,
            recovery,
        ) matches LogView::Resilience { detail, .. } && text::occurs(
            detail,
            " new="@ + new_ref@,
        )),
{
    broadcast use text::group_occurs;

}

/// The answer to a look at the page carries the signature under which it was recorded,
/// so that the model can name it.
pub proof fn law_snapshots_carry_their_signature(signature: Seq<char>)
    ensures
        signature.is_suffix_of(snapshot_text(Some(signature))),
{
    text::lemma_suffix_occurs(
        "Snapshot taken. Observe the new page state in the next user message. Current snapshot_signature: "@,
        signature,
    );
}

/// What was seen in a region is told whole: what it is, where it lies and how sure that
/// is. What is too vague to act on is told to be so, with a closer region where there is
/// one, and logged.
pub proof fn law_sights_are_told_whole(
    a: Agent,
    reference: Seq<char>,
    sight: Sight,
    r: Seq<char>,
    after: Agent,
)
    requires
        a.sees(reference, sight, r, after),
    ensures
        sight matches Sight::Clear { description, bounds, confidence } ==> {
            &&& text::occurs(r, reference)
            &&& text::occurs(r, ":\nDescription: "@ + description@)
            &&& text::occurs(r, "\nBounds: "@ + bounds.w@)
            &&& text::occurs(r, "x"@ + bounds.h@)
            &&& text::occurs(r, " at "@ + bounds.x@)
            &&& text::occurs(r, ","@ + bounds.y@)
            &&& text::occurs(r, "\nConfidence: "@ + confidence@)
        },
        sight matches Sight::Vague { confidence, threshold, tighter } ==> {
            &&& text::occurs(r, confidence@)
            &&& text::occurs(r, ", threshold "@ + threshold@)
            &&& tighter matches Some(c) ==> text::occurs(r, " Suggested tighter crop: x="@ + c.x@)
                && text::occurs(r, " y="@ + c.y@) && text::occurs(r, " w="@ + c.w@)
                && text::occurs(r, " h="@ + c.h@)
            &&& after.logged().len() == a.logged().len() + 1
        },
        sight matches Sight::ScreenshotFailed { error } ==> text::occurs(r, error@),
        sight matches Sight::CallFailed { error } ==> text::occurs(r, error@),
        sight !is Vague ==> after == a,
{
    broadcast use text::group_occurs;

}

/// The picture of a region is sent whole, behind the question what it shows.
pub proof fn law_pictures_are_sent_whole(picture: Seq<char>) -> (address: Seq<char>)
    ensures
        picture.is_suffix_of(address),
        vision_request(picture) == json::json_with(
            json::with_text("{}"@, "model"@, VISION_MODEL@),
            "messages"@,
            json::array_of(
                seq![
                    json::json_with(
                        json::with_text("{}"@, "role"@, "user"@),
                        "content"@,
                        json::array_of(
                            seq![
                                json::with_text(
                                    json::with_text("{}"@, "type"@, "text"@),
                                    "text"@,
                                    VISION_PROMPT@,
                                ),
                                json::json_with(
                                    json::with_text("{}"@, "type"@, "image_url"@),
                                    "image_url"@,
                                    json::with_text("{}"@, "url"@, address),
                                ),
                            ],
                        ),
                    ),
                ],
            ),
        ),
{
    text::lemma_suffix_occurs("data:image/png;base64,"@, picture);
    "data:image/png;base64,"@ + picture
}

/// A reply is what it describes: the words of the model where there are some, and else
/// what was wrong with it.
pub proof fn law_descriptions_are_told_as_they_are(
    no_json: bool,
    description: Option<Seq<char>>,
    r: Result<String, Sight>,
)
    requires
        tells_description(no_json, description, r),
    ensures
        r is Ok <==> !no_json && description is Some,
        r matches Ok(shown) ==> shown@ == description->0,
        no_json ==> (r matches Err(e) && e is Unreadable),
        !no_json && description is None ==> (r matches Err(e) && e is Undescribed),
{
}

/// A navigation is logged with what was asked for and where it leads, whether it is
/// refused or not, and nothing else changes.
pub proof fn law_navigations_are_logged(
    a: Agent,
    n: NavResolution,
    domain: Option<Seq<char>>,
    host: Option<Seq<char>>,
    now: u64,
    r: NavStep,
    after: Agent,
)
    requires
        a.sets_out(n, domain, host, now, r, after),
    ensures
        after.logged().len() == a.logged().len() + 1,
        after.logged().last() matches LogView::Line(line) && text::occurs(line, n.url@)
            && text::occurs(line, n.original_input@) && text::occurs(line, n.path@),
        after.history == a.history,
        after.state == a.state,
        a.config.agent.allowed_domains is None ==> r is Go,
{
    broadcast use text::group_occurs;

}

/// A wait before a host that challenges visitors is logged with the host and its length.
pub proof fn law_waits_for_challengers_are_logged(host: Seq<char>, delay_ms: u64)
    ensures
        Agent::challenger_entry(host, delay_ms) matches LogView::Resilience { detail, .. }
            && text::occurs(detail, "host="@ + host) && text::occurs(
            detail,
            " delay_ms="@ + text::decimal(delay_ms as nat),
        ),
{
    broadcast use text::group_occurs;

}

/// A crash is forced by an address that asks for one, wherever it does, and by no other.
pub proof fn law_crashes_are_forced_by_their_address(
    before: Seq<char>,
    after: Seq<char>,
    url: Seq<char>,
)
    ensures
        crash_text(before + "force-crash"@ + after) is Some,
        crash_text(url) is Some ==> text::occurs(url, "force-crash"@),
{
    broadcast use text::group_occurs;

}

} // verus!
