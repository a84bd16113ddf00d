//! The scenarios that the evaluation replays.
//!
//! A scenario is plain data: the task, what page inspection finds on the page that
//! it leads to, the result that the browser agent would hand back, and the
//! interruptions that have to be noticed.

use vstd::prelude::*;
use crate::chat_agent;
use crate::handoff::{BrowserResult, BrowserStatus, Handoff, HandoffSubTask, KeyFinding};
use crate::planner;
use crate::planner::Plan;
use crate::text;

verus! {

/// The ways in which a page can interrupt a task.
#[derive(Debug, Clone, Copy, PartialEq, Eq, Hash, Structural)]
pub enum FailureMode {
    RefDrift,
    ModalInterruption,
    SessionLoss,
    RateLimit,
    IrreversibleAction,
    VisionAmbiguity,
    CaptchaChallenge,
}

impl FailureMode {
    pub open spec fn spec_name(self) -> Seq<char> {
        match self {
            FailureMode::RefDrift => "ref_drift"@,
            FailureMode::ModalInterruption => "modal_interruption"@,
            FailureMode::SessionLoss => "session_loss"@,
            FailureMode::RateLimit => "rate_limit"@,
            FailureMode::IrreversibleAction => "irreversible_action"@,
            FailureMode::VisionAmbiguity => "vision_ambiguity"@,
            FailureMode::CaptchaChallenge => "captcha_challenge"@,
        }
    }

    pub fn as_str(&self) -> (r: &'static str)
        ensures
            r@ == self.spec_name(),
    {
        match self {
            FailureMode::RefDrift => "ref_drift",
            FailureMode::ModalInterruption => "modal_interruption",
            FailureMode::SessionLoss => "session_loss",
            FailureMode::RateLimit => "rate_limit",
            FailureMode::IrreversibleAction => "irreversible_action",
            FailureMode::VisionAmbiguity => "vision_ambiguity",
            FailureMode::CaptchaChallenge => "captcha_challenge",
        }
    }
}

/// What page inspection finds on a page.
#[derive(Debug, Clone, Copy, PartialEq, Eq, Structural)]
pub struct PageSignals {
    pub modal: bool,
    pub rate_limit: bool,
    pub session_loss: bool,
    pub captcha: bool,
}

impl PageSignals {
    /// A page without interruptions.
    pub fn clean() -> (r: Self)
        ensures
            r == (PageSignals {
                modal: false,
                rate_limit: false,
                session_loss: false,
                captcha: false,
            }),
    {
        PageSignals { modal: false, rate_limit: false, session_loss: false, captcha: false }
    }

    /// The interruptions on the page, in the order in which they are looked for.
    pub open spec fn modes(self) -> Seq<FailureMode> {
        let a = if self.modal {
            seq![FailureMode::ModalInterruption]
        } else {
            Seq::empty()
        };
        let b = if self.rate_limit {
            a.push(FailureMode::RateLimit)
        } else {
            a
        };
        let c = if self.session_loss {
            b.push(FailureMode::SessionLoss)
        } else {
            b
        };
        if self.captcha {
            c.push(FailureMode::CaptchaChallenge)
        } else {
            c
        }
    }
}

/// The names of a list of interruptions.
pub open spec fn mode_names(s: Seq<FailureMode>) -> Seq<Seq<char>> {
    s.map_values(|m: FailureMode| m.spec_name())
}

/// One scenario.
#[derive(Debug)]
pub struct Scenario {
    pub id: &'static str,
    pub description: &'static str,
    pub task: &'static str,
    pub expected_subtask_count: usize,
    /// What is found on the page that the task leads to.
    pub page_state: PageSignals,
    /// What the browser agent hands back.
    pub expected_result: BrowserResult,
    /// The interruptions that have to be noticed.
    pub known_failure_modes: Vec<FailureMode>,
}

/// What came of a scenario.
#[derive(Debug)]
pub struct ScenarioOutcome {
    pub scenario_id: String,
    pub passed: bool,
    pub status: BrowserStatus,
    pub subtask_count: usize,
    pub step_count: u32,
    pub failure_modes_hit: Vec<String>,
    pub failure_reason: String,
    pub summary: String,
    pub chat_reply: String,
}

fn push_mode(out: &mut Vec<String>, mode: FailureMode)
    ensures
        text::views(final(out)@) == text::views(old(out)@).push(mode.spec_name()),
{
    let ghost before = out@;
    out.push(text::owned(mode.as_str()));
    assert(text::views(out@) == text::views(before).push(mode.spec_name()));
}

impl Scenario {
    pub fn new(
        id: &'static str,
        description: &'static str,
        task: &'static str,
        expected_subtask_count: usize,
        page_state: PageSignals,
        expected_result: BrowserResult,
        known_failure_modes: Vec<FailureMode>,
    ) -> (r: Self)
        ensures
            r.id@ == id@,
            r.description@ == description@,
            r.task@ == task@,
            r.expected_subtask_count == expected_subtask_count,
            r.page_state == page_state,
            r.expected_result == expected_result,
            r.known_failure_modes == known_failure_modes,
    {
        Scenario {
            id,
            description,
            task,
            expected_subtask_count,
            page_state,
            expected_result,
            known_failure_modes,
        }
    }

    /// The handoff of the task.
    pub fn build_handoff(&self, originating_message_id: &str) -> (r: Handoff)
        ensures
            r.task_description@ == self.task@,
            chat_agent::planned_subtasks(r.subtasks@, self.task@),
            r.constraints@.len() == 0,
            r.originating_message_id@ == originating_message_id@,
            r.research_plan is None,
    {
        let p = planner::plan(self.task);
        let mut subtasks: Vec<HandoffSubTask> = Vec::new();
        let mut i: usize = 0;
        while i < p.subtasks.len()
            invariant
                planner::items_for(p.subtasks@, planner::planned(self.task@)),
                i <= p.subtasks@.len(),
                subtasks@.len() == i,
                forall|j: int|
                    0 <= j < i ==> {
                        &&& (#[trigger] subtasks@[j]).description@ == planner::planned(
                            self.task@,
                        )[j]
                        &&& subtasks@[j].id@ == planner::slug(
                            planner::planned(self.task@)[j],
                            j as nat,
                        )
                    },
            decreases p.subtasks@.len() - i,
        {
            subtasks.push(
                HandoffSubTask {
                    id: p.subtasks[i].id.clone(),
                    description: p.subtasks[i].description.clone(),
                },
            );
            i += 1;
        }
        Handoff {
            task_description: text::owned(self.task),
            subtasks,
            constraints: Vec::new(),
            originating_message_id: text::owned(originating_message_id),
            research_plan: None,
        }
    }

    /// The names of the interruptions that are found on the page.
    pub fn detected_failure_modes(&self) -> (r: Vec<String>)
        ensures
            text::views(r@) == mode_names(self.page_state.modes()),
    {
        let mut out: Vec<String> = Vec::new();
        if self.page_state.modal {
            push_mode(&mut out, FailureMode::ModalInterruption);
        }
        if self.page_state.rate_limit {
            push_mode(&mut out, FailureMode::RateLimit);
        }
        if self.page_state.session_loss {
            push_mode(&mut out, FailureMode::SessionLoss);
        }
        if self.page_state.captcha {
            push_mode(&mut out, FailureMode::CaptchaChallenge);
        }
        assert(text::views(out@) =~= mode_names(self.page_state.modes()));
        out
    }

    /// Whether every interruption that has to be noticed is found.
    pub open spec fn known_are_detected(self) -> bool {
        forall|i: int|
            0 <= i < self.known_failure_modes@.len() ==> self.page_state.modes().contains(
                #[trigger] self.known_failure_modes@[i],
            )
    }
}

/// Plans the task of a scenario, which has to come apart into the expected number
/// of subtasks.
pub fn assert_plan_subtask_count(scenario: &Scenario) -> (r: Plan)
    requires
        planner::planned(scenario.task@).len() == scenario.expected_subtask_count,
    ensures
        planner::items_for(r.subtasks@, planner::planned(scenario.task@)),
        r.subtasks@.len() == scenario.expected_subtask_count,
        r.rationale@ == planner::rationale_text(scenario.task@),
        !r.escalated,
{
    planner::plan(scenario.task)
}

// ---------------------------------------------------------------------------
// The scenarios
// ---------------------------------------------------------------------------

/// A finding of a subtask that is done.
fn done_finding(id: &str, description: &str) -> (r: KeyFinding)
    ensures
        r.id@ == id@,
        r.description@ == description@,
        r.status@ == "done"@,
        r.reason@.len() == 0,
        r.evidence_signature is None,
{
    KeyFinding {
        id: text::owned(id),
        description: text::owned(description),
        status: text::owned("done"),
        reason: String::new(),
        evidence_signature: None,
    }
}

/// Whether the findings are those of the given subtasks, all of them done.
pub open spec fn all_done(s: Seq<KeyFinding>, items: Seq<(Seq<char>, Seq<char>)>) -> bool {
    &&& s.len() == items.len()
    &&& forall|i: int|
        0 <= i < s.len() ==> {
            &&& (#[trigger] s[i]).id@ == items[i].0
            &&& s[i].description@ == items[i].1
            &&& s[i].status@ == "done"@
            &&& s[i].reason@.len() == 0
            &&& s[i].evidence_signature is None
        }
}

/// A scenario by its id, its description, its task, the number of its subtasks, the page that it
/// leads to, and the interruptions that have to be noticed.
pub open spec fn is_scenario(
    s: Scenario,
    id: Seq<char>,
    description: Seq<char>,
    task: Seq<char>,
    count: nat,
    page: PageSignals,
    known: Seq<FailureMode>,
) -> bool {
    &&& s.id@ == id
    &&& s.description@ == description
    &&& s.task@ == task
    &&& s.expected_subtask_count == count
    &&& s.page_state == page
    &&& s.known_failure_modes@ == known
}

/// A scenario that ends well, with the given summary, subtasks, page signature
/// and transcript.
pub open spec fn ends_done(
    s: Scenario,
    session: Seq<char>,
    summary: Seq<char>,
    items: Seq<(Seq<char>, Seq<char>)>,
    signature: Option<Seq<char>>,
    transcript: Option<Seq<char>>,
) -> bool {
    &&& s.expected_result.status == BrowserStatus::Done
    &&& s.expected_result.session_id@ == session
    &&& s.expected_result.summary@ == summary
    &&& s.expected_result.failure_reason@.len() == 0
    &&& all_done(s.expected_result.key_findings@, items)
    &&& s.expected_result.findings@.len() == 0
    &&& text::opt_view(s.expected_result.final_snapshot_signature) == signature
    &&& text::opt_view(s.expected_result.raw_transcript_ref) == transcript
}

/// A scenario that fails for the given reason, with the given transcript.
pub open spec fn ends_failed(
    s: Scenario,
    session: Seq<char>,
    reason: Seq<char>,
    transcript: Option<Seq<char>>,
) -> bool {
    &&& s.expected_result.status == BrowserStatus::Failed
    &&& s.expected_result.session_id@ == session
    &&& s.expected_result.summary@.len() == 0
    &&& s.expected_result.failure_reason@ == reason
    &&& s.expected_result.key_findings@.len() == 0
    &&& s.expected_result.findings@.len() == 0
    &&& s.expected_result.final_snapshot_signature is None
    &&& text::opt_view(s.expected_result.raw_transcript_ref) == transcript
}

pub open spec fn clean_page() -> PageSignals {
    PageSignals { modal: false, rate_limit: false, session_loss: false, captcha: false }
}

pub open spec fn modal_page() -> PageSignals {
    PageSignals { modal: true, rate_limit: false, session_loss: false, captcha: false }
}

pub open spec fn login_page() -> PageSignals {
    PageSignals { modal: true, rate_limit: false, session_loss: true, captcha: false }
}

pub open spec fn throttled_page() -> PageSignals {
    PageSignals { modal: false, rate_limit: true, session_loss: false, captcha: false }
}

pub open spec fn challenge_page() -> PageSignals {
    PageSignals { modal: false, rate_limit: false, session_loss: false, captcha: true }
}

pub open spec fn is_instagram_text_friend(s: Scenario) -> bool {
    &&& is_scenario(
        s,
        "instagram_text_friend"@,
        "Plain 'go to instagram and text my friend' phrasing — Phase 2 regression case."@,
        "go to instagram and text my friend hi"@,
        2,
        clean_page(),
        Seq::empty(),
    )
    &&& ends_done(
        s,
        "session_instagram_text"@,
        "Opened instagram and sent the message to your friend."@,
        seq![
            ("step-1"@, "Open instagram.com"@),
            ("step-2"@, "Send the message"@),
        ],
        Some("len:abcd1234"@),
        Some("/tmp/transcript_instagram_text.log"@),
    )
}

fn instagram_text_friend() -> (r: Scenario)
    ensures
        is_instagram_text_friend(r),
{
    let mut findings: Vec<KeyFinding> = Vec::new();
    findings.push(done_finding("step-1", "Open instagram.com"));
    findings.push(done_finding("step-2", "Send the message"));
    let expected = BrowserResult::done(
        "session_instagram_text",
        "Opened instagram and sent the message to your friend.",
        findings,
        Some(text::owned("len:abcd1234")),
        Some(text::owned("/tmp/transcript_instagram_text.log")),
    );
    Scenario::new(
        "instagram_text_friend",
        "Plain 'go to instagram and text my friend' phrasing — Phase 2 regression case.",
        "go to instagram and text my friend hi",
        2,
        PageSignals::clean(),
        expected,
        Vec::new(),
    )
}

pub open spec fn is_google_then_instagram_text(s: Scenario) -> bool {
    &&& is_scenario(
        s,
        "google_then_instagram_text"@,
        "Compound phrasing with explicit via-search path — Phase 2 working case."@,
        "go to google, search instagram, then text my friend hi"@,
        3,
        clean_page(),
        Seq::empty(),
    )
    &&& ends_done(
        s,
        "session_google_then_instagram"@,
        "Searched for instagram on Google, opened it, and sent the message."@,
        seq![
            ("step-1"@, "Go to google.com"@),
            ("step-2"@, "Search for instagram on google"@),
            ("step-3"@, "text my friend hi"@),
        ],
        Some("len:deadbeef"@),
        Some("/tmp/transcript_google_instagram.log"@),
    )
}

fn google_then_instagram_text() -> (r: Scenario)
    ensures
        is_google_then_instagram_text(r),
{
    let mut findings: Vec<KeyFinding> = Vec::new();
    findings.push(done_finding("step-1", "Go to google.com"));
    findings.push(done_finding("step-2", "Search for instagram on google"));
    findings.push(done_finding("step-3", "text my friend hi"));
    let expected = BrowserResult::done(
        "session_google_then_instagram",
        "Searched for instagram on Google, opened it, and sent the message.",
        findings,
        Some(text::owned("len:deadbeef")),
        Some(text::owned("/tmp/transcript_google_instagram.log")),
    );
    Scenario::new(
        "google_then_instagram_text",
        "Compound phrasing with explicit via-search path — Phase 2 working case.",
        "go to google, search instagram, then text my friend hi",
        3,
        PageSignals::clean(),
        expected,
        Vec::new(),
    )
}

pub open spec fn is_cookie_banner_arrival(s: Scenario) -> bool {
    &&& is_scenario(
        s,
        "cookie_banner_arrival"@,
        "Cookie consent dialog appears on landing. Asserts modal detector trips."@,
        "open the homepage and dismiss the cookie banner"@,
        2,
        modal_page(),
        seq![FailureMode::ModalInterruption],
    )
    &&& ends_done(
        s,
        "session_cookie"@,
        "Dismissed the cookie banner and continued."@,
        seq![
            ("step-1"@, "Dismiss cookie banner"@),
        ],
        Some("len:cookie"@),
        Some("/tmp/transcript_cookie.log"@),
    )
}

fn cookie_banner_arrival() -> (r: Scenario)
    ensures
        is_cookie_banner_arrival(r),
{
    let mut findings: Vec<KeyFinding> = Vec::new();
    findings.push(done_finding("step-1", "Dismiss cookie banner"));
    let expected = BrowserResult::done(
        "session_cookie",
        "Dismissed the cookie banner and continued.",
        findings,
        Some(text::owned("len:cookie")),
        Some(text::owned("/tmp/transcript_cookie.log")),
    );
    let mut known: Vec<FailureMode> = Vec::new();
    known.push(FailureMode::ModalInterruption);
    assert(known@ == seq![FailureMode::ModalInterruption]);
    Scenario::new(
        "cookie_banner_arrival",
        "Cookie consent dialog appears on landing. Asserts modal detector trips.",
        "open the homepage and dismiss the cookie banner",
        2,
        PageSignals { modal: true, rate_limit: false, session_loss: false, captcha: false },
        expected,
        known,
    )
}

pub open spec fn is_login_wall_arrival(s: Scenario) -> bool {
    &&& is_scenario(
        s,
        "login_wall_arrival"@,
        "Login wall on landing. Asserts modal detector trips with the login kind."@,
        "open the dashboard and sign in"@,
        2,
        login_page(),
        seq![FailureMode::ModalInterruption],
    )
    &&& ends_done(
        s,
        "session_login"@,
        "Signed in and continued."@,
        seq![
            ("step-1"@, "Sign in"@),
        ],
        Some("len:login"@),
        Some("/tmp/transcript_login.log"@),
    )
}

fn login_wall_arrival() -> (r: Scenario)
    ensures
        is_login_wall_arrival(r),
{
    let mut findings: Vec<KeyFinding> = Vec::new();
    findings.push(done_finding("step-1", "Sign in"));
    let expected = BrowserResult::done(
        "session_login",
        "Signed in and continued.",
        findings,
        Some(text::owned("len:login")),
        Some(text::owned("/tmp/transcript_login.log")),
    );
    let mut known: Vec<FailureMode> = Vec::new();
    known.push(FailureMode::ModalInterruption);
    assert(known@ == seq![FailureMode::ModalInterruption]);
    Scenario::new(
        "login_wall_arrival",
        "Login wall on landing. Asserts modal detector trips with the login kind.",
        "open the dashboard and sign in",
        2,
        PageSignals { modal: true, rate_limit: false, session_loss: true, captcha: false },
        expected,
        known,
    )
}

pub open spec fn is_rate_limit_429(s: Scenario) -> bool {
    &&& is_scenario(
        s,
        "rate_limit_429"@,
        "Server returns a 429 page. Asserts rate-limit detector trips and round trip is Failed."@,
        "scrape the listings page"@,
        1,
        throttled_page(),
        seq![FailureMode::RateLimit],
    )
    &&& ends_failed(
        s,
        "session_429"@,
        "rate-limit signal: HTTP 429 page (back off and retry)"@,
        Some("/tmp/transcript_429.log"@),
    )
}

fn rate_limit_429() -> (r: Scenario)
    ensures
        is_rate_limit_429(r),
{
    let expected = BrowserResult::failure(
        "session_429",
        "rate-limit signal: HTTP 429 page (back off and retry)",
        Some(text::owned("/tmp/transcript_429.log")),
    );
    let mut known: Vec<FailureMode> = Vec::new();
    known.push(FailureMode::RateLimit);
    assert(known@ == seq![FailureMode::RateLimit]);
    Scenario::new(
        "rate_limit_429",
        "Server returns a 429 page. Asserts rate-limit detector trips and round trip is Failed.",
        "scrape the listings page",
        1,
        PageSignals { modal: false, rate_limit: true, session_loss: false, captcha: false },
        expected,
        known,
    )
}

pub open spec fn is_session_loss_after_dashboard(s: Scenario) -> bool {
    &&& is_scenario(
        s,
        "session_loss_after_dashboard"@,
        "Was on a dashboard; page now shows a login form. Asserts session-loss detector trips."@,
        "continue with the dashboard task"@,
        1,
        login_page(),
        seq![FailureMode::SessionLoss, FailureMode::ModalInterruption],
    )
    &&& ends_failed(
        s,
        "session_session_loss"@,
        "session loss detected: dashboard replaced by login form"@,
        Some("/tmp/transcript_session_loss.log"@),
    )
}

fn session_loss_after_dashboard() -> (r: Scenario)
    ensures
        is_session_loss_after_dashboard(r),
{
    let expected = BrowserResult::failure(
        "session_session_loss",
        "session loss detected: dashboard replaced by login form",
        Some(text::owned("/tmp/transcript_session_loss.log")),
    );
    let mut known: Vec<FailureMode> = Vec::new();
    known.push(FailureMode::SessionLoss);
    known.push(FailureMode::ModalInterruption);
    assert(known@ == seq![FailureMode::SessionLoss, FailureMode::ModalInterruption]);
    Scenario::new(
        "session_loss_after_dashboard",
        "Was on a dashboard; page now shows a login form. Asserts session-loss detector trips.",
        "continue with the dashboard task",
        1,
        PageSignals { modal: true, rate_limit: false, session_loss: true, captcha: false },
        expected,
        known,
    )
}

pub open spec fn is_captcha_turnstile(s: Scenario) -> bool {
    &&& is_scenario(
        s,
        "captcha_turnstile"@,
        "Cloudflare Turnstile interstitial. Asserts captcha detector trips and round trip is Failed."@,
        "open instagram and view the profile"@,
        2,
        challenge_page(),
        seq![FailureMode::CaptchaChallenge],
    )
    &&& ends_failed(
        s,
        "session_captcha"@,
        "challenge detected: Cloudflare Turnstile — paused for human handoff"@,
        Some("/tmp/transcript_captcha.log"@),
    )
}

fn captcha_turnstile() -> (r: Scenario)
    ensures
        is_captcha_turnstile(r),
{
    let expected = BrowserResult::failure(
        "session_captcha",
        "challenge detected: Cloudflare Turnstile — paused for human handoff",
        Some(text::owned("/tmp/transcript_captcha.log")),
    );
    let mut known: Vec<FailureMode> = Vec::new();
    known.push(FailureMode::CaptchaChallenge);
    assert(known@ == seq![FailureMode::CaptchaChallenge]);
    Scenario::new(
        "captcha_turnstile",
        "Cloudflare Turnstile interstitial. Asserts captcha detector trips and round trip is Failed.",
        "open instagram and view the profile",
        2,
        PageSignals { modal: false, rate_limit: false, session_loss: false, captcha: true },
        expected,
        known,
    )
}

pub open spec fn is_multi_modal_arrival(s: Scenario) -> bool {
    &&& is_scenario(
        s,
        "multi_modal_arrival"@,
        "Two overlays on the same page. Asserts runner doesn't crash on multi-finding and reply is non-empty."@,
        "open the homepage and dismiss both popups"@,
        2,
        modal_page(),
        seq![FailureMode::ModalInterruption],
    )
    &&& ends_done(
        s,
        "session_multi_modal"@,
        "Dismissed the cookie banner and the newsletter popup."@,
        seq![
            ("step-1"@, "Dismiss both modals"@),
        ],
        Some("len:multi"@),
        Some("/tmp/transcript_multi_modal.log"@),
    )
}

fn multi_modal_arrival() -> (r: Scenario)
    ensures
        is_multi_modal_arrival(r),
{
    let mut findings: Vec<KeyFinding> = Vec::new();
    findings.push(done_finding("step-1", "Dismiss both modals"));
    let expected = BrowserResult::done(
        "session_multi_modal",
        "Dismissed the cookie banner and the newsletter popup.",
        findings,
        Some(text::owned("len:multi")),
        Some(text::owned("/tmp/transcript_multi_modal.log")),
    );
    let mut known: Vec<FailureMode> = Vec::new();
    known.push(FailureMode::ModalInterruption);
    assert(known@ == seq![FailureMode::ModalInterruption]);
    Scenario::new(
        "multi_modal_arrival",
        "Two overlays on the same page. Asserts runner doesn't crash on multi-finding and reply is non-empty.",
        "open the homepage and dismiss both popups",
        2,
        PageSignals { modal: true, rate_limit: false, session_loss: false, captcha: false },
        expected,
        known,
    )
}

pub open spec fn is_clean_dashboard(s: Scenario) -> bool {
    &&& is_scenario(
        s,
        "clean_dashboard"@,
        "Negative case: a clean dashboard. No failure modes should fire."@,
        "open the dashboard"@,
        1,
        clean_page(),
        Seq::empty(),
    )
    &&& ends_done(
        s,
        "session_dashboard"@,
        "Dashboard opened. Welcome back, Alice."@,
        Seq::empty(),
        Some("len:dash"@),
        Some("/tmp/transcript_dashboard.log"@),
    )
}

fn clean_dashboard() -> (r: Scenario)
    ensures
        is_clean_dashboard(r),
{
    let expected = BrowserResult::done(
        "session_dashboard",
        "Dashboard opened. Welcome back, Alice.",
        Vec::new(),
        Some(text::owned("len:dash")),
        Some(text::owned("/tmp/transcript_dashboard.log")),
    );
    Scenario::new(
        "clean_dashboard",
        "Negative case: a clean dashboard. No failure modes should fire.",
        "open the dashboard",
        1,
        PageSignals::clean(),
        expected,
        Vec::new(),
    )
}

pub open spec fn is_ref_drift_arrival(s: Scenario) -> bool {
    &&& is_scenario(
        s,
        "ref_drift_arrival"@,
        "Clean page used to exercise the runner with a non-finding path."@,
        "open the homepage"@,
        1,
        clean_page(),
        Seq::empty(),
    )
    &&& ends_done(
        s,
        "session_ref_drift"@,
        "Continued past the stale ref."@,
        Seq::empty(),
        Some("len:drift"@),
        Some("/tmp/transcript_ref_drift.log"@),
    )
}

fn ref_drift_arrival() -> (r: Scenario)
    ensures
        is_ref_drift_arrival(r),
{
    let expected = BrowserResult::done(
        "session_ref_drift",
        "Continued past the stale ref.",
        Vec::new(),
        Some(text::owned("len:drift")),
        Some(text::owned("/tmp/transcript_ref_drift.log")),
    );
    Scenario::new(
        "ref_drift_arrival",
        "Clean page used to exercise the runner with a non-finding path.",
        "open the homepage",
        1,
        PageSignals::clean(),
        expected,
        Vec::new(),
    )
}

/// The ids of the scenarios, in order.
pub open spec fn suite_ids() -> Seq<Seq<char>> {
    seq![
        "instagram_text_friend"@,
        "google_then_instagram_text"@,
        "cookie_banner_arrival"@,
        "login_wall_arrival"@,
        "rate_limit_429"@,
        "session_loss_after_dashboard"@,
        "captcha_turnstile"@,
        "multi_modal_arrival"@,
        "clean_dashboard"@,
        "ref_drift_arrival"@,
    ]
}

/// Whether a scenario is one of the regression suite.
pub open spec fn in_suite(s: Scenario) -> bool {
    ||| is_instagram_text_friend(s)
    ||| is_google_then_instagram_text(s)
    ||| is_cookie_banner_arrival(s)
    ||| is_login_wall_arrival(s)
    ||| is_rate_limit_429(s)
    ||| is_session_loss_after_dashboard(s)
    ||| is_captcha_turnstile(s)
    ||| is_multi_modal_arrival(s)
    ||| is_clean_dashboard(s)
    ||| is_ref_drift_arrival(s)
}

/// The scenarios of the regression suite.
pub fn default_scenarios() -> (r: Vec<Scenario>)
    ensures
        r@.len() == suite_ids().len(),
        forall|i: int| 0 <= i < r@.len() ==> (#[trigger] r@[i]).id@ == suite_ids()[i],
        forall|i: int|
            0 <= i < r@.len() ==> (#[trigger] r@[i]).known_are_detected() && in_suite(r@[i]),
        is_instagram_text_friend(r@[0]),
        is_google_then_instagram_text(r@[1]),
        is_cookie_banner_arrival(r@[2]),
        is_login_wall_arrival(r@[3]),
        is_rate_limit_429(r@[4]),
        is_session_loss_after_dashboard(r@[5]),
        is_captcha_turnstile(r@[6]),
        is_multi_modal_arrival(r@[7]),
        is_clean_dashboard(r@[8]),
        is_ref_drift_arrival(r@[9]),
{
    let mut out: Vec<Scenario> = Vec::new();
    out.push(instagram_text_friend());
    out.push(google_then_instagram_text());
    out.push(cookie_banner_arrival());
    out.push(login_wall_arrival());
    out.push(rate_limit_429());
    out.push(session_loss_after_dashboard());
    out.push(captcha_turnstile());
    out.push(multi_modal_arrival());
    out.push(clean_dashboard());
    out.push(ref_drift_arrival());
    proof {
        assert(modal_page().modes()[0] == FailureMode::ModalInterruption);
        assert(login_page().modes()[0] == FailureMode::ModalInterruption);
        assert(login_page().modes()[1] == FailureMode::SessionLoss);
        assert(throttled_page().modes()[0] == FailureMode::RateLimit);
        assert(challenge_page().modes()[0] == FailureMode::CaptchaChallenge);
        assert(out@[2].known_are_detected());
        assert(out@[3].known_are_detected());
        assert(out@[4].known_are_detected());
        assert(out@[5].known_are_detected());
        assert(out@[6].known_are_detected());
        assert(out@[7].known_are_detected());
    }
    out
}

// ---------------------------------------------------------------------------
// Laws
// ---------------------------------------------------------------------------

/// Each signal of a page is detected as its mode, and nothing else is.
pub proof fn law_signals_are_detected_as_their_mode(p: PageSignals)
    ensures
        p.modes().contains(FailureMode::ModalInterruption) <==> p.modal,
        p.modes().contains(FailureMode::RateLimit) <==> p.rate_limit,
        p.modes().contains(FailureMode::SessionLoss) <==> p.session_loss,
        p.modes().contains(FailureMode::CaptchaChallenge) <==> p.captcha,
        !p.modes().contains(FailureMode::RefDrift),
        !p.modes().contains(FailureMode::IrreversibleAction),
        !p.modes().contains(FailureMode::VisionAmbiguity),
        p.modes().no_duplicates(),
{
    let m = p.modes();
    let a: int = if p.modal {
        1
    } else {
        0
    };
    let b: int = a + if p.rate_limit {
        1int
    } else {
        0int
    };
    let c: int = b + if p.session_loss {
        1int
    } else {
        0int
    };
    if p.modal {
        assert(m[0] == FailureMode::ModalInterruption);
    }
    if p.rate_limit {
        assert(m[a] == FailureMode::RateLimit);
    }
    if p.session_loss {
        assert(m[b] == FailureMode::SessionLoss);
    }
    if p.captcha {
        assert(m[c] == FailureMode::CaptchaChallenge);
    }
}

/// The failure modes have names of their own.
pub proof fn law_failure_modes_have_names_of_their_own(a: FailureMode, b: FailureMode)
    ensures
        a.spec_name() == b.spec_name() <==> a == b,
        FailureMode::RefDrift.spec_name() == "ref_drift"@,
        FailureMode::ModalInterruption.spec_name() == "modal_interruption"@,
        FailureMode::SessionLoss.spec_name() == "session_loss"@,
        FailureMode::RateLimit.spec_name() == "rate_limit"@,
        FailureMode::IrreversibleAction.spec_name() == "irreversible_action"@,
        FailureMode::VisionAmbiguity.spec_name() == "vision_ambiguity"@,
        FailureMode::CaptchaChallenge.spec_name() == "captcha_challenge"@,
{
    reveal_strlit("ref_drift");
    reveal_strlit("modal_interruption");
    reveal_strlit("session_loss");
    reveal_strlit("rate_limit");
    reveal_strlit("irreversible_action");
    reveal_strlit("vision_ambiguity");
    reveal_strlit("captcha_challenge");
    let x = a.spec_name();
    let y = b.spec_name();
    if x == y {
        assert(x.len() == y.len());
        assert(x[0] == y[0]);
    }
}

} // verus!
