//! Scenarios of a worker that reports a todo as done: with the right evidence,
//! with a made-up signature, and with evidence that was used before.

use vstd::prelude::*;
use vstd::string::*;
use crate::eval::assertions::{assert_todo_done, assert_todo_rejected, AssertionResult};
use crate::text;
use crate::todo;
use crate::todo::{planner_signature, MarkTodoOutcome, Todo, TodoId, TodoStatus};

verus! {

/// The scenarios.
#[derive(Debug, Clone, Copy, PartialEq, Eq, Structural)]
pub enum ShortcutCase {
    AcceptOnMatch,
    RejectOnMismatch,
    RetryOnStaleEvidence,
}

#[derive(Debug, Clone, Copy)]
pub struct PlannerWorkerScenario {
    pub id: &'static str,
    pub description: &'static str,
    pub case: ShortcutCase,
}

/// The made-up signature.
pub open spec fn fake_signature() -> Seq<char> {
    "len:00000000"@
}

/// The page behind the made-up signature.
pub open spec fn real_page() -> Seq<char> {
    "<html><body>Real Instagram Content</body></html>"@
}

/// Whether a text tells that the made-up signature was accepted.
pub open spec fn tells_acceptance(e: Seq<char>) -> bool {
    exists|v: todo::Evidence|
        {
            &&& v.worker_signature@ == fake_signature()
            &&& v.planner_signature@ == fake_signature()
            &&& v.iteration == 1
            &&& v.verified_at_secs == 1700000000
            &&& e == "expected StaleEvidence on 1st attempt, got "@ + #[trigger] (
            MarkTodoOutcome::MarkedDone { evidence: v }).spec_debug()
        }
}

impl PlannerWorkerScenario {
    pub fn new(id: &'static str, description: &'static str, case: ShortcutCase) -> (r: Self)
        ensures
            r.id@ == id@,
            r.description@ == description@,
            r.case == case,
    {
        PlannerWorkerScenario { id, description, case }
    }

    /// Plays the scenario. It holds wherever the page does not happen to have the
    /// made-up signature.
    pub fn run(&self) -> (r: AssertionResult)
        ensures
            self.case != ShortcutCase::RejectOnMismatch ==> r is Ok,
            self.case == ShortcutCase::RejectOnMismatch ==> (r is Ok <==> todo::signature_text(
                real_page(),
            ) != fake_signature()),
            r matches Err(e) ==> tells_acceptance(e@),
    {
        match self.case {
            ShortcutCase::AcceptOnMatch => accept_on_match(),
            ShortcutCase::RejectOnMismatch => reject_on_mismatch(),
            ShortcutCase::RetryOnStaleEvidence => retry_on_stale_evidence(),
        }
    }
}

/// A page of ASCII characters, short of the edge, can be signed.
proof fn lemma_short_page_signable(page: &str)
    requires
        vstd::string::is_ascii(page),
        page@.len() <= todo::EDGE,
    ensures
        todo::signable(page@),
{
    vstd::string::is_ascii_spec_bytes(page);
}

/// The signature is that of the page: the todo is done at the first attempt.
pub fn accept_on_match() -> (r: AssertionResult)
    ensures
        r is Ok,
{
    let mut todo = Todo::new(
        TodoId::from_slug("navigate-instagram", 0),
        "navigate instagram",
        None,
    );
    let obs_text =
        "<html><head><title>Instagram</title></head><body><div role=\"main\">Instagram feed</div></body></html>";
    proof {
        reveal_strlit(
            "<html><head><title>Instagram</title></head><body><div role=\"main\">Instagram feed</div></body></html>",
        );
        lemma_short_page_signable(obs_text);
        reveal_strlit("len:");
    }
    let worker_sig = planner_signature(obs_text);
    let now: u64 = 1700000000;
    let outcome = todo.mark_done(worker_sig.as_str(), obs_text, 1, now, 3);
    match outcome {
        MarkTodoOutcome::MarkedDone { evidence } => {
            if todo.attempts != 1 {
                let mut out = text::owned("expected attempts == 1, got ");
                out.append(text::decimal_of(todo.attempts as u64).as_str());
                return Err(out);
            }
            assert_todo_done(&todo, Some(&evidence))
        },
        other => {
            let mut out = text::owned("expected MarkedDone, got ");
            out.append(other.debug_text().as_str());
            Err(out)
        },
    }
}

/// The signature is made up: the report is turned down, and the second time the
/// todo fails.
pub fn reject_on_mismatch() -> (r: AssertionResult)
    ensures
        r is Ok <==> todo::signature_text(real_page()) != fake_signature(),
        r matches Err(e) ==> tells_acceptance(e@),
{
    let mut todo = Todo::new(
        TodoId::from_slug("navigate-instagram", 0),
        "navigate instagram",
        None,
    );
    let real_obs_text = "<html><body>Real Instagram Content</body></html>";
    proof {
        reveal_strlit("<html><body>Real Instagram Content</body></html>");
        lemma_short_page_signable(real_obs_text);
        reveal_strlit("len:");
    }
    let fake_worker_sig = "len:00000000";
    let now: u64 = 1700000000;
    let outcome1 = todo.mark_done(fake_worker_sig, real_obs_text, 1, now, 2);
    match outcome1 {
        MarkTodoOutcome::StaleEvidence(mismatch) => {
            if !text::same(mismatch.worker_signature.as_str(), fake_worker_sig) {
                let mut out = text::owned("expected worker sig ");
                out.append(fake_worker_sig);
                out.append(", got ");
                out.append(mismatch.worker_signature.as_str());
                return Err(out);
            }
            let pending = match todo.status {
                TodoStatus::Pending => true,
                _ => false,
            };
            if !pending {
                let mut out = text::owned(
                    "expected todo status Pending after 1st failed attempt, got ",
                );
                out.append(todo.status.debug_text().as_str());
                return Err(out);
            }
        },
        other => {
            let mut out = text::owned("expected StaleEvidence on 1st attempt, got ");
            out.append(other.debug_text().as_str());
            return Err(out);
        },
    }
    let outcome2 = todo.mark_done(fake_worker_sig, real_obs_text, 2, now + 1, 2);
    match outcome2 {
        MarkTodoOutcome::StaleEvidence(_) => {
            if todo.attempts != 2 {
                let mut out = text::owned("expected attempts == 2, got ");
                out.append(text::decimal_of(todo.attempts as u64).as_str());
                return Err(out);
            }
            proof {
                reveal_strlit("snapshot signature mismatch: worker=");
                reveal_strlit("snapshot signature mismatch");
                let shown = todo.status->Failed_reason@;
                let part = "snapshot signature mismatch"@;
                assert(shown.subrange(0, part.len() as int) == part) by {
                    assert(shown.subrange(0, part.len() as int)
                        == "snapshot signature mismatch: worker="@.subrange(
                        0,
                        part.len() as int,
                    ));
                }
                assert(text::occurs_at(shown, part, 0));
            }
            assert_todo_rejected(&todo, Some("snapshot signature mismatch"))
        },
        other => {
            let mut out = text::owned("expected StaleEvidence on 2nd attempt, got ");
            out.append(other.debug_text().as_str());
            Err(out)
        },
    }
}

/// The evidence is older than evidence that was looked at before: the report is
/// turned down and the todo stays pending.
pub fn retry_on_stale_evidence() -> (r: AssertionResult)
    ensures
        r is Ok,
{
    let mut todo = Todo::new(TodoId::from_slug("send-message", 1), "send message", None);
    todo.last_evidence_iteration = Some(2);
    todo.attempts = 1;
    let obs_text = "<html><body>Message sent page</body></html>";
    proof {
        reveal_strlit("<html><body>Message sent page</body></html>");
        lemma_short_page_signable(obs_text);
    }
    let valid_sig = planner_signature(obs_text);
    let now: u64 = 1700000000;
    let outcome = todo.mark_done(valid_sig.as_str(), obs_text, 1, now, 3);
    match outcome {
        MarkTodoOutcome::StaleEvidence(mismatch) => {
            proof {
                reveal_strlit("stale iteration ");
                reveal_strlit("stale iteration");
                let shown = mismatch.reason@;
                let part = "stale iteration"@;
                assert(shown.subrange(0, part.len() as int) == part) by {
                    assert(shown.subrange(0, part.len() as int) == "stale iteration "@.subrange(
                        0,
                        part.len() as int,
                    ));
                }
                assert(text::occurs_at(shown, part, 0));
            }
            if !text::contains(mismatch.reason.as_str(), "stale iteration") {
                let mut out = text::owned(
                    "expected mismatch reason to mention stale iteration, got ",
                );
                out.append(text::quote(mismatch.reason.as_str()).as_str());
                return Err(out);
            }
            let pending = match todo.status {
                TodoStatus::Pending => true,
                _ => false,
            };
            if !pending {
                let mut out = text::owned("expected todo status to remain Pending, got ");
                out.append(todo.status.debug_text().as_str());
                return Err(out);
            }
            if todo.attempts != 2 {
                let mut out = text::owned("expected attempts incremented to 2, got ");
                out.append(text::decimal_of(todo.attempts as u64).as_str());
                return Err(out);
            }
            assert_todo_rejected(&todo, None)
        },
        other => {
            let mut out = text::owned("expected StaleEvidence outcome for stale iteration, got ");
            out.append(other.debug_text().as_str());
            Err(out)
        },
    }
}

/// The three scenarios.
pub fn all_planner_shortcut_scenarios() -> (r: Vec<PlannerWorkerScenario>)
    ensures
        r@.len() == 3,
        r@[0].id@ == "planner_accept_on_match"@,
        r@[0].description@
            == "Happy path: worker evidence matches planner signature -> MarkedDone"@,
        r@[0].case == ShortcutCase::AcceptOnMatch,
        r@[1].id@ == "planner_reject_on_mismatch"@,
        r@[1].description@
            == "Worker shortcut: fake signature rejected -> Pending then Failed"@,
        r@[1].case == ShortcutCase::RejectOnMismatch,
        r@[2].id@ == "planner_retry_on_stale_evidence"@,
        r@[2].description@
            == "Stale evidence: re-used iteration signature rejected -> Pending"@,
        r@[2].case == ShortcutCase::RetryOnStaleEvidence,
{
    let mut out: Vec<PlannerWorkerScenario> = Vec::new();
    out.push(
        PlannerWorkerScenario::new(
            "planner_accept_on_match",
            "Happy path: worker evidence matches planner signature -> MarkedDone",
            ShortcutCase::AcceptOnMatch,
        ),
    );
    out.push(
        PlannerWorkerScenario::new(
            "planner_reject_on_mismatch",
            "Worker shortcut: fake signature rejected -> Pending then Failed",
            ShortcutCase::RejectOnMismatch,
        ),
    );
    out.push(
        PlannerWorkerScenario::new(
            "planner_retry_on_stale_evidence",
            "Stale evidence: re-used iteration signature rejected -> Pending",
            ShortcutCase::RetryOnStaleEvidence,
        ),
    );
    out
}

} // verus!
