use mew_agent::agent::Agent;
use mew_agent::budget::{Budget, BudgetDecision, SubtaskBudget};
use mew_agent::captcha_telemetry::{default_persist_path, CaptchaTelemetry, SCHEMA_VERSION};
use mew_agent::chat_agent::{synthesize_done, synthesize_research};
use mew_agent::completeness::{CompletenessTracker, DeclareItem, StatusKind, SubTaskStatus};
use mew_agent::eval::harness::default_scenarios;
use mew_agent::eval::scenarios::planner_worker_shortcut::all_planner_shortcut_scenarios;
use mew_agent::handoff::{
    BrowserResult, BrowserStatus, Handoff, HandoffSubTask, KeyFinding, TodoResult,
};
use mew_agent::model_reply::{json_reply, reply_unless};
use mew_agent::nav::retry_delay_secs;
use mew_agent::orchestrator::EventLog;
use mew_agent::pacing::{PacingConfig, PacingDecision, PacingGuard};
use mew_agent::planner::slugify;
use mew_agent::planner_run::PlannerStep;
use mew_agent::research::ResearchFinding;
use mew_agent::resilience::ChallengeKind;
use mew_agent::todo::planner_signature;
use mew_agent::Planner;

fn finding(id: &str, status: &str) -> KeyFinding {
    KeyFinding {
        id: id.into(),
        description: format!("do {id}"),
        status: status.into(),
        reason: String::new(),
        evidence_signature: None,
    }
}

fn tracker(ids: &[&str]) -> CompletenessTracker {
    let mut t = CompletenessTracker::new();
    let items = ids
        .iter()
        .map(|id| DeclareItem { id: id.to_string(), description: format!("do {id}") })
        .collect();
    t.declare(items).unwrap();
    t
}

// Replies.

#[test]
fn one_completed_subtask_is_counted() {
    let r = BrowserResult::done("s", " Opened it. ", vec![finding("a", "done")], None, None);
    assert_eq!(synthesize_done(&r), "Opened it. (1 of 1 sub-tasks completed.)");
    let r = BrowserResult::done("s", "", vec![finding("a", "failed")], None, None);
    assert_eq!(
        synthesize_done(&r),
        "The browser task completed. (0 of 1 sub-tasks completed.)"
    );
    let r = BrowserResult::done("s", "", vec![], None, None);
    assert_eq!(synthesize_done(&r), "The browser task completed.");
}

#[test]
fn research_without_findings_says_so() {
    let r = BrowserResult::done("s", "", vec![finding("a", "failed")], None, None);
    assert_eq!(synthesize_research(&r), "no findings to report.");
    let r = BrowserResult::done("s", "Looked around.", vec![], None, None);
    assert_eq!(synthesize_research(&r), "no findings to report.");
    let row = |id: &str| ResearchFinding {
        id: id.into(),
        platform: "P".into(),
        title: Some("T".into()),
        company: None,
        email: None,
        url: None,
        note: String::new(),
        added_at_secs: 0,
    };
    let r = BrowserResult::done_research("s", "", vec![], None, None, vec![row("f")]);
    assert!(synthesize_research(&r).starts_with("Found 1 result across 1 platform.\n  1. "));
}

// Plans.

fn three_todos() -> (Planner, EventLog) {
    let mut h = Handoff::bare("t", "m");
    h.subtasks = vec![
        HandoffSubTask::new("a", "open a"),
        HandoffSubTask::new("b", "wait b"),
        HandoffSubTask::new("c", "wait c"),
    ];
    (Planner::start(&h), EventLog::new())
}

#[test]
fn each_todo_has_one_finding_in_order() {
    let (mut p, mut sink) = three_todos();
    assert_eq!(p.begin_todo(false, &mut sink), PlannerStep::Submit);
    p.submit_failed("queue full", &mut sink);
    assert_eq!(p.begin_todo(true, &mut sink), PlannerStep::Next);
    assert_eq!(p.begin_todo(false, &mut sink), PlannerStep::Submit);
    let page = "page";
    let r = TodoResult::success(p.todos[2].id.clone(), &planner_signature(page), page, 1);
    assert_eq!(p.worker_reported(r, 9, &mut sink), PlannerStep::Next);
    assert_eq!(p.begin_todo(false, &mut sink), PlannerStep::Finished);
    let todos: Vec<(String, String)> =
        p.todos.iter().map(|t| (t.id.0.clone(), t.intent.clone())).collect();
    let r = p.into_result();
    let shown: Vec<(String, String)> =
        r.key_findings.iter().map(|f| (f.id.clone(), f.description.clone())).collect();
    assert_eq!(shown, todos);
    let statuses: Vec<&str> = r.key_findings.iter().map(|f| f.status.as_str()).collect();
    assert_eq!(statuses, vec!["failed", "failed", "done"]);
    assert_eq!(r.status, BrowserStatus::Failed);
    assert_eq!(r.failure_reason, "pool shutting down");
}

#[test]
fn a_plan_with_a_failure_after_a_shutdown_is_partial() {
    let (mut p, mut sink) = three_todos();
    assert_eq!(p.begin_todo(true, &mut sink), PlannerStep::Next);
    assert_eq!(p.begin_todo(false, &mut sink), PlannerStep::Submit);
    p.submit_failed("queue full", &mut sink);
    assert_eq!(p.begin_todo(false, &mut sink), PlannerStep::Submit);
    for n in 1..=3 {
        let r = TodoResult::failure(p.todos[2].id.clone(), "crash", "", "", 0);
        let step = p.worker_reported(r, 9, &mut sink);
        assert_eq!(step == PlannerStep::Next, n == 3);
    }
    let r = p.into_result();
    assert_eq!(r.status, BrowserStatus::Partial);
    assert_eq!(r.failure_reason, "");
    assert_eq!(r.key_findings.len(), 3);
}

#[test]
fn an_empty_plan_is_done() {
    let mut p = Planner::start(&Handoff::bare("", "m"));
    p.todos.clear();
    let r = p.into_result();
    assert_eq!(r.status, BrowserStatus::Done);
    assert!(r.key_findings.is_empty());
}

#[test]
fn slugs_have_single_dashes() {
    assert_eq!(slugify(" --- hello world --- ", 0), "hello-world-1");
    assert_eq!(slugify("a -- b!!c", 1), "a-b-c-2");
    assert_eq!(slugify("日本", 2), "step-3");
    let long = slugify(&"ab ".repeat(40), 0);
    assert_eq!(long, format!("{}-1", "ab-".repeat(11).trim_end_matches('-')));
    for s in ["--x--y--", "1 2  3   4", "Ünïcode täg"] {
        assert!(!slugify(s, 0).contains("--"));
    }
}

// Budgets.

#[test]
fn steps_are_the_ticks_since_the_last_reset() {
    let cap = SubtaskBudget { step_budget: 3, time_budget_secs: 0 };
    let mut b = Budget::from_rows(vec![("a".into(), cap), ("b".into(), cap)]);
    for now in 0..3 {
        b.tick("a", now);
        b.tick("other", now);
    }
    b.tick("b", 5);
    assert_eq!((b.steps_used("a"), b.steps_used("b"), b.steps_used("other")), (3, 1, 0));
    b.reset("a");
    assert_eq!((b.steps_used("a"), b.steps_used("b")), (0, 1));
    b.tick("a", 50);
    b.reset("b");
    assert_eq!(
        b.tick("a", 57),
        BudgetDecision::StillUnder {
            steps_used: 2,
            steps_max: 3,
            elapsed_secs: 7,
            time_max_secs: 0
        }
    );
    assert_eq!((b.steps_used("a"), b.steps_used("b")), (2, 0));
}

#[test]
fn exhausted_subtasks_are_closed_at_the_given_second_and_counted() {
    let cap = SubtaskBudget { step_budget: 1, time_budget_secs: 0 };
    let mut b = Budget::from_rows(vec![("a".into(), cap)]);
    let mut t = tracker(&["a", "b"]);
    assert_eq!(t.inline_status(), "0/2 done (0 skipped, 0 failed), 2 pending");
    assert!(t.write_summary_at(1, "s", "x").contains(
        "counts: total=2 done=0 skipped=0 failed=0 pending=2\n"
    ));
    assert!(!b.tick_and_enforce_at(&mut t, "a", 10, 20).is_exhausted());
    assert!(b.tick_and_enforce_at(&mut t, "a", 11, 21).is_exhausted());
    assert_eq!(
        t.subtasks[0].status,
        SubTaskStatus::Exhausted { reason: "step budget exhausted: 2/1".into() }
    );
    assert_eq!(t.count(StatusKind::Exhausted), 1);
    assert_eq!(t.inline_status(), "0/2 done (0 skipped, 0 failed, 1 exhausted), 1 pending");
    assert!(t.write_summary_at(1, "s", "x").contains(
        "counts: total=2 done=0 skipped=0 failed=0 exhausted=1 pending=1\n"
    ));
}

// Pacing.

#[test]
fn the_streak_is_the_run_that_ends_the_calls() {
    let config =
        PacingConfig { enabled: true, min_delay_ms: 0, max_delay_ms: 0, streak_threshold: 9 };
    let mut g = PacingGuard::new(config);
    let mut counts = Vec::new();
    for name in ["click", "click", "type", "type", "type", "", "type", "snapshot", "click"] {
        if name.is_empty() {
            g.reset();
        } else {
            g.before_action(name);
        }
        counts.push(g.current_streak_count());
    }
    assert_eq!(counts, vec![1, 2, 1, 2, 3, 0, 1, 0, 1]);
    let mut off = PacingGuard::disabled();
    for name in ["click", "click", "click"] {
        assert_eq!(off.before_action(name), PacingDecision::NoPacing);
        assert_eq!(off.current_streak_count(), 0);
    }
}

// Challenges.

#[test]
fn rows_tell_the_calls() {
    let mut t = CaptchaTelemetry::new(None);
    t.record_at("", ChallengeKind::Hcaptcha, 1);
    t.mark_expected_at("", 1);
    assert!(t.snapshot().is_empty());
    t.record_at("www.B.com", ChallengeKind::Hcaptcha, 2);
    t.record_at("日本.jp", ChallengeKind::RecaptchaV3, 3);
    t.mark_expected_at("b.com", 4);
    t.record_at("b.com", ChallengeKind::Hcaptcha, 5);
    t.record_at("B.COM", ChallengeKind::RecaptchaV2, 6);
    t.mark_expected_at("a.com", 7);
    let rows = t.snapshot();
    let shown: Vec<(&str, u32, bool)> =
        rows.iter().map(|r| (r.host.as_str(), r.total(), r.expected)).collect();
    assert_eq!(shown, vec![("a.com", 0, true), ("b.com", 3, true), ("日本.jp", 1, false)]);
    assert_eq!(t.count("b.com", ChallengeKind::Hcaptcha), Some(2));
    assert_eq!(t.count("b.com", ChallengeKind::RecaptchaV3), Some(0));
    assert_eq!(t.count("c.com", ChallengeKind::Hcaptcha), None);
    t.mark_expected_at("www.b.com", 99);
    t.mark_expected_at("a.com", 99);
    assert_eq!(t.snapshot(), rows);
    let stored = t.to_store();
    assert_eq!(stored.schema_version, SCHEMA_VERSION);
    let back = CaptchaTelemetry::load_or_default(Some(stored), Some("p".into()));
    assert_eq!(back.snapshot(), rows);
    assert_eq!(back.persist_path.as_deref(), Some("p"));
    let mut other = t.to_store();
    other.schema_version = SCHEMA_VERSION + 1;
    assert!(CaptchaTelemetry::load_or_default(Some(other), None).snapshot().is_empty());
    assert!(CaptchaTelemetry::load_or_default(None, None).snapshot().is_empty());
}

#[test]
fn the_rows_are_stored_in_the_data_directory() {
    assert_eq!(default_persist_path(""), "captcha_telemetry.json");
    assert_eq!(default_persist_path("a/"), "a/captcha_telemetry.json");
    assert_eq!(default_persist_path("a/b"), "a/b/captcha_telemetry.json");
}

// Waits.

#[test]
fn waits_double_as_far_as_they_fit() {
    assert_eq!(retry_delay_secs(64, 65, 1), Some(1 << 63));
    assert_eq!(retry_delay_secs(1, 2, u64::MAX), Some(u64::MAX));
    assert_eq!(retry_delay_secs(2, 100, 1 << 62), Some(1 << 63));
    assert_eq!(retry_delay_secs(u32::MAX, 100, u64::MAX), None);
    assert_eq!(retry_delay_secs(40, 41, 0), Some(0));
}

// Scenarios.

#[test]
fn scenarios_carry_their_descriptions_and_traces() {
    let all = default_scenarios();
    assert_eq!(all[0].expected_result.final_snapshot_signature.as_deref(), Some("len:abcd1234"));
    assert_eq!(
        all[0].expected_result.raw_transcript_ref.as_deref(),
        Some("/tmp/transcript_instagram_text.log")
    );
    let clean = all.iter().find(|s| s.id == "clean_dashboard").unwrap();
    assert_eq!(
        clean.description,
        "Negative case: a clean dashboard. No failure modes should fire."
    );
    let cases = all_planner_shortcut_scenarios();
    assert_eq!(
        cases[2].description,
        "Stale evidence: re-used iteration signature rejected -> Pending"
    );
    assert!(cases.iter().all(|c| c.run().is_ok()));
}

// The loop.

#[test]
fn no_more_iterations_begin_than_are_allowed() {
    let mut a = Agent::new_for_test("x");
    a.config.opencode_zen.max_iterations = 3;
    let answers: Vec<bool> = (0..6).map(|_| a.begin_iteration().is_ok()).collect();
    assert_eq!(answers, vec![true, true, true, false, false, false]);
    assert_eq!(a.state.iterations, 3);
}

#[test]
fn test_agents_store_nothing() {
    let a = Agent::new_for_test("x");
    assert!(a.captcha_telemetry().snapshot().is_empty());
    assert_eq!(a.captcha_telemetry().persist_path, None);
    assert_eq!(a.pacing.config, a.config.agent.pacing);
    assert!(!a.pacing.config.enabled);
    assert_eq!(a.config.agent.research.platforms_file, None);
}

#[test]
fn replies_that_are_no_json_are_turned_down() {
    assert_eq!(json_reply("{\"a\":1}".into()), Ok("{\"a\":1}".to_string()));
    let error = json_reply("{".into()).unwrap_err();
    assert!(error.contains("line 1 column 1"), "{error}");
    assert_eq!(reply_unless("r".into(), Some("e".into())), Err("e".to_string()));
    assert_eq!(reply_unless("r".into(), None), Ok("r".to_string()));
}
