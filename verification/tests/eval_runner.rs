use mew_agent::eval::harness::{default_scenarios, FailureMode};
use mew_agent::eval::runner::{default_chat_agent, find_scenario, run_scenario, run_scenarios};
use mew_agent::handoff::BrowserStatus;

#[test]
fn runner_passes_all_default_scenarios() {
    let agent = default_chat_agent();
    let report = run_scenarios(&default_scenarios(), &agent);
    for row in &report.rows {
        assert!(
            row.passed,
            "scenario {} failed: failure_reason={:?}, failure_modes_hit={:?}",
            row.scenario_id, row.failure_reason, row.failure_modes_hit,
        );
    }
}

#[test]
fn runner_records_subtask_count_from_handoff() {
    let agent = default_chat_agent();
    let scenarios = default_scenarios();
    let ig = scenarios
        .iter()
        .find(|s| s.id == "instagram_text_friend")
        .expect("instagram_text_friend scenario");
    let outcome = run_scenario(ig, &agent);
    assert_eq!(outcome.subtask_count, 2, "instagram phrasing should split into 2 subtasks");
}

#[test]
fn runner_records_subtask_count_for_compound_task() {
    let agent = default_chat_agent();
    let scenarios = default_scenarios();
    let g = scenarios
        .iter()
        .find(|s| s.id == "google_then_instagram_text")
        .expect("google_then_instagram_text scenario");
    let outcome = run_scenario(g, &agent);
    assert_eq!(outcome.subtask_count, g.expected_subtask_count);
}

#[test]
fn runner_records_failure_modes_for_429_scenario() {
    let agent = default_chat_agent();
    let scenarios = default_scenarios();
    let r = scenarios
        .iter()
        .find(|s| s.id == "rate_limit_429")
        .expect("rate_limit_429 scenario");
    let outcome = run_scenario(r, &agent);
    assert!(
        outcome
            .failure_modes_hit
            .iter()
            .any(|m| m == FailureMode::RateLimit.as_str()),
        "expected rate_limit detection, got {:?}",
        outcome.failure_modes_hit,
    );
}

#[test]
fn runner_marks_failed_status_for_429_scenario() {
    let agent = default_chat_agent();
    let scenarios = default_scenarios();
    let r = scenarios
        .iter()
        .find(|s| s.id == "rate_limit_429")
        .expect("rate_limit_429 scenario");
    let outcome = run_scenario(r, &agent);
    assert_eq!(outcome.status, BrowserStatus::Failed);
    assert!(!outcome.chat_reply.is_empty());
}

#[test]
fn runner_records_no_failure_modes_for_clean_dashboard() {
    let agent = default_chat_agent();
    let scenarios = default_scenarios();
    let r = scenarios
        .iter()
        .find(|s| s.id == "clean_dashboard")
        .expect("clean_dashboard scenario");
    let outcome = run_scenario(r, &agent);
    assert!(
        outcome.failure_modes_hit.is_empty(),
        "clean dashboard should hit no failure modes, got {:?}",
        outcome.failure_modes_hit,
    );
}

#[test]
fn runner_records_captcha_failure_mode() {
    let agent = default_chat_agent();
    let scenarios = default_scenarios();
    let r = scenarios
        .iter()
        .find(|s| s.id == "captcha_turnstile")
        .expect("captcha_turnstile scenario");
    let outcome = run_scenario(r, &agent);
    assert!(
        outcome
            .failure_modes_hit
            .iter()
            .any(|m| m == FailureMode::CaptchaChallenge.as_str()),
    );
}

#[test]
fn report_pass_rate_is_full_when_all_pass() {
    let agent = default_chat_agent();
    let report = run_scenarios(&default_scenarios(), &agent);
    assert_eq!(report.passed(), report.rows.len());
    assert_eq!(report.passed() as f64 / report.rows.len() as f64, 1.0);
}

#[test]
fn find_scenario_returns_matching_scenario() {
    let s = find_scenario("instagram_text_friend");
    assert!(s.is_some());
    let s = find_scenario("nonexistent");
    assert!(s.is_none());
}
