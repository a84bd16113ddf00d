use mew_agent::eval::harness::{default_scenarios, FailureMode};

#[test]
fn default_scenarios_has_ten_rows() {
    let set = default_scenarios();
    assert_eq!(set.len(), 10, "expected 10 default scenarios, got {}", set.len());
}

#[test]
fn every_scenario_has_unique_id() {
    let set = default_scenarios();
    let mut ids: Vec<&str> = set.iter().map(|s| s.id).collect();
    ids.sort();
    let original_len = ids.len();
    ids.dedup();
    assert_eq!(ids.len(), original_len, "duplicate scenario id in default_scenarios()");
}

#[test]
fn every_scenario_task_is_non_empty() {
    let set = default_scenarios();
    for s in &set {
        assert!(!s.task.is_empty(), "scenario {} has empty task", s.id);
    }
}

#[test]
fn every_scenario_builds_a_handoff() {
    for s in default_scenarios() {
        let h = s.build_handoff("test:0");
        assert!(!h.task_description.is_empty(), "scenario {}: empty handoff task", s.id);
        assert_eq!(
            h.subtasks.len(),
            s.expected_subtask_count,
            "scenario {}: planner subtasks ({}) don't match expected ({})",
            s.id,
            h.subtasks.len(),
            s.expected_subtask_count,
        );
    }
}

#[test]
fn failure_mode_strings_are_stable() {
    assert_eq!(FailureMode::RefDrift.as_str(), "ref_drift");
    assert_eq!(FailureMode::ModalInterruption.as_str(), "modal_interruption");
    assert_eq!(FailureMode::SessionLoss.as_str(), "session_loss");
    assert_eq!(FailureMode::RateLimit.as_str(), "rate_limit");
    assert_eq!(FailureMode::IrreversibleAction.as_str(), "irreversible_action");
    assert_eq!(FailureMode::VisionAmbiguity.as_str(), "vision_ambiguity");
    assert_eq!(FailureMode::CaptchaChallenge.as_str(), "captcha_challenge");
}

