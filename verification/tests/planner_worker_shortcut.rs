use mew_agent::eval::scenarios::planner_worker_shortcut::{
    accept_on_match, reject_on_mismatch, retry_on_stale_evidence,
};

#[test]
fn accept_on_match_scenario_passes() {
    assert!(accept_on_match().is_ok());
}

#[test]
fn reject_on_mismatch_scenario_passes() {
    assert!(reject_on_mismatch().is_ok());
}

#[test]
fn retry_on_stale_evidence_scenario_passes() {
    assert!(retry_on_stale_evidence().is_ok());
}
