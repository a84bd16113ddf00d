use mew_agent::handoff::{BrowserResult, BrowserStatus, Handoff, HandoffSubTask, KeyFinding};
use mew_agent::research::{ResearchPlan, ResearchSubTask};

#[test]
fn handoff_bare_has_empty_subtasks_and_constraints() {
    let h = Handoff::bare("go to wikipedia", "session_1:1700000000");
    assert_eq!(h.task_description, "go to wikipedia");
    assert_eq!(h.originating_message_id, "session_1:1700000000");
    assert!(h.subtasks.is_empty());
    assert!(h.constraints.is_empty());
}

#[test]
fn handoff_subtask_new_sets_fields() {
    let s = HandoffSubTask::new("step-1", "open wikipedia");
    assert_eq!(s.id, "step-1");
    assert_eq!(s.description, "open wikipedia");
}

#[test]
fn browser_status_as_str_is_stable() {
    assert_eq!(BrowserStatus::Done.as_str(), "done");
    assert_eq!(BrowserStatus::Partial.as_str(), "partial");
    assert_eq!(BrowserStatus::Failed.as_str(), "failed");
}

#[test]
fn browser_result_failure_carries_reason() {
    let r = BrowserResult::failure(
        "session_42",
        "Chrome failed to launch: ENOENT",
        Some("/tmp/transcript_session_42.log".to_string()),
    );
    assert_eq!(r.status, BrowserStatus::Failed);
    assert_eq!(r.failure_reason, "Chrome failed to launch: ENOENT");
    assert_eq!(r.session_id, "session_42");
    assert!(r.summary.is_empty());
    assert!(r.key_findings.is_empty());
    assert_eq!(
        r.raw_transcript_ref.as_deref(),
        Some("/tmp/transcript_session_42.log")
    );
}

#[test]
fn browser_result_done_carries_findings_and_summary() {
    let r = BrowserResult::done(
        "session_7",
        "Message sent to Alice.",
        vec![KeyFinding {
            id: "step-1".into(),
            description: "navigate to instagram".into(),
            status: "done".into(),
            reason: String::new(),
            evidence_signature: Some("len:0123abcd".into()),
        }],
        Some("len:0123abcd".into()),
        Some("/tmp/transcript_session_7.log".to_string()),
    );
    assert_eq!(r.status, BrowserStatus::Done);
    assert_eq!(r.summary, "Message sent to Alice.");
    assert_eq!(r.key_findings.len(), 1);
    assert_eq!(r.key_findings[0].id, "step-1");
    assert_eq!(
        r.key_findings[0].evidence_signature.as_deref(),
        Some("len:0123abcd")
    );
    assert!(r.failure_reason.is_empty());
}

#[test]
fn handoff_bare_has_research_plan_none() {
    let h = Handoff::bare("x", "y");
    assert!(h.research_plan.is_none());
}

#[test]
fn handoff_with_research_plan_seeds_subtasks_from_platforms() {
    let plan = ResearchPlan {
        goal: "find rust jobs".into(),
        platforms: vec![ResearchSubTask {
            id: "linkedin".into(),
            platform: "LinkedIn".into(),
            domain: "linkedin.com".into(),
            entry_hint: "filter Remote".into(),
            acceptance: vec![],
            step_budget: 10,
            time_budget_secs: 60,
            query: "rust engineer".into(),
        }],
        synthesis_hint: "One row per role".into(),
        overall_deadline_secs: Some(600),
        is_research: true,
        matched_pattern: "research_keyword".into(),
    };
    let h = Handoff::with_research_plan(
        "find rust jobs",
        "chat:1:0",
        plan.clone(),
    );
    assert!(h.research_plan.is_some());
    assert_eq!(h.subtasks.len(), 1);
    assert_eq!(h.subtasks[0].id, "linkedin");
    assert!(h.subtasks[0].description.contains("LinkedIn"));
    assert!(h.subtasks[0].description.contains("rust engineer"));
}

