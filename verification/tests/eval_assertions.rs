use mew_agent::eval::assertions::{
    assert_correct_task_dispatched, assert_handoff_contract,
    assert_originating_message_id_preserved, assert_result_reflected_in_chat_reply,
    assert_subtask_decomposition,
};
use mew_agent::handoff::{BrowserResult, Handoff, HandoffSubTask, KeyFinding};

fn done_result() -> BrowserResult {
    BrowserResult::done(
        "session_1",
        "Message sent to Alice.",
        vec![KeyFinding {
            id: "step-1".into(),
            description: "send".into(),
            status: "done".into(),
            reason: String::new(),
            evidence_signature: None,
        }],
        Some("len:abc".into()),
        Some("/tmp/t.log".into()),
    )
}

fn failed_result(reason: &str) -> BrowserResult {
    BrowserResult::failure("session_1", reason, Some("/tmp/t.log".into()))
}

fn bare_handoff(task: &str, id: &str) -> Handoff {
    Handoff {
        task_description: task.into(),
        subtasks: vec![HandoffSubTask::new("step-1", "do thing")],
        constraints: vec![],
        originating_message_id: id.into(),
        research_plan: None,
    }
}

fn decomposed_handoff(task: &str, id: &str) -> Handoff {
    Handoff {
        task_description: task.into(),
        subtasks: vec![
            HandoffSubTask::new("step-1", "navigate"),
            HandoffSubTask::new("step-2", "send"),
        ],
        constraints: vec![],
        originating_message_id: id.into(),
        research_plan: None,
    }
}

#[test]
fn dispatch_assertion_passes_for_non_empty_task() {
    let h = bare_handoff("send a message", "id:1");
    assert!(assert_correct_task_dispatched("send a message", &h).is_ok());
}

#[test]
fn dispatch_assertion_fails_for_empty_task() {
    let mut h = bare_handoff("send a message", "id:1");
    h.task_description = String::new();
    assert!(assert_correct_task_dispatched("send a message", &h).is_err());
}

#[test]
fn reflection_assertion_passes_for_done_with_summary() {
    let r = done_result();
    let reply = "I sent the message to Alice.";
    assert!(assert_result_reflected_in_chat_reply(&r, reply).is_ok());
}

#[test]
fn reflection_assertion_fails_for_empty_reply() {
    let r = done_result();
    assert!(assert_result_reflected_in_chat_reply(&r, "").is_err());
}

#[test]
fn reflection_assertion_passes_for_failed_with_quoted_reason() {
    let r = failed_result("Chrome failed to launch");
    let reply = "I couldn't complete the task: Chrome failed to launch.";
    assert!(assert_result_reflected_in_chat_reply(&r, reply).is_ok());
}

#[test]
fn reflection_assertion_fails_for_failed_with_unquoted_reason() {
    let r = failed_result("Chrome failed to launch");
    let reply = "Sorry, something went wrong.";
    assert!(assert_result_reflected_in_chat_reply(&r, reply).is_err());
}

#[test]
fn id_preservation_passes_for_matching_ids() {
    let h = bare_handoff("x", "id:1");
    assert!(assert_originating_message_id_preserved(&h, "id:1").is_ok());
}

#[test]
fn id_preservation_fails_for_mismatched_ids() {
    let h = bare_handoff("x", "id:1");
    assert!(assert_originating_message_id_preserved(&h, "id:2").is_err());
}

#[test]
fn decomposition_assertion_passes_for_sufficient_subtasks() {
    let h = decomposed_handoff("x", "id:1");
    assert!(assert_subtask_decomposition(&h, 2).is_ok());
}

#[test]
fn decomposition_assertion_fails_for_too_few_subtasks() {
    let h = bare_handoff("go to instagram and text alice", "id:1");
    assert!(assert_subtask_decomposition(&h, 2).is_err());
}

#[test]
fn full_contract_passes_when_all_four_hold() {
    let user = "go to instagram and text alice hi";
    let h = decomposed_handoff(
        "open instagram and send the message",
        "id:42",
    );
    let r = done_result();
    let reply = "I sent the message to Alice. 2 of 2 sub-tasks completed.";
    let res = assert_handoff_contract(user, &h, &r, reply, "id:42", 2);
    assert!(res.is_ok(), "unexpected failure: {:?}", res);
}

#[test]
fn full_contract_fails_aggregating_multiple_failures() {
    let user = "go to instagram and text alice hi";
    let h = bare_handoff("go to instagram and text alice hi", "id:42");
    let r = failed_result("Chrome failed");
    let reply = "Sorry, something went wrong.";
    let res = assert_handoff_contract(user, &h, &r, reply, "id:99", 2);
    assert!(res.is_err());
    let err = res.unwrap_err();
    assert!(err.contains("originating_message_id"), "missing id drift: {err}");
    assert!(err.contains("decomposition"), "missing decomposition failure: {err}");
}
