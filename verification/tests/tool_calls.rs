use mew_agent::agent::{Agent, AgentEvent, LogEntry};
use mew_agent::chat::UserMessage;
use mew_agent::checklist_tools::{
    failure_reason, FinishStep, Resolution, FINISH_ACCEPTED,
};
use mew_agent::completeness::{DeclareItem, SubTaskStatus};
use mew_agent::dispatch::ProgressNote;
use mew_agent::loop_order::{next_stage, Signal, Stage};
use mew_agent::model_reply::ModelCall;
use mew_agent::nav::{domain_allowed, pre_nav_delay_ms, retry_delay_secs};
use mew_agent::pacing::{PacingDecision, PacingGuard, PacingConfig};
use mew_agent::page_tools::{
    described, forced_crash, missing_ref, navigate_step, press_key_result, read_description, scroll_result,
    unknown_tool, vision_body, Attempt, NavResolution, NavStep, RefAction, Region, Sight,
};
use mew_agent::resilience::RefRecoveryOutcome;
use mew_agent::text::bar_lines;
use mew_agent::tools::ToolCall;

fn agent() -> Agent {
    let mut a = Agent::new_for_test("go to a and do b");
    a.session_id = "s".into();
    a
}

fn with_subtasks(ids: &[&str]) -> Agent {
    let mut a = agent();
    let items = ids
        .iter()
        .map(|id| DeclareItem { id: id.to_string(), description: format!("do {id}") })
        .collect();
    a.completeness_mut().declare(items).unwrap();
    a
}

fn lines(agent: &mut Agent) -> Vec<String> {
    agent
        .take_log()
        .into_iter()
        .map(|e| match e {
            LogEntry::Line(line) => line,
            LogEntry::Resilience { kind, detail } => format!("{kind}|{detail}"),
        })
        .collect()
}

fn asked(name: &str) -> ModelCall {
    ModelCall { id: "c1".into(), name: name.into(), args: "{}".into() }
}

fn resolution() -> NavResolution {
    NavResolution { original_input: "ex".into(), url: "https://ex.com/".into(), path: "map".into() }
}

/// Where a navigation goes: nowhere where it is refused, else to the host.
fn sent_to(url: &str, allowed: &Option<Vec<String>>) -> Option<Option<String>> {
    let mut a = agent();
    a.config.agent.allowed_domains = allowed.clone();
    let n = NavResolution { original_input: "x".into(), url: url.into(), path: "map".into() };
    match a.begin_navigation(&n, 1) {
        NavStep::Refuse { .. } => None,
        NavStep::Go { host } => Some(host),
    }
}

fn navigation_allowed(url: &str, allowed: &Option<Vec<String>>) -> bool {
    sent_to(url, allowed).is_some()
}

fn host_of_url(url: &str) -> Option<String> {
    sent_to(url, &None).unwrap()
}

#[test]
fn a_pending_dialog_replaces_the_call() {
    let mut a = agent();
    let d = a.choose_dispatch(&asked("finish"));
    assert_eq!((d.name.as_str(), d.args.as_str()), ("finish", "{}"));
    assert_eq!(d.call, ToolCall::Finish { result: "".into() });
    a.state.pending_modal_dismiss = Some("@e3".into());
    let d = a.choose_dispatch(&asked("finish"));
    assert_eq!((d.name.as_str(), d.args.as_str()), ("click", "{\"ref\":\"@e3\"}"));
    assert_eq!(d.call, ToolCall::Click { reference: "@e3".into() });
    assert_eq!(lines(&mut a), vec!["modal_dismiss_dispatch|dismiss_ref=@e3 original_tool=finish"]);
    assert_eq!(a.state.pending_modal_dismiss, None);
}

#[test]
fn calls_are_answered_logged_and_reported() {
    let mut a = agent();
    a.record_call(&asked("scroll"), "Observation: 3 bytes", "Scrolled successfully", 9);
    let last = a.history_snapshot().pop().unwrap();
    assert_eq!(last.role.as_deref(), Some("tool"));
    assert_eq!(last.tool_call_id.as_deref(), Some("c1"));
    assert_eq!(last.content.as_deref(), Some("Scrolled successfully"));
    assert_eq!(
        lines(&mut a),
        vec!["[9] [Observation: 3 bytes] TOOL CALL: scroll (args: {})\nRESULT: Scrolled successfully\n\n"]
    );
    assert_eq!(
        a.take_events(),
        vec![AgentEvent::Tool {
            timestamp_secs: 9,
            name: "scroll".into(),
            args: "{}".into(),
            result: "Scrolled successfully".into(),
        }]
    );
}

#[test]
fn notes_on_calls_are_kept_up_to_the_cap() {
    let mut a = agent();
    assert!(a.emit_progress_line_at(None, 1).is_none());
    for i in 0..7 {
        let note = ProgressNote { kind: "nav".into(), text: format!("n{i}"), success: true };
        let line = a.emit_progress_line_at(Some(note), i).unwrap();
        assert_eq!(line.timestamp_secs, i);
    }
    let kept: Vec<String> = a.live_progress_snapshot().into_iter().map(|l| l.text).collect();
    assert_eq!(kept, vec!["n2", "n3", "n4", "n5", "n6"]);
    assert_eq!(a.live_progress.total, 7);
    assert_eq!(a.take_events().len(), 7);
    let note = ProgressNote { kind: "nav".into(), text: "now".into(), success: false };
    let line = a.emit_progress_line(Some(note)).unwrap();
    assert!(!line.success && line.timestamp_secs > 1_600_000_000);
}

#[test]
fn actions_that_cannot_be_undone_are_held() {
    let mut a = agent();
    assert_eq!(
        a.hold_action("submit order", "Pay"),
        "irreversible action: submit order (target: Pay) — awaiting user confirmation"
    );
    let call = asked("click");
    let d = a.choose_dispatch(&call);
    let result = a.answer_held(&call, &d, "submit order", "Pay", 4);
    assert_eq!(
        result,
        "GATE: irreversible action submit order (target: Pay) paused for user confirmation. Loop will park on next iteration until resumed."
    );
    assert_eq!(
        lines(&mut a),
        vec![
            "irreversible_gate|action=submit order target=Pay",
            "[4] [s] GATE-IRREVERSIBLE: action=submit order target=Pay\n\n",
        ]
    );
    let answer = a.history_snapshot().pop().unwrap().content.unwrap();
    assert!(answer.starts_with("IRREVERSIBLE ACTION GATE: I'm about to submit order (target: Pay)."));
    assert_eq!(a.take_events().len(), 1);
}

#[test]
fn repeated_calls_are_paced_and_logged() {
    let mut a = agent();
    *a.pacing_mut_for_test() = PacingGuard::new(PacingConfig {
        enabled: true,
        min_delay_ms: 100,
        max_delay_ms: 150,
        streak_threshold: 2,
    });
    assert_eq!(a.pace_with("click", "click", 0, 1), PacingDecision::NoPacing);
    assert!(lines(&mut a).is_empty());
    assert!(matches!(a.pace_with("click", "click", 20, 2), PacingDecision::Pace { streak: 2, .. }));
    assert_eq!(lines(&mut a), vec!["[2] [s] PACING: action=click streak=2 delay_ms=120\n\n"]);
    assert!(matches!(a.pace("click", "finish", 3), PacingDecision::Pace { streak: 3, .. }));
    assert!(lines(&mut a).is_empty());
}

#[test]
fn navigation_keeps_to_the_list() {
    let list = vec!["example.com".to_string()];
    assert!(domain_allowed("example.com", &list));
    assert!(domain_allowed("docs.example.com", &list));
    assert!(!domain_allowed("badexample.com", &list));
    assert!(!domain_allowed("example.com.evil.org", &list));
    assert!(!domain_allowed("", &list));
    assert!(!domain_allowed("example.com", &vec![]));
    assert!(navigation_allowed("https://other.org/", &None));
    let allowed = Some(list);
    assert!(navigation_allowed("https://www.example.com/x", &allowed));
    assert!(!navigation_allowed("https://other.org/", &allowed));
    assert!(navigation_allowed("http://127.0.0.1/", &allowed));
    assert!(navigation_allowed("not a url", &allowed));
    assert!(!navigation_allowed("https://example.org", &Some(vec![])));
}

#[test]
fn hosts_are_found_in_addresses() {
    assert_eq!(host_of_url("https://WWW.Example.com:8080/a?b"), Some("www.example.com".to_string()));
    assert_eq!(host_of_url("http://127.0.0.1/"), Some("127.0.0.1".to_string()));
    assert_eq!(host_of_url("mailto:a@b.c"), None);
    assert_eq!(host_of_url("nonsense"), None);
}

#[test]
fn refused_navigations_are_answered() {
    let mut a = agent();
    a.config.agent.allowed_domains = Some(vec!["docs.rs".into()]);
    match a.begin_navigation(&resolution(), 3) {
        NavStep::Refuse { result } => assert_eq!(
            result,
            "ERROR: Action failed (Navigation). Domain for URL 'https://ex.com/' (resolved from 'ex' via map) is not in the allowlist. Do not attempt this domain."
        ),
        NavStep::Go { .. } => panic!("expected Refuse"),
    }
    assert_eq!(
        lines(&mut a),
        vec!["[3] [s] NAV-RESOLVE: input=\"ex\" path=map resolved_url=https://ex.com/\n\n"]
    );
    a.config.agent.allowed_domains = None;
    match a.begin_navigation(&resolution(), 3) {
        NavStep::Go { host } => assert_eq!(host.as_deref(), Some("ex.com")),
        NavStep::Refuse { .. } => panic!("expected Go"),
    }
}

#[test]
fn forced_crashes_are_recognised() {
    assert_eq!(forced_crash("http://x/force-crash"), Some("Deliberately forced crash mid-task!"));
    assert_eq!(forced_crash("http://x/"), None);
}

#[test]
fn navigation_attempts_are_repeated() {
    let n = resolution();
    let step = navigate_step(&n, 1, &Attempt::Failed { error: "net".into() });
    assert_eq!(step.result, "ERROR: Action failed (Navigation). net. Do not assume success.");
    assert_eq!(step.again_after, Some(1));
    let step = navigate_step(&n, 2, &Attempt::TimedOut);
    assert_eq!(
        step.result,
        "ERROR: Action failed (Timeout while navigating). The navigation timed out and did not complete successfully. Do not assume your action succeeded."
    );
    assert_eq!(step.again_after, Some(2));
    assert_eq!(navigate_step(&n, 3, &Attempt::TimedOut).again_after, None);
    let step = navigate_step(&n, 1, &Attempt::Succeeded);
    assert_eq!(step.result, "Navigated successfully (resolved \"ex\" -> \"https://ex.com/\" via map)");
    assert_eq!(step.again_after, None);
}

#[test]
fn challengers_are_waited_for() {
    assert_eq!(pre_nav_delay_ms(0, 0), 1500);
    assert_eq!(pre_nav_delay_ms(1499, 0), 2999);
    assert_eq!(pre_nav_delay_ms(1500, 0), 1500);
    assert_eq!(pre_nav_delay_ms(5, 3), 1506);
    let mut a = agent();
    a.state.iterations = 3;
    assert_eq!(a.challenger_wait_with("ex.com", 5), 1506);
    assert_eq!(lines(&mut a), vec!["PreNavPacing|host=ex.com delay_ms=1506"]);
    let ms = a.challenger_wait("ex.com");
    assert!((1500..=2999).contains(&ms));
    assert_eq!(lines(&mut a), vec![format!("PreNavPacing|host=ex.com delay_ms={ms}")]);
}

#[test]
fn retries_double_their_wait() {
    assert_eq!(retry_delay_secs(1, 1, 7), None);
    assert_eq!(retry_delay_secs(1, 2, 7), Some(7));
    assert_eq!(retry_delay_secs(4, 9, 3), Some(24));
}

#[test]
fn elements_are_acted_on() {
    let mut a = agent();
    a.state.ref_recovery_attempts = 2;
    let step = a.ref_action_step(RefAction::Click, "@e1", 1, &Attempt::Succeeded);
    assert_eq!((step.result.as_str(), step.again_after), ("Clicked successfully", None));
    assert_eq!(a.state.ref_recovery_attempts, 0);
    let step = a.ref_action_step(RefAction::Type, "@e1", 1, &Attempt::Succeeded);
    assert_eq!(step.result, "Typed successfully");
    let failed = Attempt::Failed { error: "gone".into() };
    let step = a.ref_action_step(RefAction::Type, "@e1", 2, &failed);
    assert_eq!(step.result, "ERROR: Action failed (Type). gone. Do not assume success.");
    assert_eq!(step.again_after, Some(2));
    let step = a.ref_action_step(RefAction::Click, "@e1", 3, &Attempt::TimedOut);
    assert_eq!(
        step.result,
        "ERROR: Action failed (Timeout while clicking). The click action timed out and did not complete successfully. Do not assume your action succeeded."
    );
    assert_eq!(step.again_after, None);
    assert_eq!(missing_ref("e9"), "ref_id e9 (normalized: @e9) not found on page");
}

#[test]
fn elements_that_left_the_page_are_not_tried_again() {
    let mut a = agent();
    let retry = Attempt::Stale {
        recovery: RefRecoveryOutcome::Retry { new_ref: "@e5".into(), attempts_so_far: 1 },
    };
    let step = a.ref_action_step(RefAction::Type, "@e1", 1, &retry);
    assert_eq!(
        step.result,
        "Stale ref detected (@e1). Recovery: re-snapshot and retry with the new ref."
    );
    assert_eq!(step.again_after, None);
    assert_eq!(lines(&mut a), vec!["ref_recovery_retry|old=@e1 new=@e5 attempt=1"]);
    assert!(a.state.force_snapshot);
    assert_eq!(a.state.ref_recovery_attempts, 1);
    let escalate = Attempt::Stale {
        recovery: RefRecoveryOutcome::EscalateToLLM { reason: "why".into(), attempts_so_far: 2 },
    };
    let step = a.ref_action_step(RefAction::Click, "@e1", 1, &escalate);
    assert_eq!(
        step.result,
        "ERROR: Action failed (Stale Element Reference). why. The element was removed from the DOM. Your action had NO effect. Re-evaluate the new page state and decide your next step."
    );
    assert_eq!(lines(&mut a), vec!["ref_recovery_escalate|ref=@e1 attempt=2"]);
    let abort = Attempt::Stale {
        recovery: RefRecoveryOutcome::AbortWithReason { reason: "no".into(), attempts_so_far: 3 },
    };
    let step = a.ref_action_step(RefAction::Type, "@e1", 1, &abort);
    assert_eq!(
        step.result,
        "ERROR: Action aborted (Stale Element Reference). no. A type action against a guessed target would be unsafe."
    );
    assert_eq!(lines(&mut a), vec!["ref_recovery_abort|ref=@e1 attempt=3"]);
}

#[test]
fn single_attempts_are_answered() {
    assert_eq!(scroll_result(&Attempt::Succeeded), "Scrolled successfully");
    assert_eq!(
        scroll_result(&Attempt::Failed { error: "e".into() }),
        "ERROR: Action failed (Scroll). e. Do not assume success."
    );
    assert_eq!(press_key_result(&Attempt::Succeeded), "Key pressed successfully");
    assert_eq!(
        press_key_result(&Attempt::TimedOut),
        "ERROR: Action failed (Timeout while pressing key). The press_key action timed out and did not complete successfully. Do not assume your action succeeded."
    );
    assert_eq!(unknown_tool("dance"), "Unknown tool 'dance'");
    let mut a = agent();
    assert!(a.snapshot_result().ends_with("(none yet — perception block has not recorded a snapshot for this session)"));
    a.completeness_mut().record_snapshot(1, "len:1".into());
    assert!(a.snapshot_result().ends_with("Current snapshot_signature: len:1"));
}

#[test]
fn regions_are_described() {
    let body: serde_json::Value = serde_json::from_str(&vision_body("QUJD")).unwrap();
    assert_eq!(body["model"].as_str(), Some("mimo-v2.5-free"));
    let content = &body["messages"][0]["content"];
    assert_eq!(content[0]["type"].as_str(), Some("text"));
    assert_eq!(content[1]["image_url"]["url"].as_str(), Some("data:image/png;base64,QUJD"));
    assert_eq!(
        read_description("{\"choices\":[{\"message\":{\"content\":\"a button\"}}]}").unwrap(),
        "a button"
    );
    assert!(matches!(read_description("{}"), Err(Sight::Undescribed)));
    assert!(matches!(read_description("{\"choices\""), Err(Sight::Unreadable)));
    assert!(matches!(described(true, Some("x".into())), Err(Sight::Unreadable)));
    assert!(matches!(described(false, None), Err(Sight::Undescribed)));
    assert_eq!(described(false, Some("x".into())).unwrap(), "x");
    let mut a = agent();
    let region = || Region { x: "1".into(), y: "2".into(), w: "3".into(), h: "4".into() };
    let clear = Sight::Clear {
        description: "a button".into(),
        bounds: region(),
        confidence: "0.90".into(),
    };
    assert_eq!(
        a.sight_result("e1", &clear),
        "Vision fallback result for region e1:\nDescription: a button\nBounds: 3x4 at 1,2\nConfidence: 0.90"
    );
    assert!(lines(&mut a).is_empty());
    let vague = Sight::Vague {
        confidence: "0.20".into(),
        threshold: "0.50".into(),
        tighter: Some(region()),
    };
    assert_eq!(
        a.sight_result("e1", &vague),
        "Vision result is not reliable (confidence 0.20, threshold 0.50). The LLM's description was too vague to act on. Suggested tighter crop: x=1 y=2 w=3 h=4 (use this for the next screenshot). Try a different region or use a structured accessibility-tree element instead of vision."
    );
    assert_eq!(lines(&mut a), vec!["vision_ambiguity|ref=e1 confidence=0.20 threshold=0.50"]);
    assert_eq!(a.sight_result("e1", &Sight::Unreadable), "Vision API returned invalid JSON");
    assert_eq!(a.sight_result("e1", &Sight::Undescribed), "Vision API returned no description");
    assert_eq!(a.sight_result("e1", &Sight::CallTimedOut), "Vision API call timed out");
    assert_eq!(
        a.sight_result("e1", &Sight::CallFailed { error: "x".into() }),
        "Vision API call failed: x"
    );
    assert_eq!(
        a.sight_result("e1", &Sight::ScreenshotFailed { error: "x".into() }),
        "Failed to take screenshot of region: x"
    );
    assert_eq!(
        a.sight_result("e1", &Sight::ScreenshotTimedOut),
        "Timeout while taking screenshot of region"
    );
}

#[test]
fn finish_is_held_back_while_subtasks_are_pending() {
    let mut a = with_subtasks(&["a", "b"]);
    a.completeness_mut().mark_skipped("a", "no".into());
    match a.finish_at(6) {
        FinishStep::Blocked { result } => {
            assert!(result.starts_with("GATE BLOCKED: finish() called while 1 subtask(s) are still pending."));
            assert!(result.contains("\nPending items:\n  - id=b: do b\nA blanket finish()"));
            assert_eq!(
                lines(&mut a),
                vec![format!(
                    "[6] [s] GATE: finish() intercepted, pending=1, reason={}\n\n",
                    result.replace('\n', " | ")
                )]
            );
        }
        FinishStep::Accepted { .. } => panic!("expected Blocked"),
    }
    assert!(a.state.force_snapshot);
    assert!(a.completeness().gate_triggered);
    assert_eq!(a.completeness().finish_attempts, 1);
    assert_eq!(a.state.finish_calls_this_gate, 0);
    assert_eq!(a.take_result(), None);
}

#[test]
fn finish_passes_once_everything_is_resolved() {
    let mut a = with_subtasks(&["a"]);
    a.completeness_mut().mark_failed("a", "no".into());
    match a.finish_at(6) {
        FinishStep::Accepted { task } => assert_eq!(task, "go to a and do b"),
        FinishStep::Blocked { .. } => panic!("expected Accepted"),
    }
    assert!(a.state.summary_written);
    let summary = lines(&mut a).pop().unwrap();
    assert!(summary.contains("[6] [s] task: Task: go to a and do b\n"));
    assert!(summary.contains("status=failed reason=no"));
    assert_eq!(a.take_events(), vec![AgentEvent::Summary { timestamp_secs: 6, text: summary }]);
    let answer = a.accept_finish(&asked("finish"), "Observation: 1 bytes", "All set.", 7);
    assert_eq!(answer, FINISH_ACCEPTED);
    assert_eq!(
        lines(&mut a),
        vec!["[7] [Observation: 1 bytes] TOOL CALL: finish (args: {})\nRESULT: Task finished: All set.\n\n"]
    );
    assert_eq!(a.take_result(), Some("All set.".to_string()));
    assert_eq!(a.take_result(), None);
    a.take_events();
    a.close_run_at(8);
    assert!(lines(&mut a).is_empty());
    assert!(a.take_events().is_empty());
}

#[test]
fn an_unfinished_run_is_summed_up_at_its_end() {
    let mut a = agent();
    a.drain_and_apply_user_messages_defer_file(&vec![UserMessage {
        text: "wait".into(),
        timestamp_secs: 2,
    }]);
    a.close_run_at(8);
    let all = lines(&mut a);
    assert_eq!(all.len(), 2);
    assert_eq!(all[0], "[2] [s] USER: wait\n\n");
    assert!(all[1].contains("no subtasks were declared; "));
    assert_eq!(a.take_events().len(), 1);
    a.history.messages.clear();
    a.state.summary_written = false;
    a.close_run_at(9);
    assert!(lines(&mut a)[0].contains("task: (no task recorded)"));
    assert_eq!(failure_reason("boom"), "loop terminated: boom");
}

#[test]
fn declarations_are_checked_item_by_item() {
    let mut a = agent();
    let items = vec!["{\"id\":\"a\",\"description\":\"first\"}".to_string(), "{\"description\":\"x\"}".to_string()];
    assert_eq!(
        a.declare_result(&items, 1),
        "ERROR: declare_subtasks item missing 'id': {\"description\":\"x\"}"
    );
    assert!(!a.completeness().has_subtasks());
    let items = vec!["{\"id\":\"a\"}".to_string()];
    assert_eq!(
        a.declare_result(&items, 1),
        "ERROR: declare_subtasks item 'a' missing 'description'"
    );
    let items = vec![
        "{\"id\":\"a\",\"description\":\"first\"}".to_string(),
        "{\"id\":\"b\\\"\",\"description\":\"second\"}".to_string(),
    ];
    assert_eq!(
        a.declare_result(&items, 1),
        "Declared 2 subtask(s). For each, take a snapshot and call mark_subtask_done(id, snapshot_signature) when you see the expected state change. Skipped/failed are also terminal.\n  - id=a desc=\"first\"\n  - id=b\" desc=\"second\""
    );
    assert_eq!(lines(&mut a), vec!["[1] [s] DECLARE: subtasks=2 ids=[\"a\", \"b\\\"\"]\n\n"]);
    a.completeness_mut().mark_skipped("a", "no".into());
    assert_eq!(
        a.declare_result(&items, 1),
        "ERROR: declare_subtasks rejected: cannot re-declare subtasks after any have been resolved"
    );
}

#[test]
fn marks_are_answered() {
    let mut a = with_subtasks(&["a", "b"]);
    assert_eq!(a.mark_done_result("", "x", 1), "ERROR: mark_subtask_done requires 'id'");
    assert_eq!(
        a.mark_done_result("z", "x", 1),
        "ERROR: no subtask with id 'z' is currently declared. Call declare_subtasks first or check the id spelling."
    );
    assert!(a.mark_done_result("a", "x", 1).starts_with("ERROR: mark_subtask_done for 'a' rejected — "));
    a.completeness_mut().record_snapshot(4, "len:9".into());
    assert_eq!(
        a.mark_done_result("a", "len:9", 1),
        "Subtask 'a' marked done with fresh-snapshot evidence (iter 4, sig len:9). Tracker: 1/2 done (0 skipped, 0 failed), 1 pending"
    );
    assert_eq!(lines(&mut a), vec!["[1] [s] MARK DONE: id=a evidence_iter=4 evidence_sig=len:9\n\n"]);
    assert!(a.mark_done_result("b", "len:9", 1).starts_with("ERROR: mark_subtask_done for 'b' rejected"));
    assert_eq!(
        a.mark_done_result("a", "len:9", 1),
        "ERROR: subtask 'a' is already in terminal status 'done' and cannot be marked done again."
    );
}

#[test]
fn subtasks_are_resolved_with_a_reason() {
    let mut a = with_subtasks(&["a", "b"]);
    assert_eq!(
        a.resolve_result(Resolution::Skipped, "", "r", 1),
        "ERROR: mark_subtask_skipped requires 'id'"
    );
    assert_eq!(
        a.resolve_result(Resolution::Failed, "a", "", 1),
        "ERROR: mark_subtask_failed for 'a' requires a non-empty 'reason'"
    );
    assert_eq!(
        a.resolve_result(Resolution::Skipped, "z", "r", 1),
        "ERROR: no subtask with id 'z' is currently declared."
    );
    assert_eq!(
        a.resolve_result(Resolution::Skipped, "a", "later", 1),
        "Subtask 'a' marked skipped (reason: later). Tracker: 0/2 done (1 skipped, 0 failed), 1 pending"
    );
    assert_eq!(
        a.resolve_result(Resolution::Failed, "b", "broken", 2),
        "Subtask 'b' marked failed (reason: broken). Tracker: 0/2 done (1 skipped, 1 failed), 0 pending"
    );
    assert_eq!(
        lines(&mut a),
        vec!["[1] [s] MARK SKIPPED: id=a reason=later\n\n", "[2] [s] MARK FAILED: id=b reason=broken\n\n"]
    );
    assert_eq!(
        a.resolve_result(Resolution::Skipped, "b", "r", 1),
        "ERROR: subtask 'b' is already in terminal status 'failed'."
    );
    assert_eq!(a.completeness().subtasks[1].status, SubTaskStatus::Failed { reason: "broken".into() });
    assert_eq!(a.completeness().subtasks[1].decided_at_secs, Some(2));
}

#[test]
fn line_breaks_become_bars() {
    assert_eq!(bar_lines("a\nb\n\nc"), "a | b |  | c");
    assert_eq!(bar_lines(""), "");
}

#[test]
fn one_iteration_runs_through_its_stages() {
    let mut stage = Stage::Plan;
    let mut seen = vec![stage];
    for _ in 0..12 {
        stage = next_stage(stage, Signal::Done);
        seen.push(stage);
    }
    assert_eq!(
        seen,
        vec![
            Stage::Plan,
            Stage::Checkpoint,
            Stage::Limits,
            Stage::Locate,
            Stage::Observe,
            Stage::Inspect,
            Stage::Ask,
            Stage::Reply,
            Stage::Recheck,
            Stage::Judge,
            Stage::Pace,
            Stage::Carry,
            Stage::Record,
        ]
    );
    assert_eq!(next_stage(Stage::Record, Signal::Done), Stage::Checkpoint);
    assert_eq!(next_stage(Stage::Record, Signal::Accepted), Stage::Finished);
    assert_eq!(next_stage(Stage::Judge, Signal::Irreversible), Stage::Hold);
    assert_eq!(next_stage(Stage::Hold, Signal::Done), Stage::Checkpoint);
    assert_eq!(next_stage(Stage::Reply, Signal::NoCall), Stage::Checkpoint);
    assert_eq!(next_stage(Stage::Inspect, Signal::Failed), Stage::Stopped);
    assert_eq!(next_stage(Stage::Stopped, Signal::Done), Stage::Stopped);
    assert_eq!(next_stage(Stage::Finished, Signal::Failed), Stage::Finished);
}
