use mew_agent::agent::{
    entry, render_plan_block, Agent, AgentEvent, LogEntry, NO_PLAN, PLAN_RULES, SYSTEM_PROMPT,
};
use mew_agent::agent_loop::{
    observation_summary, retry_extraction, Halt, Observation, PageStep,
};
use mew_agent::captcha_telemetry::CaptchaTelemetry;
use mew_agent::chat::UserMessage;
use mew_agent::completeness::{DeclareItem, SubTaskStatus};
use mew_agent::history::{HistoryMessage, USER_NOTE_PREFIX};
use mew_agent::planner::plan;
use mew_agent::resilience::{Challenge, ChallengeKind, ResilienceHookOutcome};
use mew_agent::session::{state_line, TransitionRecord};
use mew_agent::todo::planner_signature;
use mew_agent::{AgentConfig, OpencodeZenConfig, ProviderConfig};

fn config(max_iterations: usize, max_tokens: Option<usize>) -> ProviderConfig {
    ProviderConfig {
        opencode_zen: OpencodeZenConfig {
            base_url: "http://model".into(),
            api_key: "key".into(),
            default_model: "m1".into(),
            max_iterations,
            max_tokens,
        },
        browser: None,
        agent: AgentConfig::default(),
    }
}

fn agent(task: &str) -> Agent {
    Agent::new_at(config(3, None), task, CaptchaTelemetry::new(None), 1000)
}

fn lines(agent: &mut Agent) -> Vec<String> {
    agent
        .take_log()
        .into_iter()
        .map(|e| match e {
            LogEntry::Line(line) => line,
            LogEntry::Resilience { kind, detail } => format!("{kind}|{detail}"),
        })
        .collect()
}

fn contents(agent: &Agent) -> Vec<String> {
    agent
        .history_snapshot()
        .into_iter()
        .map(|m| m.content.unwrap_or_default())
        .collect()
}

fn note(text: &str, at: u64) -> UserMessage {
    UserMessage { text: text.into(), timestamp_secs: at }
}

#[test]
fn a_new_agent_knows_its_task_and_logs_its_start() {
    let mut a = agent("buy milk");
    assert_eq!(a.session_id(), "session_1000");
    assert_eq!(a.session_id_for_test(), "session_1000");
    assert_eq!(contents(&a), vec![SYSTEM_PROMPT.to_string(), "Task: buy milk".to_string()]);
    assert_eq!(lines(&mut a), vec!["[1000] [session_1000] STATE: -> Running (start)\n\n"]);
    assert!(lines(&mut a).is_empty());
    assert!(a.take_events().is_empty());
    assert!(a.live_progress_snapshot().is_empty());
    assert!(a.captcha_telemetry().snapshot().is_empty());
    assert!(!a.completeness().has_subtasks());
}

#[test]
fn the_system_prompt_keeps_its_wording() {
    assert!(SYSTEM_PROMPT.starts_with("You are mew, a visible browser agent."));
    assert!(SYSTEM_PROMPT.contains("COMPLETENESS PROTOCOL (mandatory for multi-item tasks):"));
    let last = format!("{} {}", "The", "gate is not a suggestion.");
    assert!(SYSTEM_PROMPT.ends_with(&last), "{SYSTEM_PROMPT}");
}

#[test]
fn an_agent_of_the_present_is_named_after_the_second() {
    let a = Agent::new(config(3, None), "x", CaptchaTelemetry::new(None));
    let secs = a.session_id().strip_prefix("session_").unwrap();
    assert!(secs.parse::<u64>().unwrap() > 1_600_000_000);
}

#[test]
fn a_test_agent_writes_no_transcript_and_never_paces() {
    let mut a = Agent::new_for_test("go");
    assert!(lines(&mut a).is_empty());
    assert!(!a.pacing_mut_for_test().enabled());
    assert_eq!(contents(&a)[1], "Task: go");
    assert_eq!(a.config.opencode_zen.base_url, "http://test/");
}

#[test]
fn preflight_declares_the_subtasks_and_tells_the_model() {
    let mut a = agent("go to instagram and text my friend hi");
    lines(&mut a);
    assert_eq!(a.run_preflight_plan_at(7), Ok(()));
    let head = contents(&a)[0].clone();
    let block = head.strip_prefix(SYSTEM_PROMPT).unwrap().strip_prefix("\n\n").unwrap();
    assert_eq!(
        block,
        format!(
            "PLAN (pre-flight decomposition):\n  1. [go-to-instagram-1] go to instagram\n  2. [text-my-friend-hi-2] text my friend hi\n{PLAN_RULES}"
        )
    );
    assert_eq!(a.completeness().subtasks.len(), 2);
    assert_eq!(a.completeness().subtasks[1].id, "text-my-friend-hi-2");
    assert!(!a.completeness().gate_open());
    assert_eq!(
        lines(&mut a),
        vec![
            "[7] [session_1000] PREFLIGHT: subtasks=2 escalated=false rationale=\"split on 1 clause-boundary marker(s) into 2 subtask(s).\"\n\n"
        ]
    );
}

#[test]
fn preflight_of_a_blank_task_declares_nothing() {
    let mut a = agent("   ");
    assert_eq!(a.run_preflight_plan_at(7), Ok(()));
    assert_eq!(contents(&a)[0], format!("{SYSTEM_PROMPT}\n\n{NO_PLAN}"));
    assert!(a.completeness().gate_open());
}

#[test]
fn preflight_needs_a_message_of_the_user() {
    let mut a = agent("x");
    a.history.messages.remove(1);
    assert_eq!(a.run_preflight_plan_at(7), Err("preflight: no user-role message found".to_string()));
}

#[test]
fn preflight_does_not_wipe_resolved_subtasks() {
    let mut a = agent("x");
    a.completeness_mut()
        .declare(vec![DeclareItem { id: "a".into(), description: "d".into() }])
        .unwrap();
    a.completeness_mut().mark_skipped("a", "no".into());
    assert_eq!(
        a.run_preflight_plan_at(7),
        Err("preflight: declare failed: cannot re-declare subtasks after any have been resolved".to_string())
    );
    assert!(matches!(a.completeness().subtasks[0].status, SubTaskStatus::Skipped { .. }));
}

#[test]
fn plan_blocks_of_empty_plans_say_so() {
    assert_eq!(render_plan_block(&plan("")), NO_PLAN);
    assert!(PLAN_RULES.ends_with("will force a snapshot re-prompt."));
}

#[test]
fn iterations_stop_at_the_limit() {
    let mut a = agent("x");
    assert_eq!(a.begin_iteration(), Ok(1));
    assert_eq!(a.begin_iteration(), Ok(2));
    assert_eq!(a.begin_iteration(), Ok(3));
    assert_eq!(a.begin_iteration(), Err(Halt::IterationLimit));
    assert_eq!(Halt::IterationLimit.text(), "Iteration limit reached");
    assert_eq!(a.state.iterations, 3);
}

#[test]
fn iterations_stop_at_the_token_limit() {
    let mut a = Agent::new_at(config(9, Some(100)), "x", CaptchaTelemetry::new(None), 1);
    assert_eq!(a.begin_iteration(), Ok(1));
    assert!(a.add_tokens(100));
    assert_eq!(a.begin_iteration(), Err(Halt::TokenLimit));
    assert_eq!(Halt::TokenLimit.text(), "Token limit reached");
}

#[test]
fn a_new_address_cuts_the_conversation_back_to_head_and_notes() {
    let mut a = agent("x");
    assert!(a.observe_url("http://a"));
    a.history.push(HistoryMessage::tool("c1", "done"));
    a.drain_and_apply_user_messages(&vec![note("hurry", 5)]);
    a.history.push(HistoryMessage::user("Current page state:\n.."));
    a.state.ref_recovery_attempts = 2;
    a.state.prior_was_dashboard_like = true;
    assert!(a.observe_url("http://b"));
    assert_eq!(
        contents(&a)[1..].to_vec(),
        vec!["Task: x".to_string(), "[user note while task is running] hurry".to_string()]
    );
    assert!(contents(&a)[2].starts_with(USER_NOTE_PREFIX));
    assert_eq!(a.state.ref_recovery_attempts, 0);
    assert!(!a.state.prior_was_dashboard_like);
}

#[test]
fn the_same_address_keeps_the_last_steps() {
    let mut a = agent("x");
    a.observe_url("http://a");
    for i in 0..13 {
        a.history.push(HistoryMessage::tool("c", &format!("r{i}")));
    }
    assert!(!a.observe_url("http://a"));
    let c = contents(&a);
    assert_eq!(c.len(), 12);
    assert_eq!(c[0], SYSTEM_PROMPT);
    assert_eq!(c[2], "r3");
    assert_eq!(c[11], "r12");
}

#[test]
fn truncation_keeps_what_stands_in_front() {
    let mut a = agent("x");
    a.history.push(HistoryMessage::user("other"));
    a.truncate_for_test(2);
    assert_eq!(contents(&a).len(), 2);
    a.truncate_for_test(5);
    assert_eq!(contents(&a).len(), 2);
}

#[test]
fn notes_reach_conversation_and_transcript_in_order() {
    let mut a = agent("x");
    lines(&mut a);
    a.drain_and_apply_user_messages_defer_file(&vec![note("one", 11)]);
    assert!(lines(&mut a).is_empty());
    a.drain_and_apply_user_messages(&vec![note("two", 12), note("three", 13)]);
    assert_eq!(
        contents(&a)[2..].to_vec(),
        vec![
            "[user note while task is running] one",
            "[user note while task is running] two",
            "[user note while task is running] three",
        ]
    );
    assert_eq!(
        lines(&mut a),
        vec![
            "[11] [session_1000] USER: one\n\n",
            "[12] [session_1000] USER: two\n\n",
            "[13] [session_1000] USER: three\n\n",
        ]
    );
    a.flush_pending_user_note_writes();
    assert!(lines(&mut a).is_empty());
    a.apply_user_message_for_test(&note("four", 14));
    assert_eq!(lines(&mut a), vec!["[14] [session_1000] USER: four\n\n"]);
}

#[test]
fn a_message_of_the_present_is_stamped() {
    let m = UserMessage::now("hi");
    assert_eq!(m.text, "hi");
    assert!(m.timestamp_secs > 1_600_000_000);
}

#[test]
fn pages_are_read_again_four_times() {
    assert!(retry_extraction(true, 0));
    assert!(retry_extraction(true, 3));
    assert!(!retry_extraction(true, 4));
    assert!(!retry_extraction(false, 0));
}

#[test]
fn observations_show_changes_only_on_a_known_page() {
    let mut a = agent("x");
    assert_eq!(a.choose_observation(false, None), Observation::Full);
    assert_eq!(a.choose_observation(true, Some((1, 1))), Observation::Full);
    assert_eq!(a.choose_observation(true, Some((51, 51))), Observation::Full);
    assert_eq!(a.choose_observation(false, Some((51, 51))), Observation::Replaced);
    assert_eq!(a.choose_observation(false, Some((50, 51))), Observation::Changes);
    assert_eq!(a.choose_observation(false, Some((51, 50))), Observation::Changes);
    a.state.force_snapshot = true;
    assert_eq!(a.choose_observation(false, Some((1, 1))), Observation::Full);
    assert_eq!(a.choose_observation(false, Some((51, 51))), Observation::Replaced);
}

#[test]
fn a_recorded_observation_is_evidence() {
    let mut a = agent("x");
    a.completeness_mut()
        .declare(vec![DeclareItem { id: "a".into(), description: "d".into() }])
        .unwrap();
    a.begin_iteration().unwrap();
    a.state.force_snapshot = true;
    a.history.push(HistoryMessage::user("other"));
    a.record_observation("the page", Observation::Replaced);
    let sig = planner_signature("the page");
    assert!(sig.starts_with("len:"));
    assert_eq!(a.completeness().last_snapshot_signature.as_deref(), Some(sig.as_str()));
    assert_eq!(a.completeness().last_snapshot_iteration, Some(1));
    assert!(!a.state.force_snapshot);
    assert_eq!(contents(&a).len(), 2);
    let answer = a.mark_done_result("a", &sig, 5);
    assert_eq!(
        answer,
        format!(
            "Subtask 'a' marked done with fresh-snapshot evidence (iter 1, sig {sig}). Tracker: 1/1 done (0 skipped, 0 failed), 0 pending"
        )
    );
}

#[test]
fn observations_are_summed_up_in_bytes() {
    assert_eq!(observation_summary("abc"), "Observation: 3 bytes");
    assert_eq!(observation_summary("é"), "Observation: 2 bytes");
    assert_eq!(observation_summary(""), "Observation: 0 bytes");
}

#[test]
fn page_reports_without_effect_leave_the_agent() {
    for outcome in [
        ResilienceHookOutcome::Continue,
        ResilienceHookOutcome::ForceSnapshot,
        ResilienceHookOutcome::PauseForUser { target: "t".into(), action_kind: "k".into() },
    ] {
        let mut a = agent("x");
        lines(&mut a);
        assert!(matches!(a.apply_page_report(&outcome, "", true, 1), PageStep::Proceed));
        assert!(lines(&mut a).is_empty());
        assert_eq!(contents(&a).len(), 2);
        assert!(a.state.prior_was_dashboard_like);
        assert!(!a.state.force_snapshot);
    }
}

#[test]
fn dialogs_are_closed_in_place_of_the_next_call() {
    let mut a = agent("x");
    lines(&mut a);
    let outcome = ResilienceHookOutcome::AutoDismiss { dismiss_ref: "@e7".into() };
    assert!(matches!(a.apply_page_report(&outcome, "", false, 1), PageStep::Proceed));
    assert_eq!(lines(&mut a), vec!["modal_autodismiss|dismiss_ref=@e7"]);
    assert_eq!(a.state.pending_modal_dismiss.as_deref(), Some("@e7"));
}

#[test]
fn throttling_sites_are_waited_for_once() {
    let mut a = agent("x");
    lines(&mut a);
    let outcome = ResilienceHookOutcome::Backoff { secs: 30 };
    assert!(matches!(a.apply_page_report(&outcome, "", false, 1), PageStep::Proceed));
    assert_eq!(lines(&mut a), vec!["rate_limit_backoff|secs=30"]);
    assert_eq!(a.take_backoff(), Some(30));
    assert!(a.state.force_snapshot);
    assert_eq!(a.take_backoff(), None);
}

#[test]
fn findings_are_told_to_the_model() {
    let mut a = agent("x");
    lines(&mut a);
    let outcome = ResilienceHookOutcome::SurfaceAsFinding {
        summary: "logged out".into(),
        kind: "session_loss".into(),
    };
    assert!(matches!(a.apply_page_report(&outcome, "", false, 1), PageStep::Proceed));
    assert_eq!(lines(&mut a), vec!["session_loss|logged out"]);
    assert_eq!(
        contents(&a)[2],
        "[resilience:session_loss] logged out\n\nThe page state above is the latest observation. Decide your next step accordingly."
    );
}

#[test]
fn challenges_stop_the_loop_and_are_counted() {
    let mut a = agent("x");
    lines(&mut a);
    a.state.prior_was_dashboard_like = true;
    let challenge = Challenge {
        kind: ChallengeKind::Hcaptcha,
        domain_hint: Some("WWW.Example.com".into()),
        label: "hCaptcha".into(),
    };
    let outcome = ResilienceHookOutcome::PauseForCaptcha { challenge };
    match a.apply_page_report(&outcome, "solve it", false, 77) {
        PageStep::Stop { pause_reason, error } => {
            assert_eq!(pause_reason, "captcha:hcaptcha (WWW.Example.com)");
            assert_eq!(error, "captcha challenge detected: hCaptcha — solve it");
        }
        PageStep::Proceed => panic!("expected Stop"),
    }
    assert_eq!(
        lines(&mut a),
        vec!["CaptchaPause|challenge_kind=hcaptcha domain=WWW.Example.com hint=\"solve it\""]
    );
    assert_eq!(contents(&a)[2], "[resilience:captcha] hCaptcha\n\nsolve it");
    let rows = a.captcha_telemetry().snapshot();
    assert_eq!(rows.len(), 1);
    assert_eq!(rows[0].host, "example.com");
    assert_eq!(rows[0].first_seen_unix_secs, 77);
    assert_eq!(rows[0].counts.get("hcaptcha").copied(), Some(1));
    assert!(a.state.pending_captcha.is_some());
    assert!(a.state.prior_was_dashboard_like);
}

#[test]
fn challenges_of_unknown_hosts_are_counted_together() {
    let mut a = agent("x");
    let challenge =
        Challenge { kind: ChallengeKind::RecaptchaV2, domain_hint: None, label: "l".into() };
    let outcome = ResilienceHookOutcome::PauseForCaptcha { challenge };
    match a.apply_page_report(&outcome, "h", false, 1) {
        PageStep::Stop { pause_reason, .. } => {
            assert_eq!(pause_reason, "captcha:recaptcha_v2 (unknown host)");
        }
        PageStep::Proceed => panic!("expected Stop"),
    }
    assert_eq!(a.captcha_telemetry().snapshot()[0].host, "unknown");
}

#[test]
fn the_page_is_shown_to_the_model() {
    let mut a = agent("x");
    a.show_page("[1] button");
    assert_eq!(contents(&a)[2], "Current page state:\n[1] button");
}

#[test]
fn passthrough_is_decided_by_the_text() {
    let a = agent("x");
    assert_eq!(a.try_passthrough_finish(" I sent it. \n"), Some("I sent it.".to_string()));
    assert_eq!(a.try_passthrough_finish("I clicked the button"), None);
}

#[test]
fn transcript_lines_carry_time_and_session() {
    assert_eq!(entry(5, "s", "BODY"), "[5] [s] BODY\n\n");
    let mut record = TransitionRecord {
        timestamp_secs: 9,
        from: "Running".into(),
        to: "Paused".into(),
        kind: "pause".into(),
        reason: None,
    };
    assert_eq!(state_line("s", &record), "[9] [s] STATE: Running -> Paused (pause)\n\n");
    record.reason = Some("user".into());
    assert_eq!(state_line("s", &record), "[9] [s] STATE: Running -> Paused (pause) reason=user\n\n");
    let mut a = agent("x");
    lines(&mut a);
    a.write_state_line(&record);
    assert_eq!(lines(&mut a).len(), 1);
    assert_eq!(a.take_events(), vec![AgentEvent::State(record.clone())]);
    a.note_transition(&None);
    let same = TransitionRecord { to: "Running".into(), ..record.clone() };
    a.note_transition(&Some(same));
    assert!(lines(&mut a).is_empty());
    a.note_transition(&Some(record));
    assert_eq!(lines(&mut a).len(), 1);
}
