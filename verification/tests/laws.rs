use mew_agent::budget::{budget_for, Budget, BudgetDecision, SubtaskBudget};
use mew_agent::captcha_solver::CaptchaConfig;
use mew_agent::captcha_telemetry::{normalize_host, CaptchaTelemetry, CaptchaTelemetryRecord};
use mew_agent::chat_agent::{
    message_id, synthesize_failed, synthesize_research, ChatAgent,
};
use mew_agent::classify_cache::ClassifyCache;
use mew_agent::clock::{now_secs, seconds_or_zero};
use mew_agent::completeness::{
    CompletenessTracker, DeclareItem, MarkOutcome, StatusKind, SubTaskStatus,
};
use mew_agent::end_of_task_passthrough::passthrough_check;
use mew_agent::eval::assertions::{
    assert_result_reflected_in_chat_reply, assert_todo_done, assert_todo_rejected, word_overlap,
};
use mew_agent::eval::report::{escape_csv, EvalReport, RunMetrics};
use mew_agent::eval::runner::{default_chat_agent, report_from_outcome, run_scenario_at};
use mew_agent::eval::harness::default_scenarios;
use mew_agent::eval::scenarios::planner_worker_shortcut::all_planner_shortcut_scenarios;
use mew_agent::handoff::{
    BrowserResult, BrowserStatus, Handoff, HandoffSubTask, KeyFinding, TodoResult,
};
use mew_agent::orchestrator::{
    agent_run_result, continue_turn, finish_browser_task, no_page_message, task_result, EventLog,
    OrchestratorEvent, TurnStep,
};
use mew_agent::pacing::{log_pacing_decision_at, PacedAction, PacingConfig, PacingDecision, PacingGuard};
use mew_agent::planner::{decompose_to_todos, infer_acceptance, plan, slugify, split_compound};
use mew_agent::planner_run::PlannerStep;
use mew_agent::research::ResearchFinding;
use mew_agent::resilience::ChallengeKind;
use mew_agent::router::{ConversationMessage, Intent};
use mew_agent::sorted_map::{less, SortedMap};
use mew_agent::text;
use mew_agent::todo::{
    is_signable, planner_signature, AcceptanceKind, MarkTodoOutcome, Todo, TodoId, TodoStatus,
};
use mew_agent::Planner;
use std::time::Duration;

fn tracker(ids: &[&str]) -> CompletenessTracker {
    let mut t = CompletenessTracker::new();
    let items = ids
        .iter()
        .map(|id| DeclareItem { id: id.to_string(), description: format!("do {id}") })
        .collect();
    t.declare(items).unwrap();
    t
}

fn finding(id: &str, status: &str) -> KeyFinding {
    KeyFinding {
        id: id.into(),
        description: format!("do {id}"),
        status: status.into(),
        reason: String::new(),
        evidence_signature: None,
    }
}

fn result(status: BrowserStatus, summary: &str, reason: &str) -> BrowserResult {
    let mut r = BrowserResult::failure("s", reason, None);
    r.status = status;
    r.summary = summary.into();
    r
}

// Text.

#[test]
fn texts_are_trimmed_and_cut_like_the_standard_library() {
    for s in ["", "  ", " a b ", "\u{a0}x\u{2003}", "\u{200b}y", "é\t"] {
        assert_eq!(text::trim(s), s.trim());
        assert_eq!(text::trim_start(s), s.trim_start());
        assert_eq!(text::trim_end(s), s.trim_end());
        let words: Vec<String> = s.split_whitespace().map(|w| w.to_string()).collect();
        assert_eq!(text::split_whitespace(s), words);
    }
    assert_eq!(text::find("abcabc", "ca"), Some(2));
    assert_eq!(text::find("abc", "x"), None);
    assert!(text::contains("abc", ""));
    assert!(text::starts_with("abc", "ab") && !text::starts_with("abc", "b"));
    assert!(text::ends_with("abc", "bc") && !text::ends_with("abc", "b"));
    assert_eq!(text::take_chars("héllo", 2), "hé");
    assert_eq!(text::to_ascii_lowercase("ÀB"), "Àb");
}

#[test]
fn a_clock_before_the_epoch_reads_zero() {
    assert_eq!(seconds_or_zero(None), 0);
    assert_eq!(seconds_or_zero(Some(0)), 0);
    assert_eq!(seconds_or_zero(Some(1_700_000_000)), 1_700_000_000);
    assert!(now_secs() > 1_600_000_000);
}

#[test]
fn numbers_are_written_like_the_standard_library() {
    for n in [0u64, 7, 10, 12345, u64::MAX] {
        assert_eq!(text::decimal_of(n), n.to_string());
        assert_eq!(text::hex_of(n), format!("{n:x}"));
        assert_eq!(text::decimal_of_long(n as u128 * 3), (n as u128 * 3).to_string());
    }
    assert_eq!(text::pad_left("7", 3, '0'), "007");
    assert_eq!(text::pad_left("1234", 3, '0'), "1234");
    assert_eq!(text::pad_right("ab", 4), "ab  ");
}

#[test]
fn lists_are_quoted_like_the_debug_format() {
    let v = vec!["a\"b".to_string(), "c\n".to_string(), "é".to_string()];
    assert_eq!(text::quote_list(&v), format!("{v:?}"));
    let none: Vec<String> = vec![];
    assert_eq!(text::quote_list(&none), "[]");
}

#[test]
fn words_lose_what_is_no_letter_around_them() {
    assert_eq!(text::strip_word("(hello!)"), "hello");
    assert_eq!(text::strip_word("«été»"), "été");
    assert_eq!(text::strip_word("--"), "");
}

#[test]
fn words_overlap_across_case() {
    assert!(word_overlap("STRASSE Öffnen", "wir öffnen das"));
    assert!(!word_overlap("abc def", "abc def"));
    assert!(!word_overlap("message", "nothing here"));
}

// Planning.

#[test]
fn pieces_hold_no_marker_and_lose_nothing() {
    let task = "open gmail, search X then send Y; log out & rest + sleep and wake";
    let pieces = split_compound(task);
    assert_eq!(
        pieces,
        vec!["open gmail", "search X", "send Y", "log out", "rest", "sleep", "wake"]
    );
    for p in &pieces {
        for m in [", ", " then ", "; ", " & ", " + ", " and "] {
            assert!(!p.contains(m), "{p:?} holds {m:?}");
        }
    }
}

#[test]
fn ids_are_distinct_slugs() {
    assert_eq!(slugify("Go to Gmail!", 0), "go-to-gmail-1");
    assert_eq!(slugify("", 4), "step-5");
    assert_ne!(slugify("a", 0), slugify("a", 1));
    assert_ne!(slugify("a-1", 0), slugify("a", 10));
    let long = slugify("one two three four five six seven eight nine ten", 1);
    assert!(long.len() <= 34 && long.ends_with("-2"), "{long}");
}

#[test]
fn only_blank_tasks_have_no_plan() {
    assert_eq!(plan(" \n").subtasks.len(), 0);
    assert_eq!(plan("x").subtasks.len(), 1);
    assert_eq!(plan(", ").subtasks.len(), 1);
    assert_eq!(plan("a, , b").subtasks.len(), 2);
}

#[test]
fn todos_take_their_acceptance_from_their_intent() {
    assert_eq!(infer_acceptance("Go to gmail").kind, AcceptanceKind::UrlAt);
    assert_eq!(infer_acceptance("navigate home").kind, AcceptanceKind::UrlAt);
    let h = Handoff::bare("open gmail and send mail", "m");
    let todos = decompose_to_todos(&h);
    assert_eq!(todos.len(), 2);
    assert_eq!(todos[0].id, TodoId("open-gmail-1".into()));
    assert_eq!(todos[1].intent, "send mail");
    assert_eq!(todos[1].depends_on, vec![TodoId("open-gmail-1".into())]);
    let mut h = h;
    h.subtasks = vec![HandoffSubTask::new("a", "open gmail"), HandoffSubTask::new("b", "wait")];
    let todos = decompose_to_todos(&h);
    assert_eq!(todos.len(), 2);
    assert!(todos.iter().all(|t| t.status == TodoStatus::Pending && t.attempts == 0));
}

// The checklist.

#[test]
fn resolved_subtasks_are_final() {
    let mut t = tracker(&["a", "b"]);
    t.mark_skipped("a", "first".into());
    let again = t.mark_failed("a", "second".into());
    assert_eq!(
        again,
        MarkOutcome::AlreadyTerminal { current: SubTaskStatus::Skipped { reason: "first".into() } }
    );
    assert_eq!(t.subtasks[0].status.reason(), Some("first"));
    assert_eq!(t.mark_failed("z", "r".into()), MarkOutcome::UnknownId);
}

#[test]
fn one_snapshot_proves_one_subtask() {
    let mut t = tracker(&["a", "b"]);
    t.record_snapshot(2, "sig".into());
    assert!(matches!(t.mark_done("a", "sig"), MarkOutcome::MarkedDone { evidence_iteration: 2, .. }));
    assert_eq!(
        t.mark_done("b", "sig"),
        MarkOutcome::StaleEvidence { last_snapshot_iteration: 2, current_iteration: 2 }
    );
    t.record_snapshot(3, "sig".into());
    assert!(matches!(t.mark_done("b", "sig"), MarkOutcome::MarkedDone { evidence_iteration: 3, .. }));
    assert_eq!(t.count(StatusKind::Done), 2);
    assert!(t.subtasks.iter().all(|s| s.evidence_signature.as_deref() == Some("sig")));
}

#[test]
fn an_accepted_mark_resolves_one() {
    let mut t = tracker(&["a", "b", "c"]);
    assert_eq!(t.incomplete_count(), 3);
    t.mark_failed("b", "r".into());
    assert_eq!(t.incomplete_count(), 2);
    assert_eq!(t.inline_status(), "0/3 done (0 skipped, 1 failed), 2 pending");
    assert_eq!(
        t.mark_exhausted("c", "too long".into()),
        MarkOutcome::MarkedExhausted { reason: "too long".into() }
    );
    assert_eq!(t.subtasks[2].status.as_str(), "exhausted");
    assert_eq!(t.record_finish_attempt(), 1);
    t.note_gate_triggered();
    let s = t.write_summary_at(5, "s", "the task");
    assert!(s.contains("[5] [s] counts: total=3 done=0 skipped=0 failed=1 exhausted=1 pending=1\n"), "{s}");
    assert!(s.contains("  [ 2] id=b status=failed reason=r desc=\"do b\""));
    assert!(t.write_summary("s", "the task").contains("task: the task"));
}

// Budgets.

#[test]
fn budgets_are_independent_and_restart() {
    let cap = SubtaskBudget { step_budget: 1, time_budget_secs: 10 };
    let mut b = Budget::from_rows(vec![("a".to_string(), cap), ("b".to_string(), cap)]);
    assert!(!b.is_empty());
    b.tick("a", 100);
    assert!(matches!(b.tick("a", 200), BudgetDecision::StepExhausted { used: 2, max: 1 }));
    assert_eq!(b.steps_used("b"), 0);
    assert!(matches!(b.tick("b", 200), BudgetDecision::StillUnder { steps_used: 1, .. }));
    b.reset("a");
    assert!(matches!(b.tick("a", 300), BudgetDecision::StillUnder { elapsed_secs: 0, .. }));
    assert_eq!(b.steps_used("zzz"), 0);
    assert_eq!(
        BudgetDecision::StepExhausted { used: 2, max: 1 }.is_exhausted(),
        BudgetDecision::StepExhausted { used: 2, max: 1 }.reason().is_some()
    );
    assert_eq!(BudgetDecision::UnknownSubtask.reason(), None);
}

#[test]
fn the_first_reason_of_a_budget_stays() {
    let cap = SubtaskBudget { step_budget: 0, time_budget_secs: 5 };
    let mut b = Budget::from_rows(vec![("a".to_string(), cap)]);
    let mut t = tracker(&["a"]);
    b.tick_and_enforce(&mut t, "a", 0);
    let d = b.tick_and_enforce(&mut t, "a", 9);
    assert_eq!(d, BudgetDecision::TimeExhausted { elapsed: 9, limit: 5 });
    let first = t.subtasks[0].status.clone();
    b.tick_and_enforce(&mut t, "a", 99);
    assert_eq!(t.subtasks[0].status, first);
    assert_eq!(d.reason().as_deref(), first.reason());
}

#[test]
fn plans_give_budgets() {
    let plan = mew_agent::research::ResearchPlan {
        goal: "g".into(),
        platforms: vec![],
        synthesis_hint: String::new(),
        overall_deadline_secs: None,
        is_research: true,
        matched_pattern: String::new(),
    };
    assert!(budget_for(&plan).is_empty());
    assert!(mew_agent::budget::now_secs() > 1_600_000_000);
}

// Pacing.

#[test]
fn paced_tools_are_known_by_name() {
    for a in [
        PacedAction::Click,
        PacedAction::Type,
        PacedAction::Scroll,
        PacedAction::PressKey,
        PacedAction::Navigate,
    ] {
        assert_eq!(PacedAction::from_tool_name(a.as_str()), Some(a));
    }
}

#[test]
fn delays_lie_in_the_range() {
    let config =
        PacingConfig { enabled: true, min_delay_ms: 10, max_delay_ms: 12, streak_threshold: 2 };
    let mut g = PacingGuard::new(config);
    g.before_action_with("type", 0);
    let d = g.before_action_with("type", 2);
    assert_eq!(d, PacingDecision::Pace { delay: Duration::from_millis(12), streak: 2 });
    assert_eq!(g.current_streak_action(), Some(PacedAction::Type));
    assert_eq!(g.current_streak_count(), 2);
    assert_eq!(
        log_pacing_decision_at(3, "s", PacedAction::Type, &d),
        Some("[3] [s] PACING: action=type streak=2 delay_ms=12\n\n".to_string())
    );
    assert_eq!(log_pacing_decision_at(3, "s", PacedAction::Type, &PacingDecision::NoPacing), None);
    let mut seen = [false; 3];
    for _ in 0..300 {
        if let PacingDecision::Pace { delay, .. } = g.before_action("type") {
            seen[delay.as_millis() as usize - 10] = true;
        }
    }
    assert_eq!(seen, [true; 3]);
}

// Challenges.

#[test]
fn names_of_one_host_fold_together() {
    for name in ["WWW.Example.COM", "www.example.com", "Example.com"] {
        assert_eq!(normalize_host(name), "example.com");
        assert_eq!(normalize_host(&normalize_host(name)), "example.com");
    }
    assert_eq!(normalize_host("日本.jp"), "日本.jp");
    assert_eq!(normalize_host("www.日本.JP"), "日本.jp");
    assert_eq!(normalize_host("ab\u{20ac}c"), "ab\u{20ac}c");
    assert_eq!(normalize_host(""), "");
}

#[test]
fn stored_rows_are_taken_back_for_the_present_version_alone() {
    let row = |host: &str, n: u32| {
        let mut counts = SortedMap::new();
        counts.set("hcaptcha".to_string(), n);
        CaptchaTelemetryRecord {
            host: host.into(),
            counts,
            first_seen_unix_secs: 1,
            last_seen_unix_secs: 2,
            expected: false,
        }
    };
    let t = CaptchaTelemetry::restore(1, vec![row("b", 1), row("a", 2), row("b", 7)], None);
    let rows = t.snapshot();
    assert_eq!(rows.len(), 2);
    assert_eq!((rows[0].host.as_str(), rows[1].host.as_str()), ("a", "b"));
    assert_eq!(rows[1].total(), 7);
    let t = CaptchaTelemetry::restore(2, vec![row("b", 1)], Some("p".into()));
    assert!(t.snapshot().is_empty());
    assert_eq!(t.persist_path.as_deref(), Some("p"));
}

#[test]
fn challenges_are_stamped_and_listed_in_order() {
    let mut t = CaptchaTelemetry::new(None);
    t.record_at("b.com", ChallengeKind::RecaptchaV2, 5);
    t.record_at("b.com", ChallengeKind::Hcaptcha, 9);
    t.mark_expected_at("a.com", 7);
    let rows = t.snapshot();
    assert_eq!(rows[0].host, "a.com");
    assert_eq!(rows[0].total(), 0);
    assert_eq!((rows[1].first_seen_unix_secs, rows[1].last_seen_unix_secs), (5, 9));
    let s = t.summary();
    assert!(s.find("hcaptcha: 1").unwrap() < s.find("recaptcha_v2: 1").unwrap(), "{s}");
    assert!(s.find("a.com").unwrap() < s.find("b.com").unwrap());
}

#[test]
fn no_challenge_is_solved_beyond_the_cap() {
    let mut c = CaptchaConfig::default();
    assert!(!c.should_solve(ChallengeKind::Hcaptcha, 0));
    c.enabled = true;
    c.solve_kinds = vec![ChallengeKind::Hcaptcha];
    c.per_session_cap = 0;
    assert!(!c.should_solve(ChallengeKind::Hcaptcha, 0));
}

#[test]
fn maps_are_sorted_by_their_keys() {
    let mut m: SortedMap<u32> = SortedMap::new();
    for k in ["b", "", "é", "a", "b"] {
        m.set(k.to_string(), k.len() as u32);
    }
    assert_eq!(m.len(), 4);
    let keys: Vec<&str> = (0..m.len()).map(|i| m.key(i)).collect();
    assert_eq!(keys, vec!["", "a", "b", "é"]);
    assert_eq!(m.get("é").copied(), Some(2));
    assert_eq!(m.get("zz"), None);
    assert!(less("Z", "a") && !less("a", "a") && less("a", "aa"));
}

// Chat.

#[test]
fn replies_are_never_empty_and_name_the_reason() {
    let chat = default_chat_agent();
    let h = Handoff::bare("t", "m");
    for status in [BrowserStatus::Done, BrowserStatus::Partial, BrowserStatus::Failed] {
        assert!(!chat.synthesize_reply(&result(status, "", ""), &[], &h).is_empty());
    }
    let r = result(BrowserStatus::Failed, "", "no network");
    assert!(chat.synthesize_reply(&r, &[], &h).contains("no network"));
    assert!(synthesize_failed(&r).contains("no network"));
    assert!(assert_result_reflected_in_chat_reply(&r, &chat.synthesize_reply(&r, &[], &h)).is_ok());
}

#[test]
fn failed_research_names_its_reason() {
    let mut r = result(BrowserStatus::Failed, "Found 1.", "ran out of time");
    r.findings = vec![ResearchFinding {
        id: "f".into(),
        platform: "P".into(),
        title: Some("T".into()),
        company: None,
        email: None,
        url: None,
        note: String::new(),
        added_at_secs: 0,
    }];
    let out = synthesize_research(&r);
    assert!(out.starts_with("Found 1."));
    assert!(out.contains("1. T") && out.contains("Failed: ran out of time"), "{out}");
}

#[test]
fn message_ids_are_padded() {
    assert_eq!(message_id(12, 34), "chat:12:000034");
    assert_eq!(message_id(0, 999_999), "chat:0:999999");
}

#[test]
fn cached_answers_are_read_back() {
    let mut cache = ClassifyCache::new();
    let history = vec![ConversationMessage { role: "user".into(), content: "hi".into() }];
    assert_eq!(cache.recall("go", &history), None);
    cache.remember("go", &history, &Some(Intent::BrowserTask("go".into())));
    cache.remember("yo", &history, &Some(Intent::Chat("hey".into())));
    cache.remember("no", &history, &None);
    assert_eq!(cache.len(), 2);
    assert_eq!(cache.recall("go", &history), Some(Intent::BrowserTask("go".into())));
    assert_eq!(cache.recall("yo", &history), Some(Intent::Chat("hey".into())));
    assert_eq!(cache.recall("go", &[]), None);
    for i in 0..200u64 {
        cache.store(i, Intent::Chat("x".into()));
        assert_eq!(cache.lookup(i), Some(Intent::Chat("x".into())));
        assert!(cache.len() <= 128);
    }
    let config = default_chat_agent().config;
    let chat = ChatAgent::new(config);
    assert_eq!(chat.recall_intent("go", &history), None);
    let mut cache = ClassifyCache::new();
    cache.remember("go", &history, &Some(Intent::Chat("a".into())));
    let chat = chat.with_classify_cache(cache);
    assert_eq!(chat.recall_intent("go", &history), Some(Intent::Chat("a".into())));
}

#[test]
fn turns_are_answered_or_dispatched() {
    let chat = default_chat_agent();
    let mut sink = EventLog::new();
    let step = continue_turn(&mut sink, &chat, "m1", Intent::Chat("hello".into()), false);
    assert_eq!(step, TurnStep::Replied("hello".into()));
    assert_eq!(
        sink.events,
        vec![OrchestratorEvent::ChatReply {
            originating_message_id: "m1".into(),
            text: "hello".into(),
        }]
    );
    let task = Intent::BrowserTask("open a and close b".into());
    let mut sink = EventLog::new();
    assert_eq!(continue_turn(&mut sink, &chat, "m2", task.clone(), false), TurnStep::NoPage);
    assert!(no_page_message().starts_with("orchestrator: browser_task intent requires"));
    match continue_turn(&mut sink, &chat, "m2", task, true) {
        TurnStep::Dispatch(h) => {
            assert_eq!(h.originating_message_id, "m2");
            assert_eq!(h.subtasks.len(), 2);
        }
        other => panic!("expected Dispatch, got {other:?}"),
    }
    assert!(sink.events.is_empty());
}

#[test]
fn unstarted_tasks_are_answered() {
    let r = task_result(None);
    assert_eq!(r.status, BrowserStatus::Failed);
    assert_eq!(r.session_id, "unknown-session");
    let chat = default_chat_agent();
    let mut sink = EventLog::new();
    let h = Handoff::bare("t", "m");
    let reply = finish_browser_task(&mut sink, &chat, &h, &r, &[]);
    assert!(reply.contains("I couldn't start the browser task."));
    assert_eq!(sink.events.len(), 3);
    let done = agent_run_result("s", Ok("fine".into()), None);
    assert_eq!((done.status, done.summary.as_str()), (BrowserStatus::Done, "fine"));
    assert_eq!(task_result(Some(done.clone())), done);
    let failed = agent_run_result("s", Err("bad".into()), Some("log".into()));
    assert_eq!((failed.status, failed.failure_reason.as_str()), (BrowserStatus::Failed, "bad"));
}

// Todos and the planner.

#[test]
fn evidence_has_to_match_and_be_newer() {
    let mut t = Todo::new(TodoId("a".into()), "do a", None);
    let sig = planner_signature("page");
    match t.mark_done("len:0", "page", 1, 5, 3) {
        MarkTodoOutcome::StaleEvidence(m) => {
            assert_eq!(m.planner_signature, sig);
            assert_eq!(m.worker_signature, "len:0");
        }
        other => panic!("expected StaleEvidence, got {other:?}"),
    }
    assert_eq!(t.attempts, 1);
    assert!(matches!(t.mark_done(&sig, "page", 1, 5, 3), MarkTodoOutcome::StaleEvidence(_)));
    assert!(assert_todo_done(&t, None).is_err());
    match t.mark_done(&sig, "page", 2, 6, 9) {
        MarkTodoOutcome::MarkedDone { evidence } => {
            assert_eq!(evidence.verified_at_secs, 6);
            assert!(assert_todo_done(&t, Some(&evidence)).is_ok());
            assert!(assert_todo_rejected(&t, None).is_err());
        }
        other => panic!("expected MarkedDone, got {other:?}"),
    }
    assert!(matches!(t.mark_done(&sig, "page", 3, 7, 9), MarkTodoOutcome::AlreadyTerminal { .. }));
}

#[test]
fn signatures_cut_long_pages_at_their_edges() {
    let long = "a".repeat(500);
    let other = format!("{}b{}", "a".repeat(250), "a".repeat(249));
    assert_eq!(planner_signature(&long), planner_signature(&other));
    assert_ne!(planner_signature(&long), planner_signature(&"a".repeat(501)));
    assert_ne!(planner_signature("a"), planner_signature("b"));
    assert!(is_signable(&long));
    assert!(!is_signable(&format!("a{}", "é".repeat(200))));
    assert!(is_signable(&"é".repeat(200)));
}

fn two_todos() -> (Planner, EventLog) {
    let mut h = Handoff::bare("t", "m");
    h.subtasks = vec![HandoffSubTask::new("a", "open a"), HandoffSubTask::new("b", "wait b")];
    (Planner::start(&h), EventLog::new())
}

#[test]
fn a_plan_is_done_when_every_todo_is_verified() {
    let (mut p, mut sink) = two_todos();
    for i in 0..2 {
        assert_eq!(p.begin_todo(false, &mut sink), PlannerStep::Submit);
        let page = format!("page {i}");
        let r = TodoResult::success(p.todos[i].id.clone(), &planner_signature(&page), &page, 1);
        assert_eq!(p.worker_reported(r, 9, &mut sink), PlannerStep::Next);
    }
    assert_eq!(p.begin_todo(false, &mut sink), PlannerStep::Finished);
    let r = p.into_result();
    assert_eq!(r.status, BrowserStatus::Done);
    assert_eq!(r.key_findings.len(), 2);
    assert!(r.key_findings.iter().all(|f| f.status == "done" && f.evidence_signature.is_some()));
    assert_eq!(r.final_snapshot_signature, Some(planner_signature("page 1")));
    assert_eq!(sink.events.len(), 4);
}

#[test]
fn wrong_signatures_use_up_the_attempts() {
    let (mut p, mut sink) = two_todos();
    p.begin_todo(false, &mut sink);
    for n in 1..=3 {
        let r = TodoResult::success(p.todos[0].id.clone(), "len:0", "page", n);
        let step = p.worker_reported(r, 9, &mut sink);
        assert_eq!(step, if n < 3 { PlannerStep::Submit } else { PlannerStep::Next });
    }
    assert!(matches!(&p.todos[0].status, TodoStatus::Failed { .. }));
    p.begin_todo(false, &mut sink);
    p.submit_failed("no worker", &mut sink);
    assert_eq!(p.todos[1].status, TodoStatus::Failed { reason: "no worker".into() });
    assert_eq!(p.begin_todo(false, &mut sink), PlannerStep::Finished);
    let r = p.into_result();
    assert_eq!(r.status, BrowserStatus::Partial);
    assert_eq!(r.failure_reason, "");
    let shown: Vec<(&str, &str)> =
        r.key_findings.iter().map(|f| (f.id.as_str(), f.status.as_str())).collect();
    assert_eq!(shown, vec![("a", "failed"), ("b", "failed")]);
    assert_eq!(r.key_findings[0].reason, "evidence mismatched 3 times (replan required)");
    assert_eq!(r.key_findings[1].reason, "no worker");
    assert_eq!(r.key_findings[1].description, "wait b");
}

#[test]
fn a_shutting_down_pool_fails_the_rest() {
    let (mut p, mut sink) = two_todos();
    assert_eq!(p.begin_todo(true, &mut sink), PlannerStep::Next);
    assert_eq!(p.begin_todo(true, &mut sink), PlannerStep::Next);
    assert_eq!(p.begin_todo(true, &mut sink), PlannerStep::Finished);
    let r = p.into_result();
    assert_eq!(r.status, BrowserStatus::Failed);
    assert_eq!(r.key_findings.len(), 2);
    assert!(r.key_findings.iter().all(|f| f.reason == "pool shutting down"));
    assert_eq!(r.failure_reason, "pool shutting down");
    assert!(sink.events.is_empty());
}

#[test]
fn cancelled_and_failed_workers_are_reported() {
    let (mut p, mut sink) = two_todos();
    p.begin_todo(false, &mut sink);
    let r = TodoResult::cancelled(p.todos[0].id.clone(), "", "", 0);
    assert_eq!(p.worker_reported(r, 9, &mut sink), PlannerStep::Next);
    assert!(matches!(&sink.events[1], OrchestratorEvent::TodoRejected { evidence: None, .. }));
    p.begin_todo(false, &mut sink);
    for n in 1..=3 {
        let r = TodoResult::failure(p.todos[1].id.clone(), "crash", "", "", 0);
        let step = p.worker_reported(r, 9, &mut sink);
        assert_eq!(step, if n < 3 { PlannerStep::Submit } else { PlannerStep::Next });
    }
    let r = p.into_result();
    assert_eq!(r.key_findings[0].reason, "cancelled by user");
    assert_eq!(r.key_findings[1].reason, "crash");
}

// Evaluation.

#[test]
fn reports_are_rendered_exactly() {
    let mut r = EvalReport::new(0);
    assert_eq!(r.total_elapsed(), Duration::from_millis(0));
    for (id, passed) in [("a", true), ("b", false)] {
        r.push(RunMetrics {
            scenario_id: id.into(),
            passed,
            status: BrowserStatus::Done,
            subtask_count: 2,
            step_count: 3,
            elapsed: Duration::from_millis(12),
            failure_modes_hit: vec!["x".into(), "y".into()],
            failure_reason: String::new(),
            chat_reply: "ok".into(),
        });
    }
    assert_eq!(r.passed(), 1);
    assert_eq!(r.total_elapsed(), Duration::from_millis(24));
    let md = r.to_markdown("50");
    assert!(md.contains("| a | ✓ | done | 2 | 3 | 12 | x, y |\n"), "{md}");
    assert!(md.ends_with("\n**Pass rate**: 50% (1/2)  |  **Total time**: 24 ms\n"), "{md}");
    let rate = r.passed() as f64 / r.rows.len() as f64;
    assert_eq!(format!("{:.0}", rate * 100.0), "50");
}

#[test]
fn fields_with_commas_quotes_or_breaks_are_quoted() {
    assert_eq!(escape_csv("plain"), "plain");
    assert_eq!(escape_csv("a,b"), "\"a,b\"");
    assert_eq!(escape_csv("say \"hi\""), "\"say \"\"hi\"\"\"");
    assert_eq!(escape_csv("a\nb"), "\"a\nb\"");
}

#[test]
fn scenarios_run_at_a_given_time() {
    let chat = default_chat_agent();
    let scenarios = default_scenarios();
    let outcome = run_scenario_at(&scenarios[0], &chat, 42);
    assert!(outcome.passed, "{outcome:?}");
    let report = report_from_outcome(&scenarios[0], outcome, Duration::from_millis(3));
    assert_eq!(report.rows.len(), 1);
    assert_eq!(report.rows[0].elapsed, Duration::from_millis(3));
    assert_eq!(all_planner_shortcut_scenarios().len(), 3);
}

#[test]
fn partial_results_list_what_is_open() {
    let chat = default_chat_agent();
    let mut r = result(BrowserStatus::Partial, "Half.", "");
    r.key_findings = vec![finding("a", "done"), finding("b", "pending")];
    let reply = chat.synthesize_reply(&r, &[], &Handoff::bare("t", "m"));
    assert!(reply.starts_with("Half."));
    assert!(reply.contains("b"));
    assert!(passthrough_check(&"é".repeat(280)).is_some());
    assert!(passthrough_check(&"é".repeat(281)).is_none());
}
