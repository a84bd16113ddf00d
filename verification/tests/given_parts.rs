use mew_agent::agent::{render_plan_block, Agent, LogEntry};
use mew_agent::captcha_telemetry::{CaptchaTelemetry, SCHEMA_VERSION};
use mew_agent::chat_agent::ChatAgent;
use mew_agent::chat::UserMessage;
use mew_agent::checklist_tools::{read_items, DeclaredItem};
use mew_agent::classify_cache::ClassifyCache;
use mew_agent::eval::runner::default_chat_agent;
use mew_agent::history::HistoryMessage;
use mew_agent::loop_order::{next_stage, Signal, Stage};
use mew_agent::model_reply::{
    closing_from, model_call, read_closing, reply_content, usage_from, usage_of, TokenUsage,
};
use mew_agent::nav::domain_permitted;
use mew_agent::page_tools::{NavResolution, NavStep};
use mew_agent::planner::plan;
use mew_agent::resilience::ChallengeKind;
use mew_agent::router::Intent;
use mew_agent::tools::{make_call, read_args, ToolArgs, ToolCall};

fn no_args() -> ToolArgs {
    read_args("{}")
}

fn last_content(agent: &Agent) -> Option<String> {
    agent.history_snapshot().last().and_then(|m: &HistoryMessage| m.content.clone())
}

#[test]
fn arguments_are_read_by_their_keys() {
    let a = read_args(
        r#"{"url":"u","ref":"r","text":"t","direction":"up","key":"k","result":"x",
            "items":[1,{"id":"a"}],"id":"i","snapshot_signature":"s","reason":"w"}"#,
    );
    assert_eq!(a.url.as_deref(), Some("u"));
    assert_eq!(a.reference.as_deref(), Some("r"));
    assert_eq!(a.text.as_deref(), Some("t"));
    assert_eq!(a.direction.as_deref(), Some("up"));
    assert_eq!(a.key.as_deref(), Some("k"));
    assert_eq!(a.result.as_deref(), Some("x"));
    assert_eq!(a.items, Some(vec!["1".to_string(), r#"{"id":"a"}"#.to_string()]));
    assert_eq!(a.id.as_deref(), Some("i"));
    assert_eq!(a.signature.as_deref(), Some("s"));
    assert_eq!(a.reason.as_deref(), Some("w"));
    assert!(read_args("no json").url.is_none());
    assert!(read_args(r#"{"url":7}"#).url.is_none());
}

#[test]
fn calls_are_made_of_a_name_and_arguments() {
    assert_eq!(make_call("navigate", no_args()), ToolCall::Navigate { url: String::new() });
    let mut a = no_args();
    a.direction = Some("up".into());
    assert_eq!(make_call("scroll", a), ToolCall::Scroll { up: true });
    let mut a = no_args();
    a.direction = Some("sideways".into());
    assert_eq!(make_call("scroll", a), ToolCall::Scroll { up: false });
    assert_eq!(make_call("scroll", no_args()), ToolCall::Scroll { up: false });
    let mut a = no_args();
    a.id = Some("a".into());
    a.signature = Some("len:1".into());
    assert_eq!(
        make_call("mark_subtask_done", a),
        ToolCall::MarkDone { id: "a".into(), signature: "len:1".into() }
    );
    assert_eq!(
        make_call("declare_subtasks", no_args()),
        ToolCall::DeclareSubtasks { items: Vec::new() }
    );
    assert_eq!(make_call("fly", no_args()), ToolCall::Unknown { name: "fly".into() });
}

#[test]
fn usage_prefers_the_cached_count_in_the_details() {
    let usage = |total, prompt, completion, cached, billed| TokenUsage {
        total,
        prompt,
        completion,
        cached,
        billed,
    };
    assert_eq!(
        usage_from(Some(9), Some(7), Some(2), Some(3), Some(5)),
        usage(9, 7, 2, 3, 4)
    );
    assert_eq!(usage_from(Some(9), Some(7), None, None, Some(8)), usage(9, 7, 0, 8, 0));
    assert_eq!(usage_from(None, None, None, None, None), usage(0, 0, 0, 0, 0));
    assert_eq!(
        usage_of(r#"{"usage":{"total_tokens":9,"prompt_tokens":7,"cached_tokens":1}}"#),
        usage(9, 7, 0, 1, 6)
    );
}

#[test]
fn the_first_call_is_picked() {
    let mut a = Agent::new_for_test("t");
    let before = a.history_snapshot().len();
    assert_eq!(a.pick_call(Some(vec!["x".into(), "y".into()])), Some("x".to_string()));
    assert_eq!(a.history_snapshot().len(), before);
    assert_eq!(a.pick_call(Some(Vec::new())), None);
    assert_eq!(
        last_content(&a).as_deref(),
        Some("You didn't call any tools. Please use a tool to proceed.")
    );
    assert_eq!(a.pick_call(None), None);
    assert_eq!(last_content(&a).as_deref(), Some("Please output a valid tool call."));
    let call = model_call(None, None, None);
    assert_eq!((call.id.as_str(), call.name.as_str(), call.args.as_str()), ("unknown_id", "", "{}"));
}

#[test]
fn a_reply_without_a_list_of_choices_holds_no_message() {
    let odd = r#"{"choices":{"0":{"message":{"role":"assistant","content":"hi","tool_calls":[{"id":"c"}]}}}}"#;
    assert_eq!(reply_content(odd), None);
    assert_eq!(read_closing(odd), None);
    let mut a = Agent::new_for_test("t");
    a.accept_reply(odd);
    let last = a.history_snapshot().pop().unwrap();
    assert_eq!((last.raw.as_deref(), last.role), (Some("null"), None));
    assert!(a.next_call(odd).is_none());
    assert_eq!(last_content(&a).as_deref(), Some("Please output a valid tool call."));
    assert_eq!(
        reply_content(r#"{"choices":[{"message":{"content":"hi"}}]}"#).as_deref(),
        Some("hi")
    );
}

#[test]
fn closing_words_are_trimmed() {
    assert_eq!(closing_from(Some("  Done. \n".into())).as_deref(), Some("Done."));
    assert_eq!(closing_from(Some(" \t".into())), None);
    assert_eq!(closing_from(None), None);
}

#[test]
fn declared_items_need_an_id_and_a_description() {
    let item = |id: Option<&str>, description: Option<&str>| DeclaredItem {
        id: id.map(Into::into),
        description: description.map(Into::into),
        json: "{..}".into(),
    };
    let mut a = Agent::new_for_test("t");
    a.session_id = "s".into();
    assert_eq!(
        a.declare_items(&vec![item(Some("a"), Some("do a")), item(None, Some("x"))], 7),
        "ERROR: declare_subtasks item missing 'id': {..}"
    );
    assert_eq!(
        a.declare_items(&vec![item(Some("a"), Some(""))], 7),
        "ERROR: declare_subtasks item 'a' missing 'description'"
    );
    assert!(!a.completeness().has_subtasks());
    let answer = a.declare_items(&vec![item(Some("a"), Some("do a"))], 7);
    assert!(answer.starts_with("Declared 1 subtask(s)."));
    assert!(answer.ends_with("\n  - id=a desc=\"do a\""));
    let log = a.take_log();
    assert_eq!(log.len(), 1);
    assert!(
        matches!(&log[0], LogEntry::Line(l) if l == "[7] [s] DECLARE: subtasks=1 ids=[\"a\"]\n\n")
    );
    let read = read_items(&vec![r#"{"id":"b","description":4}"#.to_string()]);
    assert_eq!(read[0].id.as_deref(), Some("b"));
    assert!(read[0].description.is_none());
    assert_eq!(read[0].json, r#"{"id":"b","description":4}"#);
}

#[test]
fn domains_are_held_to_the_list() {
    let list = Some(vec!["example.com".to_string()]);
    let domain = |d: &str| Some(d.to_string());
    assert!(domain_permitted(&domain("example.com"), &list));
    assert!(domain_permitted(&domain("www.example.com"), &list));
    assert!(!domain_permitted(&domain("badexample.com"), &list));
    assert!(domain_permitted(&None, &list));
    assert!(domain_permitted(&domain("anything.net"), &None));

    let mut a = Agent::new_for_test("t");
    a.config.agent.allowed_domains = list;
    let n = NavResolution { original_input: "x".into(), url: "u".into(), path: "map-hit".into() };
    match a.begin_navigation_to(&n, &domain("other.net"), domain("other.net"), 1) {
        NavStep::Refuse { result } => assert_eq!(
            result,
            "ERROR: Action failed (Navigation). Domain for URL 'u' (resolved from 'x' via map-hit) is not in the allowlist. Do not attempt this domain."
        ),
        NavStep::Go { .. } => panic!("a domain that is not listed was let in"),
    }
    match a.begin_navigation_to(&n, &domain("example.com"), domain("example.com"), 1) {
        NavStep::Go { host } => assert_eq!(host.as_deref(), Some("example.com")),
        NavStep::Refuse { .. } => panic!("a listed domain was refused"),
    }
}

#[test]
fn stored_rows_come_back() {
    let mut t = CaptchaTelemetry::new(None);
    t.record_at("www.A.com", ChallengeKind::Hcaptcha, 5);
    t.record_at("a.com", ChallengeKind::Hcaptcha, 6);
    t.mark_expected("b.com");
    let back = CaptchaTelemetry::restore(SCHEMA_VERSION, t.snapshot(), Some("p".into()));
    assert_eq!(back.snapshot().len(), 2);
    assert_eq!(back.summary(), t.summary());
    assert_eq!(back.count("a.com", ChallengeKind::Hcaptcha), Some(2));
    assert_eq!(back.persist_path.as_deref(), Some("p"));
    let other = CaptchaTelemetry::restore(SCHEMA_VERSION + 1, t.snapshot(), None);
    assert!(other.snapshot().is_empty());
}

#[test]
fn the_chat_remembers_only_with_a_memory() {
    let intent = || Some(Intent::Chat("hello".into()));
    let mut chat: ChatAgent = default_chat_agent();
    chat.remember_intent("hi", &[], &intent());
    assert!(chat.recall_intent("hi", &[]).is_none());
    let mut chat = default_chat_agent().with_classify_cache(ClassifyCache::new());
    chat.remember_intent("hi", &[], &None);
    assert!(chat.recall_intent("hi", &[]).is_none());
    chat.remember_intent("hi", &[], &intent());
    assert_eq!(chat.recall_intent("hi", &[]), intent());
    assert!(chat.recall_intent("ho", &[]).is_none());
}

#[test]
fn deferred_notes_reach_the_transcript() {
    let note = |t: &str, at: u64| UserMessage { text: t.into(), timestamp_secs: at };
    let notes = vec![note("one", 1), note("two", 2)];
    let mut at_once = Agent::new_for_test("t");
    at_once.session_id = "s".into();
    at_once.drain_and_apply_user_messages(&notes);
    let mut later = Agent::new_for_test("t");
    later.session_id = "s".into();
    later.drain_and_apply_user_messages_defer_file(&vec![note("one", 1)]);
    later.drain_and_apply_user_messages_defer_file(&vec![note("two", 2)]);
    assert!(later.take_log().is_empty());
    later.flush_pending_user_note_writes();
    let lines = |a: &mut Agent| -> Vec<String> {
        a.take_log()
            .into_iter()
            .map(|e| match e {
                LogEntry::Line(l) => l,
                LogEntry::Resilience { .. } => panic!("no page was inspected"),
            })
            .collect()
    };
    let written = lines(&mut later);
    assert_eq!(written, ["[1] [s] USER: one\n\n", "[2] [s] USER: two\n\n"]);
    assert_eq!(written, lines(&mut at_once));
}

#[test]
fn held_calls_wait_at_the_checkpoint() {
    assert_eq!(next_stage(Stage::Judge, Signal::Irreversible), Stage::Hold);
    assert_eq!(next_stage(Stage::Hold, Signal::Done), Stage::Checkpoint);
    assert_eq!(next_stage(Stage::Judge, Signal::Done), Stage::Pace);
}

#[test]
fn every_prompt_carries_the_plan() {
    let mut a = Agent::new_for_test("go to a.com and click b");
    assert!(a.run_preflight_plan_at(1).is_ok());
    let block = render_plan_block(&plan("go to a.com and click b"));
    assert!(block.contains("PLAN (pre-flight decomposition):\n  1. ["));
    for url in ["https://a.com/", "https://a.com/", "https://b.com/"] {
        a.observe_url(url);
        a.show_page("page");
        let head = a.history_snapshot().remove(0);
        assert_eq!(head.role.as_deref(), Some("system"));
        assert!(head.content.unwrap().ends_with(&block));
    }
}
