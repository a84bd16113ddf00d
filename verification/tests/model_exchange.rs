use mew_agent::agent::Agent;
use mew_agent::captcha_telemetry::CaptchaTelemetry;
use mew_agent::history::HistoryMessage;
use mew_agent::model_reply::{
    close_with, read_closing, render_conversation, render_message, usage_of, ClosingStep,
    ModelCall, MODEL_ATTEMPTS, MODEL_GAVE_UP, MODEL_RETRY_SECS,
};
use mew_agent::nav::retry_delay_secs;
use mew_agent::tools::{
    get_tools_schema, normalize_ref, parse_call, tool_names_for_log, tools, ToolCall,
};
use mew_agent::{AgentConfig, OpencodeZenConfig, ProviderConfig};
use serde_json::Value;

fn agent() -> Agent {
    let config = ProviderConfig {
        opencode_zen: OpencodeZenConfig {
            base_url: "http://model".into(),
            api_key: "key".into(),
            default_model: "m1".into(),
            max_iterations: 3,
            max_tokens: None,
        },
        browser: None,
        agent: AgentConfig::default(),
    };
    Agent::new_at(config, "buy \"milk\"", CaptchaTelemetry::new(None), 1000)
}

fn parse(text: &str) -> Value {
    serde_json::from_str(text).unwrap()
}

const REPLY: &str = "{\"choices\":[{\"message\":{\"role\":\"assistant\",\"content\":\"ok\",\"reasoning_details\":[1],\"tool_calls\":[{\"id\":\"c9\",\"function\":{\"name\":\"click\",\"arguments\":\"{\\\"ref\\\":\\\"e1\\\"}\"}}]}}],\"usage\":{\"total_tokens\":30,\"prompt_tokens\":20,\"completion_tokens\":10,\"prompt_tokens_details\":{\"cached_tokens\":5}}}";

#[test]
fn requests_carry_model_conversation_and_tools() {
    let mut a = agent();
    a.history.push(HistoryMessage::tool("c1", "r"));
    let body = parse(&a.step_body());
    assert_eq!(body["model"], Value::from("m1"));
    assert_eq!(body["tool_choice"], Value::from("auto"));
    assert_eq!(body["messages"][0]["role"], Value::from("system"));
    assert_eq!(body["messages"][1]["content"], Value::from("Task: buy \"milk\""));
    assert_eq!(body["messages"][2]["role"], Value::from("tool"));
    assert_eq!(body["messages"][2]["tool_call_id"], Value::from("c1"));
    assert_eq!(body["messages"][2]["content"], Value::from("r"));
    assert_eq!(body["tools"].as_array().unwrap().len(), 12);
    assert_eq!(body.as_object().unwrap().len(), 4);
    assert_eq!(a.config.completions_url(), "http://model/chat/completions");
    assert_eq!(a.config.authorization(), "Bearer key");
}

#[test]
fn the_schema_lists_every_tool_with_its_parameters() {
    let schema = parse(&get_tools_schema());
    let names: Vec<&str> = schema
        .as_array()
        .unwrap()
        .iter()
        .map(|t| t["function"]["name"].as_str().unwrap())
        .collect();
    assert_eq!(names, tool_names_for_log());
    assert_eq!(names[0], "navigate");
    assert_eq!(names[11], "mark_subtask_failed");
    for t in schema.as_array().unwrap() {
        assert_eq!(t["type"], Value::from("function"));
        assert!(!t["function"]["description"].as_str().unwrap().is_empty());
    }
    let snapshot = schema[5]["function"].as_object().unwrap();
    assert!(!snapshot.contains_key("parameters"));
    let scroll = &schema[3]["function"]["parameters"];
    assert_eq!(scroll["properties"]["direction"]["enum"], parse("[\"up\",\"down\"]"));
    let typing = &schema[2]["function"]["parameters"];
    assert_eq!(typing["required"], parse("[\"ref\",\"text\"]"));
    assert_eq!(typing["properties"]["ref"], parse("{\"type\":\"string\"}"));
    let items = &schema[8]["function"]["parameters"]["properties"]["items"];
    assert_eq!(items["type"], Value::from("array"));
    assert_eq!(items["items"]["required"], parse("[\"id\",\"description\"]"));
    let start = format!("{} {}", "Declare the list of sub-items this", "task contains.");
    assert!(schema[8]["function"]["description"].as_str().unwrap().starts_with(&start));
    let done = &schema[9]["function"]["parameters"]["properties"]["id"]["description"];
    assert_eq!(done.as_str(), Some("The subtask id (as declared in declare_subtasks)"));
    assert_eq!(tools().len(), 12);
}

#[test]
fn every_listed_tool_is_known_and_no_other() {
    for name in tool_names_for_log() {
        assert!(!matches!(parse_call(name, "{}"), ToolCall::Unknown { .. }), "{name}");
    }
    assert_eq!(parse_call("dance", "{}"), ToolCall::Unknown { name: "dance".into() });
    assert_eq!(parse_call("", "{}"), ToolCall::Unknown { name: "".into() });
}

#[test]
fn calls_are_read_with_their_arguments() {
    assert_eq!(parse_call("navigate", "{\"url\":\"x\"}"), ToolCall::Navigate { url: "x".into() });
    assert_eq!(parse_call("navigate", "not json"), ToolCall::Navigate { url: "".into() });
    assert_eq!(parse_call("click", "{\"ref\":5}"), ToolCall::Click { reference: "".into() });
    assert_eq!(
        parse_call("type", "{\"ref\":\"e2\",\"text\":\"a \\\"b\\\"\"}"),
        ToolCall::Type { reference: "e2".into(), text: "a \"b\"".into() }
    );
    assert_eq!(parse_call("scroll", "{}"), ToolCall::Scroll { up: false });
    assert_eq!(parse_call("scroll", "{\"direction\":\"up\"}"), ToolCall::Scroll { up: true });
    assert_eq!(parse_call("scroll", "{\"direction\":\"left\"}"), ToolCall::Scroll { up: false });
    assert_eq!(parse_call("press_key", "{\"key\":\"Enter\"}"), ToolCall::PressKey { key: "Enter".into() });
    assert_eq!(parse_call("snapshot", ""), ToolCall::Snapshot);
    assert_eq!(
        parse_call("declare_subtasks", "{\"items\":[{\"id\":\"a\"},2]}"),
        ToolCall::DeclareSubtasks { items: vec!["{\"id\":\"a\"}".into(), "2".into()] }
    );
    assert_eq!(
        parse_call("declare_subtasks", "{\"items\":3}"),
        ToolCall::DeclareSubtasks { items: vec![] }
    );
    assert_eq!(
        parse_call("mark_subtask_failed", "{\"id\":\"a\",\"reason\":\"r\"}"),
        ToolCall::MarkFailed { id: "a".into(), reason: "r".into() }
    );
}

#[test]
fn references_get_their_mark_once() {
    assert_eq!(normalize_ref("e1"), "@e1");
    assert_eq!(normalize_ref("@e1"), "@e1");
    assert_eq!(normalize_ref(""), "@");
    assert_eq!(normalize_ref(&normalize_ref("e1")), normalize_ref("e1"));
}

#[test]
fn usage_is_read_from_the_reply() {
    let u = usage_of(REPLY);
    assert_eq!((u.total, u.prompt, u.completion, u.cached, u.billed), (30, 20, 10, 5, 15));
    let u = usage_of("{\"usage\":{\"prompt_tokens\":3,\"cached_tokens\":9}}");
    assert_eq!((u.total, u.prompt, u.cached, u.billed), (0, 3, 9, 0));
    let u = usage_of("{}");
    assert_eq!((u.total, u.prompt, u.completion, u.cached, u.billed), (0, 0, 0, 0, 0));
}

#[test]
fn tokens_add_up_until_they_do_not_fit() {
    let mut a = agent();
    assert!(a.add_tokens(30));
    assert!(a.add_tokens(12));
    assert_eq!(a.state.total_tokens, 42);
    assert!(!a.add_tokens(u64::MAX));
    assert_eq!(a.state.total_tokens, 42);
}

#[test]
fn replies_enter_the_conversation_without_their_reasoning() {
    let mut a = agent();
    a.accept_reply(REPLY);
    let last = a.history_snapshot().pop().unwrap();
    assert_eq!(last.role.as_deref(), Some("assistant"));
    assert_eq!(last.content.as_deref(), Some("ok"));
    let raw = parse(last.raw.as_deref().unwrap());
    assert!(!raw.as_object().unwrap().contains_key("reasoning_details"));
    assert_eq!(raw["tool_calls"][0]["id"], Value::from("c9"));
    assert_eq!(render_message(&last), last.raw.clone().unwrap());
    let all = parse(&render_conversation(&a.history.messages));
    assert_eq!(all[2], raw);
    a.accept_reply("{}");
    assert_eq!(a.history_snapshot().pop().unwrap().raw.as_deref(), Some("null"));
}

#[test]
fn the_first_call_of_a_reply_counts() {
    let mut a = agent();
    assert_eq!(
        a.next_call(REPLY),
        Some(ModelCall { id: "c9".into(), name: "click".into(), args: "{\"ref\":\"e1\"}".into() })
    );
    assert_eq!(a.history.messages.len(), 2);
    let bare = "{\"choices\":[{\"message\":{\"tool_calls\":[{}]}}]}";
    assert_eq!(
        a.next_call(bare),
        Some(ModelCall { id: "unknown_id".into(), name: "".into(), args: "{}".into() })
    );
}

#[test]
fn replies_without_a_call_are_answered() {
    let mut a = agent();
    assert_eq!(a.next_call("{\"choices\":[{\"message\":{\"tool_calls\":[]}}]}"), None);
    assert_eq!(
        a.history.messages[2].content.as_deref(),
        Some("You didn't call any tools. Please use a tool to proceed.")
    );
    assert_eq!(a.next_call("{\"choices\":[{\"message\":{\"content\":\"hm\"}}]}"), None);
    assert_eq!(
        a.history.messages[3].content.as_deref(),
        Some("Please output a valid tool call.")
    );
}

#[test]
fn the_model_is_asked_five_times() {
    let waits: Vec<Option<u64>> =
        (1..=5).map(|n| retry_delay_secs(n, MODEL_ATTEMPTS, MODEL_RETRY_SECS)).collect();
    assert_eq!(waits, vec![Some(2), Some(4), Some(8), Some(16), None]);
    assert_eq!(MODEL_GAVE_UP, "LLM API returned error consistently after 5 attempts");
}

#[test]
fn closing_words_are_taken_or_asked_for() {
    let mut a = agent();
    assert_eq!(a.closing_step(" I sent it. "), ClosingStep::Ready { text: "I sent it.".into() });
    assert_eq!(a.closing_step("I clicked send"), ClosingStep::Ask);
    a.config.agent.summarization.end_of_task_llm_summary = false;
    assert_eq!(a.closing_step(" I sent it. "), ClosingStep::Raw);
    let body = parse(&a.closing_body("sys", "raw words"));
    assert_eq!(body["model"], Value::from("m1"));
    assert_eq!(body["max_tokens"], Value::from(200));
    assert_eq!(body["temperature"].as_f64(), Some(0.2));
    assert_eq!(body["messages"][0]["content"], Value::from("sys"));
    let asked = body["messages"][1]["content"].as_str().unwrap();
    assert!(asked.contains("Raw finish text: raw words\n\nReply (1-2 sentences"));
}

#[test]
fn closing_words_are_read_and_chosen() {
    let reply = "{\"choices\":[{\"message\":{\"content\":\"  All set. \\n\"}}]}";
    assert_eq!(read_closing(reply), Some("All set.".to_string()));
    assert_eq!(read_closing("{\"choices\":[{\"message\":{\"content\":\"  \"}}]}"), None);
    assert_eq!(read_closing("{}"), None);
    assert_eq!(read_closing("oops"), None);
    assert_eq!(close_with("raw", &Some("words".to_string())), "words");
    assert_eq!(close_with("raw", &Some("".to_string())), "raw");
    assert_eq!(close_with("raw", &None), "raw");
}

#[test]
fn the_smoke_test_asks_for_one_word() {
    let body = parse(&agent().config.smoke_body());
    assert_eq!(body["model"], Value::from("m1"));
    assert_eq!(body["messages"][0]["content"], Value::from("Reply with exactly one word: hello"));
}
