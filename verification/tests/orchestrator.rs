use mew_agent::chat_agent::ChatAgent;
use mew_agent::handoff::{BrowserResult, BrowserStatus, Handoff, KeyFinding};
use mew_agent::orchestrator::{
    acknowledge_steering, begin_browser_task, finish_browser_task, EventLog, OrchestratorEvent,
};
use mew_agent::{AgentConfig, OpencodeZenConfig, ProviderConfig};

#[test]
fn round_trip_done_produces_natural_language_chat_reply() {
    let config = ProviderConfig {
        opencode_zen: OpencodeZenConfig {
            base_url: "http://test".into(),
            api_key: "test".into(),
            default_model: "test".into(),
            max_iterations: 1,
            max_tokens: None,
        },
        browser: None,
        agent: AgentConfig::default(),
    };
    let chat_agent = ChatAgent::new(config);
    let result = BrowserResult::done(
        "session_1",
        "I sent your message to Alice.",
        vec![KeyFinding {
            id: "step-1".into(),
            description: "open instagram".into(),
            status: "done".into(),
            reason: String::new(),
            evidence_signature: None,
        }],
        Some("len:abcd1234".into()),
        Some("/tmp/transcript.log".into()),
    );
    let handoff = Handoff::bare("go to instagram and text alice hi", "chat:1:0");
    let reply = chat_agent.synthesize_reply(&result, &[], &handoff);
    assert!(!reply.is_empty());
    assert!(
        reply.contains("Alice"),
        "reply should mention Alice: {reply}",
    );
    assert!(
        !reply.contains('{') && !reply.contains('}'),
        "reply must not contain raw JSON: {reply}",
    );
}
#[test]
fn synthesize_failed_round_trip_always_emits_a_reply() {
    let config = ProviderConfig {
        opencode_zen: OpencodeZenConfig {
            base_url: "http://test".into(),
            api_key: "test".into(),
            default_model: "test".into(),
            max_iterations: 1,
            max_tokens: None,
        },
        browser: None,
        agent: AgentConfig::default(),
    };
    let chat_agent = ChatAgent::new(config);
    let r = BrowserResult::failure("s1", "Chrome failed to launch", None);
    let handoff = Handoff::bare("anything", "chat:1:0");
    let reply = chat_agent.synthesize_reply(&r, &[], &handoff);
    assert!(!reply.is_empty());
    assert!(reply.contains("Chrome failed to launch"));
}
#[test]
fn acknowledge_steering_emits_event() {
    let mut sink = EventLog::new();
    acknowledge_steering(&mut sink, "chat:42:1", "stop, that's wrong");
    let events = sink.events;
    assert_eq!(events.len(), 1);
    match &events[0] {
        OrchestratorEvent::SteeringAcknowledged {
            originating_message_id,
            text,
        } => {
            assert_eq!(originating_message_id, "chat:42:1");
            assert_eq!(text, "stop, that's wrong");
        }
        other => panic!("expected SteeringAcknowledged, got {other:?}"),
    }
}
#[test]
fn dispatch_emits_task_started_then_chat_reply_then_task_completed() {
    let config = ProviderConfig {
        opencode_zen: OpencodeZenConfig {
            base_url: "http://test".into(),
            api_key: "test".into(),
            default_model: "test".into(),
            max_iterations: 1,
            max_tokens: None,
        },
        browser: None,
        agent: AgentConfig::default(),
    };
    let chat_agent = ChatAgent::new(config);
    let result = BrowserResult::done(
        "session_phase4",
        "I opened instagram and sent the message.",
        vec![
            KeyFinding {
                id: "step-1".into(),
                description: "open instagram".into(),
                status: "done".into(),
                reason: String::new(),
                evidence_signature: None,
            },
            KeyFinding {
                id: "step-2".into(),
                description: "send the message".into(),
                status: "done".into(),
                reason: String::new(),
                evidence_signature: None,
            },
        ],
        Some("len:abcd".into()),
        Some("/tmp/transcript.log".into()),
    );
    let handoff = Handoff::bare("go to instagram and text alice hi", "chat:phase4:0");
    let mut sink = EventLog::new();
    begin_browser_task(&mut sink, &handoff);
    finish_browser_task(&mut sink, &chat_agent, &handoff, &result, &[]);
    let events = sink.events;
    assert_eq!(events.len(), 4, "expected exactly 4 events, got {}: {events:?}", events.len());
    assert!(matches!(events[0], OrchestratorEvent::TaskStarted { .. }));
    assert!(matches!(events[1], OrchestratorEvent::BrowserResultReady { .. }));
    assert!(matches!(events[2], OrchestratorEvent::ChatReply { .. }));
    match &events[3] {
        OrchestratorEvent::TaskCompleted {
            originating_message_id,
            status,
            step_count,
            summary,
        } => {
            assert_eq!(originating_message_id, "chat:phase4:0");
            assert_eq!(*status, BrowserStatus::Done);
            assert_eq!(*step_count, 2);
            assert!(summary.contains("instagram"));
        }
        other => panic!("expected TaskCompleted, got {other:?}"),
    }
}
