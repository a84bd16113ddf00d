use mew_agent::chat_agent::ChatAgent;
use mew_agent::handoff::{BrowserResult, BrowserStatus, Handoff, KeyFinding};
use mew_agent::research::{ResearchFinding, ResearchPlan, ResearchSubTask};
use mew_agent::{AgentConfig, OpencodeZenConfig, ProviderConfig};

fn dummy_config() -> ProviderConfig {
    ProviderConfig {
        opencode_zen: OpencodeZenConfig {
            base_url: "http://test".into(),
            api_key: "test".into(),
            default_model: "test-model".into(),
            max_iterations: 1,
            max_tokens: None,
        },
        browser: None,
        agent: AgentConfig::default(),
    }
}

fn platform(id: &str, name: &str) -> ResearchSubTask {
    ResearchSubTask {
        id: id.into(),
        platform: name.into(),
        domain: format!("{id}.com"),
        entry_hint: String::new(),
        acceptance: vec![],
        step_budget: 10,
        time_budget_secs: 120,
        query: String::new(),
    }
}

fn platforms() -> Vec<ResearchSubTask> {
    vec![
        platform("linkedin", "LinkedIn"),
        platform("indeed", "Indeed"),
        platform("wellfound", "Wellfound"),
    ]
}

fn research_plan(goal: &str, is_research: bool) -> ResearchPlan {
    ResearchPlan {
        goal: goal.into(),
        platforms: platforms(),
        synthesis_hint: String::new(),
        overall_deadline_secs: None,
        is_research,
        matched_pattern: String::new(),
    }
}

#[test]
fn chat_agent_system_prompt_is_distinct_from_browser_agent() {
    let chat_agent = ChatAgent::new(dummy_config());
    let chat_prompt = chat_agent.system_prompt();
    assert!(
        !chat_prompt.contains("COMPLETENESS PROTOCOL"),
        "chat agent prompt must not contain the browser agent's COMPLETENESS PROTOCOL block",
    );
    assert!(chat_prompt.contains("Decide what the user wants"));
    assert!(chat_prompt.contains("result into a single concise chat reply"));
}

#[test]
fn build_handoff_uses_deterministic_planner() {
    let chat_agent = ChatAgent::new(dummy_config());
    let handoff = chat_agent.build_handoff(
        "go to instagram and text my friend hi",
        "chat:123:000001",
        vec!["enter via search".to_string()],
    );
    assert_eq!(handoff.task_description, "go to instagram and text my friend hi");
    assert!(handoff.subtasks.len() >= 2, "compound task must produce >= 2 subtasks, got {:?}", handoff.subtasks);
    assert_eq!(handoff.constraints, vec!["enter via search".to_string()]);
    assert_eq!(handoff.originating_message_id, "chat:123:000001");
}

#[test]
fn build_handoff_with_bare_task_produces_no_subtasks() {
    let chat_agent = ChatAgent::new(dummy_config());
    let handoff = chat_agent.build_handoff("go to wikipedia", "chat:1:0", vec![]);
    assert_eq!(handoff.task_description, "go to wikipedia");
}

#[test]
fn synthesize_done_uses_summary_and_appends_subtask_footer() {
    let chat_agent = ChatAgent::new(dummy_config());
    let r = BrowserResult::done(
        "s1",
        "Message sent to Alice.",
        vec![
            KeyFinding {
                id: "step-1".into(),
                description: "open instagram".into(),
                status: "done".into(),
                reason: String::new(),
                evidence_signature: None,
            },
            KeyFinding {
                id: "step-2".into(),
                description: "send hi to Alice".into(),
                status: "done".into(),
                reason: String::new(),
                evidence_signature: None,
            },
        ],
        None,
        None,
    );
    let handoff = Handoff::bare("go to instagram and text alice hi", "chat:1:0");
    let out = chat_agent.synthesize_reply(&r, &[], &handoff);
    assert!(out.contains("Message sent to Alice."));
    assert!(out.contains("2 of 2 sub-tasks completed"));
}

#[test]
fn synthesize_partial_lists_outstanding_findings() {
    let chat_agent = ChatAgent::new(dummy_config());
    let r = BrowserResult {
        status: BrowserStatus::Partial,
        summary: "Step 1 worked; step 2 was skipped.".into(),
        key_findings: vec![
            KeyFinding {
                id: "step-1".into(),
                description: "open instagram".into(),
                status: "done".into(),
                reason: String::new(),
                evidence_signature: None,
            },
            KeyFinding {
                id: "step-2".into(),
                description: "send hi".into(),
                status: "skipped".into(),
                reason: "no friend named 'hi'".into(),
                evidence_signature: None,
            },
        ],
        final_snapshot_signature: None,
        raw_transcript_ref: None,
        session_id: "s1".into(),
        failure_reason: String::new(),
        findings: Vec::new(),
    };
    let handoff = Handoff::bare("go to instagram and text hi", "chat:1:0");
    let out = chat_agent.synthesize_reply(&r, &[], &handoff);
    assert!(out.contains("Step 1 worked"));
    assert!(out.contains("Outstanding"));
    assert!(out.contains("step-2"));
    assert!(out.contains("no friend named 'hi'"));
}

#[test]
fn synthesize_failed_includes_reason() {
    let chat_agent = ChatAgent::new(dummy_config());
    let r = BrowserResult::failure("s1", "Chrome failed to launch: ENOENT", None);
    let handoff = Handoff::bare("go to wikipedia", "chat:1:0");
    let out = chat_agent.synthesize_reply(&r, &[], &handoff);
    assert!(
        out.contains("Chrome failed to launch: ENOENT"),
        "failed reply must include the reason, got: {out}",
    );
}

#[test]
fn synthesize_failed_falls_back_to_generic_when_no_reason() {
    let chat_agent = ChatAgent::new(dummy_config());
    let r = BrowserResult {
        status: BrowserStatus::Failed,
        summary: String::new(),
        key_findings: Vec::new(),
        final_snapshot_signature: None,
        raw_transcript_ref: None,
        session_id: "s1".into(),
        failure_reason: String::new(),
        findings: Vec::new(),
    };
    let handoff = Handoff::bare("anything", "chat:1:0");
    let out = chat_agent.synthesize_reply(&r, &[], &handoff);
    assert!(!out.is_empty());
}

#[test]
fn mint_message_id_is_unique_per_call() {
    let chat_agent = ChatAgent::new(dummy_config());
    let a = chat_agent.mint_message_id();
    let b = chat_agent.mint_message_id();
    let _ = (a, b);
}

#[test]
fn mint_message_id_format_is_stable() {
    let chat_agent = ChatAgent::new(dummy_config());
    let id = chat_agent.mint_message_id();
    assert!(id.starts_with("chat:"));
    let parts: Vec<&str> = id.split(':').collect();
    assert_eq!(parts.len(), 3, "expected chat:<secs>:<suffix>, got {id}");
    assert!(parts[1].chars().all(|c| c.is_ascii_digit()));
    assert_eq!(parts[2].len(), 6);
}

#[test]
fn build_research_handoff_produces_typed_plan() {
    let chat_agent = ChatAgent::new(dummy_config());
    let handoff = chat_agent.build_research_handoff(
        "find remote rust jobs",
        "chat:7:0",
        research_plan("find remote rust jobs", true),
    );
    assert!(handoff.research_plan.is_some());
    let plan = handoff.research_plan.as_ref().unwrap();
    assert!(plan.is_research);
    assert!(plan.platforms.len() >= 3, "default platform list should be at least 3 platforms, got {}", plan.platforms.len());
    assert_eq!(handoff.subtasks.len(), plan.platforms.len());
    assert_eq!(handoff.originating_message_id, "chat:7:0");
}

#[test]
fn build_handoff_with_empty_platforms_falls_back_to_clause_splitter() {
    let chat_agent = ChatAgent::new(dummy_config());
    let handoff = chat_agent.build_handoff(
        "go to instagram and text alice hi",
        "chat:1:0",
        vec![],
    );
    assert!(handoff.research_plan.is_none());
    assert!(handoff.subtasks.len() >= 2, "compound task must produce >= 2 subtasks, got {:?}", handoff.subtasks);
}

#[test]
fn build_handoff_with_platforms_routes_to_research_for_research_tasks() {
    let chat_agent = ChatAgent::new(dummy_config());
    let handoff = chat_agent.build_handoff_with_platforms(
        "find me a rust job",
        "chat:1:0",
        vec![],
        &platforms(),
        Some(research_plan("find me a rust job", true)),
    );
    assert!(handoff.research_plan.is_some());
    assert!(handoff.research_plan.as_ref().unwrap().is_research);
}

#[test]
fn build_handoff_with_platforms_falls_back_for_non_research() {
    let chat_agent = ChatAgent::new(dummy_config());
    let handoff = chat_agent.build_handoff_with_platforms(
        "go to wikipedia and search for rust",
        "chat:1:0",
        vec![],
        &platforms(),
        Some(research_plan("go to wikipedia and search for rust", false)),
    );
    assert!(handoff.research_plan.is_none());
    assert!(handoff.subtasks.len() >= 2);
}

#[test]
fn synthesize_research_done_renders_one_line_per_finding() {
    let chat_agent = ChatAgent::new(dummy_config());
    let r = BrowserResult::done_research(
        "s1",
        "Found 3 roles across 2 platforms.",
        vec![KeyFinding {
            id: "linkedin".into(),
            description: "LinkedIn".into(),
            status: "done".into(),
            reason: String::new(),
            evidence_signature: None,
        }],
        None,
        None,
        vec![
            ResearchFinding {
                id: "f1".into(),
                platform: "LinkedIn".into(),
                title: Some("Rust Engineer".into()),
                company: Some("Acme".into()),
                email: Some("alice@acme.com".into()),
                url: Some("https://linkedin.com/jobs/1".into()),
                note: String::new(),
                added_at_secs: 0,
            },
            ResearchFinding {
                id: "f2".into(),
                platform: "Indeed".into(),
                title: Some("Backend Engineer".into()),
                company: Some("Globex".into()),
                email: None,
                url: Some("https://indeed.com/jobs/2".into()),
                note: String::new(),
                added_at_secs: 0,
            },
        ],
    );
    let handoff = Handoff::bare("find rust jobs", "chat:1:0");
    let out = chat_agent.synthesize_reply(&r, &[], &handoff);
    assert!(out.contains("Found 3 roles across 2 platforms."));
    assert!(out.contains("1. Rust Engineer"), "first finding missing: {out}");
    assert!(out.contains("2. Backend Engineer"), "second finding missing: {out}");
    assert!(out.contains("[LinkedIn]"));
    assert!(out.contains("[Indeed]"));
    assert!(out.contains("alice@acme.com"));
    assert!(out.contains("https://indeed.com/jobs/2"));
    assert!(!out.contains('{'));
}

#[test]
fn synthesize_research_partial_lists_outstanding_platforms() {
    let chat_agent = ChatAgent::new(dummy_config());
    let r = BrowserResult {
        status: BrowserStatus::Partial,
        summary: "Found 1 role; 2 platforms had no matching results.".into(),
        key_findings: vec![
            KeyFinding {
                id: "linkedin".into(),
                description: "LinkedIn".into(),
                status: "done".into(),
                reason: String::new(),
                evidence_signature: None,
            },
            KeyFinding {
                id: "wellfound".into(),
                description: "Wellfound".into(),
                status: "exhausted".into(),
                reason: "no listings matched".into(),
                evidence_signature: None,
            },
            KeyFinding {
                id: "weworkremotely".into(),
                description: "WeWorkRemotely".into(),
                status: "exhausted".into(),
                reason: "step budget exhausted: 10/10".into(),
                evidence_signature: None,
            },
        ],
        final_snapshot_signature: None,
        raw_transcript_ref: None,
        session_id: "s1".into(),
        failure_reason: String::new(),
        findings: vec![ResearchFinding {
            id: "f1".into(),
            platform: "LinkedIn".into(),
            title: Some("Rust Engineer".into()),
            company: Some("Acme".into()),
            email: Some("a@b.com".into()),
            url: None,
            note: String::new(),
            added_at_secs: 0,
        }],
    };
    let handoff = Handoff::bare("find rust jobs", "chat:1:0");
    let out = chat_agent.synthesize_reply(&r, &[], &handoff);
    assert!(out.contains("Found 1 role"));
    assert!(out.contains("Rust Engineer"));
    assert!(out.contains("Outstanding"));
    assert!(out.contains("wellfound"));
    assert!(out.contains("no listings matched"));
    assert!(out.contains("weworkremotely"));
    assert!(out.contains("step budget exhausted"));
}

#[test]
fn synthesize_research_with_no_findings_falls_through_to_non_research() {
    let chat_agent = ChatAgent::new(dummy_config());
    let r = BrowserResult::done("s1", "All done.", vec![], None, None);
    let handoff = Handoff::bare("go to wikipedia", "chat:1:0");
    let out = chat_agent.synthesize_reply(&r, &[], &handoff);
    assert!(out.contains("All done."));
    assert!(
        !out.contains("Found"),
        "non-research reply should not contain the research header, got: {out}"
    );
}

#[test]
fn without_platforms_no_research_is_handed_over() {
    let chat_agent = ChatAgent::new(dummy_config());
    let handoff = chat_agent.build_handoff_with_platforms(
        "open a then open b",
        "chat:1:0",
        vec!["c".into()],
        &[],
        Some(research_plan("open a then open b", true)),
    );
    assert!(handoff.research_plan.is_none());
    assert_eq!(handoff.subtasks.len(), 2);
    assert_eq!(handoff.constraints, vec!["c".to_string()]);
    let handoff = chat_agent.build_handoff_with_platforms(
        "open a then open b",
        "chat:1:0",
        vec![],
        &platforms(),
        None,
    );
    assert!(handoff.research_plan.is_none());
}
