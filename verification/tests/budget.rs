use mew_agent::budget::{Budget, BudgetDecision, SubtaskBudget};
use mew_agent::completeness::{CompletenessTracker, DeclareItem, SubTaskStatus};
use mew_agent::research::{ResearchPlan, ResearchSubTask};

fn research_plan_for_test() -> ResearchPlan {
    ResearchPlan {
        goal: "find rust jobs".into(),
        platforms: vec![
            ResearchSubTask {
                id: "linkedin".into(),
                platform: "LinkedIn".into(),
                domain: "linkedin.com".into(),
                entry_hint: String::new(),
                acceptance: vec![],
                step_budget: 5,
                time_budget_secs: 60,
                query: String::new(),
            },
            ResearchSubTask {
                id: "indeed".into(),
                platform: "Indeed".into(),
                domain: "indeed.com".into(),
                entry_hint: String::new(),
                acceptance: vec![],
                step_budget: 3,
                time_budget_secs: 30,
                query: String::new(),
            },
        ],
        synthesis_hint: String::new(),
        overall_deadline_secs: None,
        is_research: true,
        matched_pattern: "test".into(),
    }
}

#[test]
fn from_research_plan_pulls_per_platform_caps() {
    let plan = research_plan_for_test();
    let b = Budget::from_research_plan(&plan);
    assert_eq!(b.len(), 2);
    assert_eq!(b.get("linkedin"), Some(SubtaskBudget { step_budget: 5, time_budget_secs: 60 }));
    assert_eq!(b.get("indeed"), Some(SubtaskBudget { step_budget: 3, time_budget_secs: 30 }));
    assert_eq!(b.get("nope"), None);
}

#[test]
fn tick_increments_step_counter() {
    let plan = research_plan_for_test();
    let mut b = Budget::from_research_plan(&plan);
    let d = b.tick("linkedin", 1_000);
    match d {
        BudgetDecision::StillUnder { steps_used, steps_max, .. } => {
            assert_eq!(steps_used, 1);
            assert_eq!(steps_max, 5);
        }
        other => panic!("expected StillUnder, got {other:?}"),
    }
    let d = b.tick("linkedin", 1_001);
    match d {
        BudgetDecision::StillUnder { steps_used, .. } => {
            assert_eq!(steps_used, 2);
        }
        other => panic!("expected StillUnder, got {other:?}"),
    }
    assert_eq!(b.steps_used("linkedin"), 2);
}

#[test]
fn tick_fires_step_exhausted_when_cap_reached() {
    let plan = research_plan_for_test();
    let mut b = Budget::from_research_plan(&plan);
    for _ in 0..5 {
        let d = b.tick("linkedin", 1_000);
        assert!(matches!(d, BudgetDecision::StillUnder { .. }), "got {d:?}");
    }
    let d = b.tick("linkedin", 1_000);
    assert!(matches!(d, BudgetDecision::StepExhausted { used: 6, max: 5 }), "got {d:?}");
}

#[test]
fn tick_fires_time_exhausted_when_cap_reached() {
    let plan = research_plan_for_test();
    let mut b = Budget::from_research_plan(&plan);
    b.tick("linkedin", 1_000);
    let d = b.tick("linkedin", 1_010);
    match d {
        BudgetDecision::StillUnder { elapsed_secs, time_max_secs, .. } => {
            assert_eq!(elapsed_secs, 10);
            assert_eq!(time_max_secs, 60);
        }
        other => panic!("expected StillUnder, got {other:?}"),
    }
    let d = b.tick("linkedin", 1_070);
    assert!(matches!(d, BudgetDecision::TimeExhausted { elapsed: 70, limit: 60 }), "got {d:?}");
}

#[test]
fn tick_returns_unknown_for_unmapped_id() {
    let plan = research_plan_for_test();
    let mut b = Budget::from_research_plan(&plan);
    let d = b.tick("ghost", 1_000);
    assert_eq!(d, BudgetDecision::UnknownSubtask);
}

#[test]
fn step_cap_wins_when_both_caps_fire_on_same_tick() {
    let plan = ResearchPlan {
        goal: "x".into(),
        platforms: vec![ResearchSubTask {
            id: "a".into(),
            platform: "A".into(),
            domain: "a.com".into(),
            entry_hint: String::new(),
            acceptance: vec![],
            step_budget: 1,
            time_budget_secs: 30,
            query: String::new(),
        }],
        synthesis_hint: String::new(),
        overall_deadline_secs: None,
        is_research: true,
        matched_pattern: "test".into(),
    };
    let mut b = Budget::from_research_plan(&plan);
    let d = b.tick("a", 100);
    assert!(matches!(d, BudgetDecision::StillUnder { .. }), "got {d:?}");
    let d = b.tick("a", 200);
    assert!(matches!(d, BudgetDecision::StepExhausted { .. }), "got {d:?}");
}

#[test]
fn unlimited_budget_never_fires() {
    let b = Budget::from_rows(vec![(
        "open".to_string(),
        SubtaskBudget { step_budget: 0, time_budget_secs: 0 },
    )]);
    let mut b = b;
    for i in 0..50 {
        let d = b.tick("open", i);
        assert!(matches!(d, BudgetDecision::StillUnder { .. }), "iter {i} got {d:?}");
    }
}

#[test]
fn tick_and_enforce_marks_tracker_exhausted() {
    let plan = research_plan_for_test();
    let mut b = Budget::from_research_plan(&plan);
    let mut tracker = CompletenessTracker::new();
    tracker
        .declare(vec![DeclareItem {
            id: "linkedin".into(),
            description: "LinkedIn".into(),
        }])
        .unwrap();
    for _ in 0..5 {
        let d = b.tick_and_enforce(&mut tracker, "linkedin", 1_000);
        assert!(matches!(d, BudgetDecision::StillUnder { .. }));
    }
    let d = b.tick_and_enforce(&mut tracker, "linkedin", 1_000);
    assert!(matches!(d, BudgetDecision::StepExhausted { .. }));
    let sub = tracker.subtasks.iter().find(|s| s.id == "linkedin").unwrap();
    assert!(
        matches!(sub.status, SubTaskStatus::Exhausted { .. }),
        "subtask should be Exhausted, got {:?}",
        sub.status,
    );
}

#[test]
fn tick_and_enforce_is_idempotent() {
    let plan = research_plan_for_test();
    let mut b = Budget::from_research_plan(&plan);
    let mut tracker = CompletenessTracker::new();
    tracker
        .declare(vec![DeclareItem {
            id: "linkedin".into(),
            description: "LinkedIn".into(),
        }])
        .unwrap();
    for _ in 0..6 {
        b.tick_and_enforce(&mut tracker, "linkedin", 1_000);
    }
    let d = b.tick_and_enforce(&mut tracker, "linkedin", 1_000);
    assert!(matches!(d, BudgetDecision::StepExhausted { .. }));
    let sub = tracker.subtasks.iter().find(|s| s.id == "linkedin").unwrap();
    assert!(matches!(
        sub.status,
        SubTaskStatus::Exhausted { .. }
    ));
}

#[test]
fn reset_clears_runtime_state() {
    let plan = research_plan_for_test();
    let mut b = Budget::from_research_plan(&plan);
    b.tick("linkedin", 1_000);
    b.tick("linkedin", 1_001);
    assert_eq!(b.steps_used("linkedin"), 2);
    b.reset("linkedin");
    assert_eq!(b.steps_used("linkedin"), 0);
}

#[test]
fn subtask_budget_is_unlimited_when_both_zero() {
    let b = SubtaskBudget { step_budget: 0, time_budget_secs: 0 };
    assert!(b.is_unlimited());
    let b = SubtaskBudget { step_budget: 1, time_budget_secs: 0 };
    assert!(!b.is_unlimited());
}
