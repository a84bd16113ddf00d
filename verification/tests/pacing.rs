use mew_agent::pacing::{PacedAction, PacingConfig, PacingDecision, PacingGuard};
use std::time::Duration;

fn cfg(enabled: bool, min: u64, max: u64, threshold: u32) -> PacingConfig {
    PacingConfig {
        enabled,
        min_delay_ms: min,
        max_delay_ms: max,
        streak_threshold: threshold,
    }
}

#[test]
fn disabled_guard_is_pure_no_op() {
    let mut g = PacingGuard::new(cfg(false, 800, 2500, 2));
    for _ in 0..10 {
        assert_eq!(g.before_action("click"), PacingDecision::NoPacing);
    }
    g.before_action("click");
    g.before_action("click");
    g.before_action("type");
    assert_eq!(g.before_action("click"), PacingDecision::NoPacing);
}

#[test]
fn first_action_of_a_type_never_paces() {
    let mut g = PacingGuard::new(cfg(true, 100, 100, 1));
    assert_eq!(g.before_action("click"), PacingDecision::NoPacing);
}

#[test]
fn different_action_resets_streak() {
    let mut g = PacingGuard::new(cfg(true, 100, 100, 1));
    g.before_action("click");
    let d = g.before_action("click");
    assert!(matches!(d, PacingDecision::Pace { .. }));
    g.before_action("type");
    let d = g.before_action("click");
    assert_eq!(d, PacingDecision::NoPacing);
}

#[test]
fn threshold_gates_pacing() {
    let mut g = PacingGuard::new(cfg(true, 100, 100, 3));
    assert_eq!(g.before_action("click"), PacingDecision::NoPacing);
    assert_eq!(g.before_action("click"), PacingDecision::NoPacing);
    let d = g.before_action("click");
    assert!(matches!(d, PacingDecision::Pace { streak: 3, .. }));
    let d = g.before_action("click");
    assert!(matches!(d, PacingDecision::Pace { streak: 4, .. }));
}

#[test]
fn fixed_range_produces_exact_delay() {
    let mut g = PacingGuard::new(cfg(true, 0, 0, 1));
    g.before_action("click");
    let d = g.before_action("click");
    match d {
        PacingDecision::Pace { delay, streak } => {
            assert_eq!(streak, 2);
            assert_eq!(delay, Duration::from_millis(0));
        }
        _ => panic!("expected Pace variant, got {:?}", d),
    }
}

#[test]
fn non_paced_action_breaks_streak() {
    let mut g = PacingGuard::new(cfg(true, 100, 100, 1));
    g.before_action("click");
    g.before_action("click");
    g.before_action("snapshot");
    let d = g.before_action("click");
    assert_eq!(d, PacingDecision::NoPacing);
}

#[test]
fn reset_clears_streak() {
    let mut g = PacingGuard::new(cfg(true, 100, 100, 1));
    g.before_action("click");
    g.before_action("click");
    g.reset();
    assert_eq!(g.before_action("click"), PacingDecision::NoPacing);
    let d = g.before_action("click");
    assert!(matches!(d, PacingDecision::Pace { .. }));
}

#[test]
fn inverted_range_is_clamped_not_panicked() {
    let mut g = PacingGuard::new(cfg(true, 2500, 800, 1));
    g.before_action("click");
    let d = g.before_action("click");
    match d {
        PacingDecision::Pace { delay, .. } => {
            assert_eq!(delay, Duration::from_millis(2500));
        }
        _ => panic!("expected Pace"),
    }
}

#[test]
fn paced_action_classification_matches_tool_names() {
    assert_eq!(PacedAction::from_tool_name("click"), Some(PacedAction::Click));
    assert_eq!(PacedAction::from_tool_name("type"), Some(PacedAction::Type));
    assert_eq!(PacedAction::from_tool_name("scroll"), Some(PacedAction::Scroll));
    assert_eq!(PacedAction::from_tool_name("press_key"), Some(PacedAction::PressKey));
    assert_eq!(PacedAction::from_tool_name("navigate"), Some(PacedAction::Navigate));
    for name in &["snapshot", "finish", "mark_subtask_done", "mark_subtask_skipped", "mark_subtask_failed", "declare_subtasks", "vision_inspect", "no_such_tool"] {
        assert_eq!(PacedAction::from_tool_name(name), None, "expected None for {}", name);
    }
}

#[test]
fn delay_value_is_within_configured_range() {
    let mut g = PacingGuard::new(cfg(true, 200, 600, 1));
    g.before_action("click");
    for _ in 0..1000 {
        let d = g.before_action("click");
        if let PacingDecision::Pace { delay, .. } = d {
            let ms = delay.as_millis() as u64;
            assert!((200..=600).contains(&ms), "delay {} outside [200, 600]", ms);
        } else {
            panic!("expected Pace variant");
        }
    }
}
