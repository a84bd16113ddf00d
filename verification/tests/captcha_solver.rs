use mew_agent::captcha_solver::{CaptchaConfig, CaptchaSolver, DisabledSolver, SolveOutcome};
use mew_agent::resilience::{Challenge, ChallengeKind};

#[test]
fn default_is_disabled() {
    let c = CaptchaConfig::default();
    assert!(!c.enabled);
    assert!(c.solve_kinds.is_empty());
    assert_eq!(c.per_session_cap, 5);
}

#[test]
fn should_solve_respects_master_switch() {
    let mut c = CaptchaConfig::default();
    c.enabled = false;
    c.solve_kinds = vec![ChallengeKind::RecaptchaV2];
    assert!(!c.should_solve(ChallengeKind::RecaptchaV2, 0));
}

#[test]
fn should_solve_respects_kind_list() {
    let mut c = CaptchaConfig::default();
    c.enabled = true;
    c.solve_kinds = vec![ChallengeKind::RecaptchaV2];
    assert!(c.should_solve(ChallengeKind::RecaptchaV2, 0));
    assert!(!c.should_solve(ChallengeKind::Hcaptcha, 0));
}

#[test]
fn should_solve_respects_per_session_cap() {
    let mut c = CaptchaConfig::default();
    c.enabled = true;
    c.solve_kinds = vec![ChallengeKind::RecaptchaV2];
    c.per_session_cap = 2;
    assert!(c.should_solve(ChallengeKind::RecaptchaV2, 0));
    assert!(c.should_solve(ChallengeKind::RecaptchaV2, 1));
    assert!(!c.should_solve(ChallengeKind::RecaptchaV2, 2));
    assert!(!c.should_solve(ChallengeKind::RecaptchaV2, 5));
}

#[test]
fn summary_includes_disabled_marker() {
    let c = CaptchaConfig::default();
    let s = c.summary();
    assert!(s.contains("disabled"));
}

#[test]
fn summary_includes_provider_and_kinds_when_enabled() {
    let mut c = CaptchaConfig::default();
    c.enabled = true;
    c.provider = Some("2captcha".to_string());
    c.solve_kinds = vec![ChallengeKind::RecaptchaV2, ChallengeKind::Hcaptcha];
    let s = c.summary();
    assert!(s.contains("enabled"));
    assert!(s.contains("2captcha"));
    assert!(s.contains("recaptcha_v2"));
    assert!(s.contains("hcaptcha"));
    assert!(s.contains("cap=5"));
}

#[test]
fn disabled_solver_returns_unsupported() {
    let s = DisabledSolver;
    let challenge = Challenge {
        kind: ChallengeKind::RecaptchaV2,
        domain_hint: Some("example.com".to_string()),
        label: "test".to_string(),
    };
    let outcome = s.solve(&challenge);
    assert_eq!(outcome, SolveOutcome::Unsupported);
}

#[test]
fn default_solver_is_disabled() {
    let mut c = CaptchaConfig::default();
    c.enabled = true;
    c.provider = Some("any".to_string());
    let _solver = c.default_solver();
}

#[test]
fn solve_outcome_display_strings_are_stable() {
    assert_eq!(SolveOutcome::Solved.text(), "solved");
    assert_eq!(
        SolveOutcome::Failed { reason: "x".into() }.text(),
        "failed: x"
    );
    assert_eq!(
        SolveOutcome::Unsupported.text(),
        "unsupported (no solver wired up)"
    );
}
