use mew_agent::captcha_telemetry::{default_persist_path, normalize_host, CaptchaTelemetry};
use mew_agent::resilience::ChallengeKind;

#[test]
fn record_increments_per_host_and_kind() {
    let mut t = CaptchaTelemetry::new(None);
    t.record("instagram.com", ChallengeKind::RecaptchaV2);
    t.record("instagram.com", ChallengeKind::RecaptchaV2);
    t.record("instagram.com", ChallengeKind::CloudflareTurnstile);
    t.record("linkedin.com", ChallengeKind::Hcaptcha);
    let snap = t.snapshot();
    assert_eq!(snap.len(), 2);
    let ig = snap.iter().find(|r| r.host == "instagram.com").unwrap();
    assert_eq!(ig.counts.get("recaptcha_v2").copied(), Some(2));
    assert_eq!(
        ig.counts.get("cloudflare_turnstile").copied(),
        Some(1)
    );
    assert_eq!(ig.counts.get("hcaptcha").copied(), Some(0));
    assert_eq!(ig.total(), 3);
}

#[test]
fn record_normalizes_host_casing_and_www_prefix() {
    let mut t = CaptchaTelemetry::new(None);
    t.record("WWW.Instagram.com", ChallengeKind::RecaptchaV2);
    t.record("instagram.com", ChallengeKind::RecaptchaV2);
    let snap = t.snapshot();
    assert_eq!(snap.len(), 1, "www./casing must collapse to one row");
    assert_eq!(snap[0].host, "instagram.com");
    assert_eq!(snap[0].total(), 2);
}

#[test]
fn record_ignores_empty_domain() {
    let mut t = CaptchaTelemetry::new(None);
    t.record("", ChallengeKind::RecaptchaV2);
    assert!(t.snapshot().is_empty());
}

#[test]
fn mark_expected_pre_seeds_a_new_row() {
    let mut t = CaptchaTelemetry::new(None);
    t.mark_expected("example.com");
    t.record("example.com", ChallengeKind::RecaptchaV2);
    let snap = t.snapshot();
    let row = snap.iter().find(|r| r.host == "example.com").unwrap();
    assert!(row.expected, "mark_expected must set the flag on new rows");
    assert_eq!(row.total(), 1);
}

#[test]
fn mark_expected_is_idempotent_on_existing_row() {
    let mut t = CaptchaTelemetry::new(None);
    t.record("example.com", ChallengeKind::RecaptchaV2);
    t.mark_expected("example.com");
    let snap = t.snapshot();
    assert!(snap[0].expected);
    t.mark_expected("example.com");
    assert!(snap[0].expected);
}

#[test]
fn summary_includes_label_and_renders_empty_state() {
    let mut t = CaptchaTelemetry::new(None);
    let s = t.summary();
    assert!(s.contains("no challenges recorded yet"));
    t.record("instagram.com", ChallengeKind::CloudflareTurnstile);
    let s = t.summary();
    assert!(s.contains("Captcha telemetry (local-only)"));
    assert!(s.contains("instagram.com"));
    assert!(s.contains("cloudflare_turnstile: 1"));
}

#[test]
fn summary_marks_expected_vs_new() {
    let mut t = CaptchaTelemetry::new(None);
    t.mark_expected("instagram.com");
    t.record("instagram.com", ChallengeKind::RecaptchaV2);
    t.record("some-new-site.com", ChallengeKind::Hcaptcha);
    let s = t.summary();
    assert!(s.contains("[expected]"), "expected tag missing: {s}");
    assert!(s.contains("[new     ]"), "new tag missing: {s}");
}

#[test]
fn normalize_host_strips_www_and_lowercases() {
    assert_eq!(normalize_host("WWW.Instagram.com"), "instagram.com");
    assert_eq!(normalize_host("example.com"), "example.com");
    assert_eq!(normalize_host("WWW.example.com"), "example.com");
    assert_eq!(normalize_host("wwwx.com"), "wwwx.com");
}

#[test]
fn default_persist_path_uses_provided_dir() {
    let p = default_persist_path("/tmp");
    assert_eq!(p, "/tmp/captcha_telemetry.json");
}
