use mew_agent::planner::{plan, slugify, split_compound};

#[test]
fn plan_empty_input() {
    let p = plan("");
    assert!(p.subtasks.is_empty());
    assert!(p.rationale.contains("empty"));
    assert!(!p.escalated);
}

#[test]
fn plan_whitespace_only_input() {
    let p = plan("   \t  ");
    assert!(p.subtasks.is_empty());
}

#[test]
fn plan_single_clause_returns_one_subtask() {
    let p = plan("search wikipedia for the rust programming language");
    assert_eq!(p.subtasks.len(), 1);
    assert_eq!(
        p.subtasks[0].description,
        "search wikipedia for the rust programming language"
    );
}

#[test]
fn plan_compound_with_and_splits_into_two() {
    let p = plan("go to instagram and text my friend hi");
    assert_eq!(p.subtasks.len(), 2);
    assert!(p.subtasks[0].description.contains("go to instagram"));
    assert!(p.subtasks[1].description.contains("text my friend"));
}

#[test]
fn plan_truly_single_clause_without_spaces() {
    let p = plan("find me a Rust job opening on linkedin");
    assert_eq!(p.subtasks.len(), 1);
}

#[test]
fn plan_compound_with_comma() {
    let p = plan("open gmail, search for jobs, send the first one to me");
    assert_eq!(p.subtasks.len(), 3);
}

#[test]
fn plan_compound_with_then() {
    let p = plan("go to github then search for rust then click the first repo");
    assert_eq!(p.subtasks.len(), 3);
}

#[test]
fn plan_compound_with_semicolon() {
    let p = plan("log in; send a message; log out");
    assert_eq!(p.subtasks.len(), 3);
}

#[test]
fn plan_compound_with_ampersand() {
    let p = plan("open gmail & check calendar");
    assert_eq!(p.subtasks.len(), 2);
}

#[test]
fn plan_compound_with_plus() {
    let p = plan("navigate to docs.rs + search for serde");
    assert_eq!(p.subtasks.len(), 2);
}

#[test]
fn plan_subtask_ids_are_unique() {
    let p = plan("do X, do X, do X");
    assert_eq!(p.subtasks.len(), 3);
    assert_ne!(p.subtasks[0].id, p.subtasks[1].id);
    assert_ne!(p.subtasks[1].id, p.subtasks[2].id);
}

#[test]
fn plan_subtask_ids_are_slugified() {
    let p = plan("go to Gmail, search Rust jobs");
    for s in &p.subtasks {
        for ch in s.id.chars() {
            assert!(
                ch.is_ascii_lowercase() || ch.is_ascii_digit() || ch == '-',
                "id contains {:?} which is not a slug char: {:?}",
                ch,
                s.id
            );
        }
    }
}

#[test]
fn plan_ids_stable_under_repeated_runs() {
    let a = plan("open gmail, search for jobs");
    let b = plan("open gmail, search for jobs");
    assert_eq!(a.subtasks[0].id, b.subtasks[0].id);
    assert_eq!(a.subtasks[1].id, b.subtasks[1].id);
}

#[test]
fn split_compound_handles_nested_markers() {
    let pieces = split_compound("open gmail, search X then send Y");
    assert_eq!(pieces, vec!["open gmail", "search X", "send Y"]);
}

#[test]
fn slugify_strips_leading_and_trailing_dashes() {
    let id = slugify(" --- hello world --- ", 0);
    assert!(!id.starts_with('-'));
    assert!(!id.ends_with('-'));
    assert!(id.contains("hello"));
}

#[test]
fn slugify_handles_unicode_by_stripping() {
    let id = slugify("search for 🚀 jobs", 0);
    for ch in id.chars() {
        assert!(ch.is_ascii_lowercase() || ch.is_ascii_digit() || ch == '-');
    }
}

#[test]
fn plan_emoji_only_falls_back_to_step_n() {
    let p = plan("🚀, 🌙, ⭐");
    assert_eq!(p.subtasks.len(), 3);
    for (i, s) in p.subtasks.iter().enumerate() {
        assert_eq!(s.id, format!("step-{}", i + 1));
    }
}
