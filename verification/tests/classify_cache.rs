use mew_agent::classify_cache::{cache_key, ClassifyCache};
use mew_agent::router::ConversationMessage;

fn msg(role: &str, content: &str) -> ConversationMessage {
    ConversationMessage {
        role: role.to_string(),
        content: content.to_string(),
    }
}

#[test]
fn cache_key_distinguishes_message() {
    let history = vec![msg("user", "hi"), msg("assistant", "hello!")];
    let k1 = cache_key("go to instagram", &history);
    let k2 = cache_key("go to twitter", &history);
    assert_ne!(k1, k2);
}

#[test]
fn cache_key_distinguishes_history_length() {
    let short = cache_key("go to instagram", &[]);
    let long = cache_key("go to instagram", &[msg("user", "hi")]);
    assert_ne!(short, long);
}

#[test]
fn cache_key_stable_for_identical_input() {
    let history = vec![msg("user", "hi"), msg("assistant", "hello!")];
    let k1 = cache_key("go to instagram", &history);
    let k2 = cache_key("go to instagram", &history);
    assert_eq!(k1, k2);
}

#[test]
fn cache_key_changes_when_tail_changes() {
    let h1 = vec![msg("user", "a"), msg("assistant", "x")];
    let h2 = vec![msg("user", "a"), msg("assistant", "y")];
    assert_ne!(cache_key("msg", &h1), cache_key("msg", &h2));
}

#[test]
fn cache_key_ignores_messages_beyond_last_two() {
    let h1 = vec![
        msg("user", "earlier"),
        msg("assistant", "older"),
        msg("user", "a"),
        msg("assistant", "x"),
    ];
    let h2 = vec![
        msg("user", "different"),
        msg("assistant", "older"),
        msg("user", "a"),
        msg("assistant", "x"),
    ];
    assert_eq!(cache_key("msg", &h1), cache_key("msg", &h2));
}

#[test]
fn class_name_present() {
    let _: ClassifyCache = ClassifyCache::new();
}

#[test]
fn clear_resets_state() {
    let mut cache = ClassifyCache::new();
    assert_eq!(cache.len(), 0);
    cache.clear();
    assert_eq!(cache.len(), 0);
}
