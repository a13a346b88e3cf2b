use std::collections::HashSet;

use wik::cache::{create_hash, session_file_path, CachingSession};

#[test]
fn hash_of_empty_string() {
    // SHA-256 of "" is e3b0c442..., so the content name is its first ten hex digits.
    assert_eq!(create_hash(""), "e3b0c44298");
}

#[test]
fn hash_of_abc() {
    // SHA-256 of "abc" is ba7816bf..., truncated to ten hex digits.
    assert_eq!(create_hash("abc"), "ba7816bf8f");
}

#[test]
fn hashing_is_idempotent() {
    let first = create_hash("https://example.test/some?query=1");
    let second = create_hash("https://example.test/some?query=1");
    assert_eq!(first, second);
    assert_eq!(first.len(), 10);
}

#[test]
fn distinct_keys_hash_to_distinct_names() {
    let mut seen: HashSet<String> = HashSet::new();
    for i in 0..500 {
        let key = format!("key-number-{}", i);
        let name = create_hash(&key);
        assert_eq!(name.len(), 10);
        assert!(seen.insert(name), "collision for {}", key);
    }
}

#[test]
fn new_session_has_random_ten_char_name_and_empty_table() {
    let session = CachingSession::new();
    assert_eq!(session.session_name.len(), 10);
    assert!(session.session_name.chars().all(|c| c.is_ascii_alphanumeric()));
    assert!(session.lookup_table.is_empty());
    assert!(!session.has_url(&String::from("missing")));
}

#[test]
fn default_session_uses_placeholder_name() {
    let session = CachingSession::default();
    assert_eq!(session.session_name, "session_name");
    assert!(session.lookup_table.is_empty());
}

#[test]
fn record_success_indexes_key() {
    let mut session = CachingSession::new();
    let url = String::from("https://example.test/page");
    let name = create_hash(&url);
    assert!(!session.has_url(&url));
    session.record_outcome(&url, name.clone(), true);
    assert!(session.has_url(&url));
    assert_eq!(session.cached_file_name(&url), Some(name));
}

#[test]
fn record_failure_leaves_index_unchanged() {
    let mut session = CachingSession::new();
    let url = String::from("https://example.test/page");
    let name = create_hash(&url);
    session.record_outcome(&url, name, false);
    assert!(!session.has_url(&url));
    assert_eq!(session.cached_file_name(&url), None);
    assert!(session.lookup_table.is_empty());
}

#[test]
fn record_twice_keeps_one_entry() {
    let mut session = CachingSession::new();
    let url = String::from("https://example.test/page");
    session.record_outcome(&url, create_hash(&url), true);
    session.record_outcome(&url, create_hash(&url), true);
    assert_eq!(session.lookup_table.len(), 1);
}

#[test]
fn session_file_path_joins_parts() {
    let path = session_file_path("/home/someone", "abc123", "deadbeef00");
    assert_eq!(path, "/home/someone/.cache/wik/caches/abc123/deadbeef00");
}

#[test]
fn cache_file_path_ends_with_session_and_name() {
    let session = CachingSession::new();
    if let Some(path) = session.get_cache_file_path("deadbeef00") {
        let suffix = format!("/.cache/wik/caches/{}/deadbeef00", session.session_name);
        assert!(path.ends_with(&suffix), "unexpected path {}", path);
    }
}

#[test]
fn content_names_are_lowercase_hex() {
    for key in ["", "abc", "https://example.test/page?q=1"] {
        let name = create_hash(key);
        assert_eq!(name.len(), 10);
        assert!(name.chars().all(|c| c.is_ascii_digit() || ('a'..='f').contains(&c)));
    }
}
