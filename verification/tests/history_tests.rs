use std::collections::VecDeque;

use mouse_term::history::History;

#[test]
fn test_add_and_len() {
    let mut h = History::new();
    assert!(h.is_empty());
    h.add("ls".to_string());
    h.add("pwd".to_string());
    assert_eq!(h.len(), 2);
    // Most recent first.
    assert_eq!(h.get(0).map(|s| s.as_str()), Some("pwd"));
    assert_eq!(h.get(1).map(|s| s.as_str()), Some("ls"));
    assert_eq!(h.get(2), None);
}

#[test]
fn test_add_ignores_blank_and_duplicate() {
    let mut h = History::new();
    h.add("ls".to_string());
    h.add("   ".to_string());
    h.add("".to_string());
    h.add("\t \t".to_string());
    h.add("ls".to_string());
    assert_eq!(h.len(), 1);
    // A duplicate further back is still added.
    h.add("pwd".to_string());
    h.add("ls".to_string());
    assert_eq!(h.len(), 3);
}

#[test]
fn test_max_history_trims_oldest() {
    let mut h = History::with_max_history(2);
    h.add("one".to_string());
    h.add("two".to_string());
    h.add("three".to_string());
    assert_eq!(h.len(), 2);
    assert_eq!(h.get(0).map(|s| s.as_str()), Some("three"));
    assert_eq!(h.get(1).map(|s| s.as_str()), Some("two"));
}

#[test]
fn test_set_max_history_trims() {
    let mut h = History::new();
    h.add("one".to_string());
    h.add("two".to_string());
    h.add("three".to_string());
    h.set_max_history(1);
    assert_eq!(h.len(), 1);
    assert_eq!(h.get(0).map(|s| s.as_str()), Some("three"));
}

#[test]
fn test_navigation() {
    let mut h = History::new();
    h.add("one".to_string());
    h.add("two".to_string());

    // Backward: newest first, saturating at the oldest.
    assert_eq!(h.previous().map(|s| s.as_str()), Some("two"));
    assert_eq!(h.previous().map(|s| s.as_str()), Some("one"));
    assert_eq!(h.previous().map(|s| s.as_str()), Some("one"));

    // Forward again; stepping past the newest clears the cursor.
    assert_eq!(h.next().map(|s| s.as_str()), Some("two"));
    assert_eq!(h.next(), None);
    assert_eq!(h.next(), None);

    // With the cursor cleared, backward starts at the newest again.
    assert_eq!(h.previous().map(|s| s.as_str()), Some("two"));
}

#[test]
fn test_navigation_empty() {
    let mut h = History::new();
    assert_eq!(h.previous(), None);
    assert_eq!(h.next(), None);
}

#[test]
fn test_add_resets_position() {
    let mut h = History::new();
    h.add("one".to_string());
    assert_eq!(h.previous().map(|s| s.as_str()), Some("one"));
    h.add("two".to_string());
    // The cursor was reset: backward starts at the newest entry.
    assert_eq!(h.previous().map(|s| s.as_str()), Some("two"));
}

#[test]
fn test_reset_position() {
    let mut h = History::new();
    h.add("one".to_string());
    h.add("two".to_string());
    assert_eq!(h.previous().map(|s| s.as_str()), Some("two"));
    h.reset_position();
    assert_eq!(h.previous().map(|s| s.as_str()), Some("two"));
}

#[test]
fn test_search_is_case_insensitive() {
    let mut h = History::new();
    h.add("Cargo Build".to_string());
    h.add("ls".to_string());
    h.add("cargo test".to_string());
    let found = h.search("CARGO");
    assert_eq!(
        found,
        vec!["cargo test".to_string(), "Cargo Build".to_string()]
    );
    let none = h.search("python");
    assert!(none.is_empty());
    // An empty query matches everything.
    assert_eq!(h.search("").len(), 3);
}

#[test]
fn test_from_parts_keeps_saved_order() {
    let mut saved = VecDeque::new();
    saved.push_back("newest".to_string());
    saved.push_back("older".to_string());
    let mut h = History::from_parts(saved, 10);
    assert_eq!(h.len(), 2);
    assert_eq!(h.get(0).map(|s| s.as_str()), Some("newest"));
    assert_eq!(h.previous().map(|s| s.as_str()), Some("newest"));
}
