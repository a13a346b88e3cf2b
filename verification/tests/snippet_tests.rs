use wik::snippet::highlighted_snippet_parts;

const OPEN: &str = "<span class=\"searchmatch\">";
const CLOSE: &str = "</span>";

#[test]
fn plain_snippet_is_one_unhighlighted_part() {
    let parts = highlighted_snippet_parts("nothing marked here");
    assert_eq!(parts.len(), 1);
    assert_eq!(parts[0].text, "nothing marked here");
    assert!(!parts[0].highlighted);
}

#[test]
fn one_match_splits_into_three_parts() {
    let snippet = format!("abc {}Rust{} def", OPEN, CLOSE);
    let parts = highlighted_snippet_parts(&snippet);
    assert_eq!(parts.len(), 3);
    assert_eq!(parts[0].text, "abc ");
    assert!(!parts[0].highlighted);
    assert_eq!(parts[1].text, "Rust");
    assert!(parts[1].highlighted);
    assert_eq!(parts[2].text, " def");
    assert!(!parts[2].highlighted);
}

#[test]
fn two_matches_alternate() {
    let snippet = format!("{}a{} mid {}b{} end", OPEN, CLOSE, OPEN, CLOSE);
    let parts = highlighted_snippet_parts(&snippet);
    assert_eq!(parts.len(), 5);
    assert_eq!(parts[0].text, "");
    assert!(!parts[0].highlighted);
    assert_eq!(parts[1].text, "a");
    assert!(parts[1].highlighted);
    assert_eq!(parts[2].text, " mid ");
    assert!(!parts[2].highlighted);
    assert_eq!(parts[3].text, "b");
    assert!(parts[3].highlighted);
    assert_eq!(parts[4].text, " end");
    assert!(!parts[4].highlighted);
}

#[test]
fn unclosed_match_highlights_the_rest() {
    let snippet = format!("start {}tail", OPEN);
    let parts = highlighted_snippet_parts(&snippet);
    assert_eq!(parts.len(), 3);
    assert_eq!(parts[1].text, "tail");
    assert!(parts[1].highlighted);
    assert_eq!(parts[2].text, "");
    assert!(!parts[2].highlighted);
}

#[test]
fn text_after_a_second_closing_tag_is_dropped() {
    let snippet = format!("{}hi{}mid{}tail", OPEN, CLOSE, CLOSE);
    let parts = highlighted_snippet_parts(&snippet);
    assert_eq!(parts.len(), 3);
    assert_eq!(parts[1].text, "hi");
    assert!(parts[1].highlighted);
    assert_eq!(parts[2].text, "mid");
    assert!(!parts[2].highlighted);
    assert!(parts.iter().all(|p| p.text != "tail"));
}
