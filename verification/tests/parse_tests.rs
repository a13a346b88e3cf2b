use wik::parse::parse_markdown;
use wik::span::FormattedSpan;

fn assert_plain(span: &FormattedSpan, index: usize, text: &str) {
    assert_eq!(span.index, index);
    assert_eq!(span.text, text);
    assert!(!span.is_heading);
    assert_eq!(span.heading_level, 0);
    assert!(span.link.is_none());
    assert!(!span.is_break);
}

fn assert_heading(span: &FormattedSpan, index: usize, level: usize, text: &str) {
    assert_eq!(span.index, index);
    assert_eq!(span.text, text);
    assert!(span.is_heading);
    assert_eq!(span.heading_level, level);
    assert!(span.link.is_none());
    assert!(!span.is_break);
}

fn assert_link(span: &FormattedSpan, index: usize, text: &str, link: &str) {
    assert_eq!(span.index, index);
    assert_eq!(span.text, text);
    assert!(!span.is_heading);
    assert_eq!(span.link.as_deref(), Some(link));
    assert!(!span.is_break);
}

fn assert_break(span: &FormattedSpan, index: usize) {
    assert_eq!(span.index, index);
    assert_eq!(span.text, "");
    assert!(!span.is_heading);
    assert!(span.link.is_none());
    assert!(span.is_break);
}

#[test]
fn span_indexing_scenario() {
    let spans = parse_markdown("# Title\nHello [a](./b \"c\") world");
    assert_eq!(spans.len(), 6);
    assert_heading(&spans[0], 0, 1, "Title");
    assert_break(&spans[1], 1);
    assert_plain(&spans[2], 2, "Hello ");
    assert_link(&spans[3], 3, "a", "c");
    assert_plain(&spans[4], 4, " world");
    assert_break(&spans[5], 5);
    for (i, span) in spans.iter().enumerate() {
        assert_eq!(span.index, i);
    }
}

#[test]
fn empty_document_has_no_spans() {
    assert!(parse_markdown("").is_empty());
}

#[test]
fn empty_line_yields_single_break() {
    let spans = parse_markdown("\n");
    assert_eq!(spans.len(), 1);
    assert_break(&spans[0], 0);
}

#[test]
fn heading_levels_counted() {
    for level in 1..=6 {
        let line = format!("{} Depth\n", "#".repeat(level));
        let spans = parse_markdown(&line);
        assert_eq!(spans.len(), 2);
        assert_heading(&spans[0], 0, level, "Depth");
        assert_break(&spans[1], 1);
    }
}

#[test]
fn seven_hashes_is_not_a_heading() {
    let spans = parse_markdown("####### text");
    assert_eq!(spans.len(), 2);
    assert_plain(&spans[0], 0, "####### text");
    assert_break(&spans[1], 1);
}

#[test]
fn hashes_without_gap_are_not_a_heading() {
    let spans = parse_markdown("###text");
    assert_eq!(spans.len(), 2);
    assert_plain(&spans[0], 0, "###text");
    assert_break(&spans[1], 1);
}

#[test]
fn heading_gap_swallows_all_whitespace() {
    let spans = parse_markdown("##   spaced");
    assert_heading(&spans[0], 0, 2, "spaced");
}

#[test]
fn image_line_is_skipped_entirely() {
    let spans = parse_markdown("before\n[![img](./x \"y\")](./z \"w\")\nafter");
    assert_eq!(spans.len(), 4);
    assert_plain(&spans[0], 0, "before");
    assert_break(&spans[1], 1);
    assert_plain(&spans[2], 2, "after");
    assert_break(&spans[3], 3);
}

#[test]
fn link_without_relative_marker_is_plain() {
    let spans = parse_markdown("[a](b \"c\")");
    assert_eq!(spans.len(), 2);
    assert_plain(&spans[0], 0, "[a](b \"c\")");
    assert_break(&spans[1], 1);
}

#[test]
fn empty_label_link_is_matched() {
    let spans = parse_markdown("[](./t \"x\")");
    assert_eq!(spans.len(), 2);
    assert_link(&spans[0], 0, "", "x");
    assert_break(&spans[1], 1);
}

#[test]
fn two_links_on_one_line() {
    let spans = parse_markdown("[a](./t \"A\") and [b](./u \"B\")");
    assert_eq!(spans.len(), 4);
    assert_link(&spans[0], 0, "a", "A");
    assert_plain(&spans[1], 1, " and ");
    assert_link(&spans[2], 2, "b", "B");
    assert_break(&spans[3], 3);
}

#[test]
fn label_may_swallow_early_bracket() {
    // The lazy label extends past a candidate `]` when the tail only parses
    // at a later one.
    let spans = parse_markdown("[a]b](./t \"T\")");
    assert_eq!(spans.len(), 2);
    assert_link(&spans[0], 0, "a]b", "T");
    assert_break(&spans[1], 1);
}

#[test]
fn tab_terminated_target_does_not_match() {
    let spans = parse_markdown("[a](./t\t\"T\")");
    assert_eq!(spans.len(), 2);
    assert_plain(&spans[0], 0, "[a](./t\t\"T\")");
    assert_break(&spans[1], 1);
}

#[test]
fn crlf_line_endings_are_stripped() {
    let spans = parse_markdown("# One\r\ntwo\r\n");
    assert_eq!(spans.len(), 4);
    assert_heading(&spans[0], 0, 1, "One");
    assert_break(&spans[1], 1);
    assert_plain(&spans[2], 2, "two");
    assert_break(&spans[3], 3);
}

#[test]
fn trailing_newline_adds_no_empty_line() {
    let spans = parse_markdown("last\n");
    assert_eq!(spans.len(), 2);
    assert_plain(&spans[0], 0, "last");
    assert_break(&spans[1], 1);
}

#[test]
fn default_span_is_empty_plain_text() {
    let span = FormattedSpan::default();
    assert_eq!(span.index, 0);
    assert_eq!(span.text, "");
    assert!(!span.is_heading);
    assert_eq!(span.heading_level, 0);
    assert!(span.link.is_none());
    assert!(!span.is_break);
}

#[test]
fn no_break_space_counts_as_heading_gap() {
    let spans = parse_markdown("#\u{a0}Title");
    assert_eq!(spans.len(), 2);
    assert_heading(&spans[0], 0, 1, "Title");
    assert_break(&spans[1], 1);
}

#[test]
fn unicode_space_ends_a_link_target() {
    // An en-quad is whitespace, so the target run stops there; the pattern
    // then demands a plain space, which is absent, and nothing matches.
    let spans = parse_markdown("[a](./t\u{2002}\"T\")");
    assert_eq!(spans.len(), 2);
    assert_plain(&spans[0], 0, "[a](./t\u{2002}\"T\")");
    assert_break(&spans[1], 1);
}
