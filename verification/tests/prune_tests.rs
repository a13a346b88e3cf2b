use wik::parse::parse_markdown;
use wik::prune::remove_unnecessary_spans;
use wik::span::FormattedSpan;

fn heading(index: usize, text: &str) -> FormattedSpan {
    FormattedSpan {
        index,
        text: String::from(text),
        is_heading: true,
        heading_level: 2,
        link: None,
        is_break: false,
    }
}

fn plain(index: usize, text: &str) -> FormattedSpan {
    FormattedSpan {
        index,
        text: String::from(text),
        is_heading: false,
        heading_level: 0,
        link: None,
        is_break: false,
    }
}

#[test]
fn pruning_latch_scenario() {
    // A "See Also" heading followed by three unrelated headings and text:
    // everything from the "See Also" heading onward is dropped, unrelated
    // headings included.
    let spans = vec![
        heading(0, "Intro"),
        plain(1, "body"),
        heading(2, "See Also"),
        heading(3, "Completely"),
        plain(4, "unrelated"),
        heading(5, "Headings"),
        heading(6, "Here"),
        plain(7, "text"),
    ];
    let kept = remove_unnecessary_spans(spans);
    assert_eq!(kept.len(), 2);
    assert_eq!(kept[0].text, "Intro");
    assert_eq!(kept[1].text, "body");
    assert!(kept.iter().all(|s| s.index < 2));
}

#[test]
fn notes_heading_starts_removal() {
    let spans = vec![heading(0, "Body"), heading(1, "Notes"), plain(2, "a note")];
    let kept = remove_unnecessary_spans(spans);
    assert_eq!(kept.len(), 1);
    assert_eq!(kept[0].text, "Body");
}

#[test]
fn references_heading_starts_removal() {
    let spans = vec![plain(0, "text"), heading(1, "References"), plain(2, "ref")];
    let kept = remove_unnecessary_spans(spans);
    assert_eq!(kept.len(), 1);
    assert_eq!(kept[0].text, "text");
}

#[test]
fn clean_document_is_kept_whole() {
    let spans = vec![heading(0, "One"), plain(1, "two"), heading(2, "Three")];
    let kept = remove_unnecessary_spans(spans);
    assert_eq!(kept.len(), 3);
}

#[test]
fn non_heading_boilerplate_text_is_kept() {
    // Only headings latch the removal; plain text "Notes" stays.
    let spans = vec![plain(0, "Notes"), plain(1, "more")];
    let kept = remove_unnecessary_spans(spans);
    assert_eq!(kept.len(), 2);
}

#[test]
fn stop_heading_first_removes_everything() {
    let spans = vec![heading(0, "See Also"), plain(1, "x")];
    let kept = remove_unnecessary_spans(spans);
    assert!(kept.is_empty());
}

#[test]
fn parse_then_prune_drops_trailing_sections() {
    let text = "# Article\nbody text\n## Notes\nnote one\n## Later\nmore";
    let spans = remove_unnecessary_spans(parse_markdown(text));
    assert_eq!(spans.len(), 4);
    assert_eq!(spans[0].text, "Article");
    assert!(spans[1].is_break);
    assert_eq!(spans[2].text, "body text");
    assert!(spans[3].is_break);
}
