//! The document normalizer: a single forward pass over the lines of a markup
//! payload that emits one tagged span per construct and one break span per
//! line.
//!
//! Per line: a heading line `#..# text` (one to six markers followed by
//! whitespace) emits one heading span; a line starting with an embedded-image
//! marker `[![` is skipped entirely; any other line is scanned for inline
//! links `[label](./target "link-text")`, emitting plain spans for unmatched
//! text and one link span per match. Every emitted line is terminated by one
//! break span, and indices are assigned contiguously across the document.

use vstd::prelude::*;
use crate::span::{
    FormattedSpan, SpanShape, break_shape, heading_shape, lemma_shapes_push, link_shape,
    plain_shape, shapes_of, wf_shape,
};

verus! {

/// The character classes the scanner runs over.
#[derive(Clone, Copy)]
pub enum CharClass {
    /// A heading marker `#`.
    Hash,
    /// Unicode whitespace, as the heading pattern's gap accepts it.
    Space,
    /// Anything but whitespace: a link target character.
    NonSpace,
    /// Anything but a double quote: a link-text character.
    NonQuote,
    /// Anything but a newline: a character inside one line.
    NonNewline,
}

/// Whether `c` lies in class `cl`.
pub open spec fn in_class(cl: CharClass, c: char) -> bool {
    match cl {
        CharClass::Hash => c == '#',
        CharClass::Space => is_md_space(c),
        CharClass::NonSpace => !is_md_space(c),
        CharClass::NonQuote => c != '"',
        CharClass::NonNewline => c != '\n',
    }
}

/// Whitespace, as the Unicode White_Space property defines it: the ASCII
/// whitespace characters together with next line, no-break space, the
/// spacing marks, and the line and paragraph separators.
pub open spec fn is_md_space(c: char) -> bool {
    c == ' ' || c == '\t' || c == '\n' || c == '\r' || c == '\x0b' || c == '\x0c' || c
        == '\u{85}' || c == '\u{a0}' || c == '\u{1680}' || ('\u{2000}' <= c && c <= '\u{200a}')
        || c == '\u{2028}' || c == '\u{2029}' || c == '\u{202f}' || c == '\u{205f}' || c
        == '\u{3000}'
}

/// Executable test for `is_md_space`.
fn is_space_char(c: char) -> (r: bool)
    ensures
        r == is_md_space(c),
{
    c == ' ' || c == '\t' || c == '\n' || c == '\r' || c == '\x0b' || c == '\x0c' || c
        == '\u{85}' || c == '\u{a0}' || c == '\u{1680}' || ('\u{2000}' <= c && c <= '\u{200a}')
        || c == '\u{2028}' || c == '\u{2029}' || c == '\u{202f}' || c == '\u{205f}' || c
        == '\u{3000}'
}

/// Length of the run of characters of class `cl` starting at `i`.
pub open spec fn run_len(s: Seq<char>, i: int, cl: CharClass) -> int
    decreases s.len() - i,
{
    if 0 <= i < s.len() && in_class(cl, s[i]) {
        1 + run_len(s, i + 1, cl)
    } else {
        0
    }
}

pub proof fn lemma_run_len_bounds(s: Seq<char>, i: int, cl: CharClass)
    requires
        0 <= i <= s.len(),
    ensures
        0 <= run_len(s, i, cl) <= s.len() - i,
    decreases s.len() - i,
{
    if i < s.len() && in_class(cl, s[i]) {
        lemma_run_len_bounds(s, i + 1, cl);
    }
}

fn in_class_exec(cl: CharClass, c: char) -> (r: bool)
    ensures
        r == in_class(cl, c),
{
    match cl {
        CharClass::Hash => c == '#',
        CharClass::Space => is_space_char(c),
        CharClass::NonSpace => !is_space_char(c),
        CharClass::NonQuote => c != '"',
        CharClass::NonNewline => c != '\n',
    }
}

pub(crate) fn scan_run(line: &str, n: usize, i: usize, cl: CharClass) -> (r: usize)
    requires
        n == line@.len(),
        i <= n,
    ensures
        r == run_len(line@, i as int, cl),
        r <= n - i,
    decreases n - i,
{
    if i < n && in_class_exec(cl, line.get_char(i)) {
        1 + scan_run(line, n, i + 1, cl)
    } else {
        0
    }
}

/// A heading line: one to six `#` markers followed by at least one
/// whitespace character.
pub open spec fn is_heading_line(line: Seq<char>) -> bool {
    let h = run_len(line, 0, CharClass::Hash);
    1 <= h <= 6 && h < line.len() && is_md_space(line[h])
}

/// The level of a heading line: its number of leading `#` markers.
pub open spec fn heading_level_of(line: Seq<char>) -> int {
    run_len(line, 0, CharClass::Hash)
}

/// The text of a heading line: everything after the markers and the
/// whitespace gap.
pub open spec fn heading_text_of(line: Seq<char>) -> Seq<char> {
    let h = run_len(line, 0, CharClass::Hash);
    line.subrange(h + run_len(line, h, CharClass::Space), line.len() as int)
}

/// A line that embeds an image: it starts with `[![` and is skipped whole.
pub open spec fn is_image_line(line: Seq<char>) -> bool {
    line.len() >= 3 && line[0] == '[' && line[1] == '!' && line[2] == '['
}

/// One inline link match within a line: the label is
/// `line[start + 1 .. label_end]`, the link text `line[link_start .. link_end]`,
/// and the match occupies `line[start .. end]`.
pub struct LinkMatch {
    pub start: int,
    pub label_end: int,
    pub link_start: int,
    pub link_end: int,
    pub end: int,
}

/// The tail of a link pattern after the closing `]` of its label:
/// `(./target "link-text")` with a non-empty whitespace-free target and a
/// non-empty quote-free link text. Returns the link text bounds and the
/// position after the closing parenthesis.
pub open spec fn match_after(line: Seq<char>, p: int) -> Option<(int, int, int)> {
    if !(p + 2 < line.len() && line[p] == '(' && line[p + 1] == '.' && line[p + 2] == '/') {
        None
    } else {
        let t0 = p + 3;
        let tl = run_len(line, t0, CharClass::NonSpace);
        if tl < 1 {
            None
        } else {
            let sp = t0 + tl;
            if !(sp < line.len() && line[sp] == ' ') {
                None
            } else if !(sp + 1 < line.len() && line[sp + 1] == '"') {
                None
            } else {
                let l0 = sp + 2;
                let ll = run_len(line, l0, CharClass::NonQuote);
                if ll < 1 {
                    None
                } else {
                    let le = l0 + ll;
                    if !(le < line.len() && line[le] == '"') {
                        None
                    } else if !(le + 1 < line.len() && line[le + 1] == ')') {
                        None
                    } else {
                        Some((l0, le, le + 2))
                    }
                }
            }
        }
    }
}

/// The shortest label ending at or after `q` whose closing `]` is followed
/// by a well-formed link tail, for a link starting at `start`.
pub open spec fn label_try(line: Seq<char>, start: int, q: int) -> Option<LinkMatch>
    decreases line.len() - q,
{
    if q >= line.len() {
        None
    } else if line[q] == ']' && match_after(line, q + 1) is Some {
        let t = match_after(line, q + 1)->Some_0;
        Some(
            LinkMatch {
                start,
                label_end: q,
                link_start: t.0,
                link_end: t.1,
                end: t.2,
            },
        )
    } else {
        label_try(line, start, q + 1)
    }
}

/// The leftmost inline link match starting at or after `p`.
pub open spec fn find_link(line: Seq<char>, p: int) -> Option<LinkMatch>
    decreases line.len() - p,
{
    if p >= line.len() {
        None
    } else if line[p] == '[' && label_try(line, p, p + 1) is Some {
        label_try(line, p, p + 1)
    } else {
        find_link(line, p + 1)
    }
}

pub proof fn lemma_match_after_bounds(line: Seq<char>, p: int)
    requires
        0 <= p,
        match_after(line, p) is Some,
    ensures
        ({
            let t = match_after(line, p)->Some_0;
            p < t.0 && t.0 < t.1 && t.1 + 2 == t.2 && t.2 <= line.len()
        }),
{
    let t0 = p + 3;
    let tl = run_len(line, t0, CharClass::NonSpace);
    lemma_run_len_bounds(line, t0, CharClass::NonSpace);
    let l0 = t0 + tl + 2;
    lemma_run_len_bounds(line, l0, CharClass::NonQuote);
}

pub proof fn lemma_label_try_bounds(line: Seq<char>, start: int, q: int)
    requires
        0 <= start,
        start < q,
        q <= line.len(),
        label_try(line, start, q) is Some,
    ensures
        ({
            let m = label_try(line, start, q)->Some_0;
            m.start == start && q <= m.label_end && m.label_end < m.link_start && m.link_start
                < m.link_end && m.link_end < m.end && m.end <= line.len()
        }),
    decreases line.len() - q,
{
    if q >= line.len() {
    } else if line[q] == ']' && match_after(line, q + 1) is Some {
        lemma_match_after_bounds(line, q + 1);
    } else {
        lemma_label_try_bounds(line, start, q + 1);
    }
}

pub proof fn lemma_find_link_bounds(line: Seq<char>, p: int)
    requires
        0 <= p,
        p <= line.len(),
        find_link(line, p) is Some,
    ensures
        ({
            let m = find_link(line, p)->Some_0;
            p <= m.start && m.start + 1 <= m.label_end && m.label_end <= line.len() && m.label_end
                < m.link_start && m.link_start < m.link_end && m.link_end < m.end && m.end
                <= line.len() && p < m.end
        }),
    decreases line.len() - p,
{
    if p >= line.len() {
    } else if line[p] == '[' && label_try(line, p, p + 1) is Some {
        lemma_label_try_bounds(line, p, p + 1);
    } else {
        lemma_find_link_bounds(line, p + 1);
    }
}

/// The spans (without break) that the link scan emits for `line[p ..]`:
/// plain text up to each match, one link span per match, and trailing plain
/// text.
pub open spec fn link_scan_shapes(line: Seq<char>, p: int) -> Seq<SpanShape>
    decreases line.len() - p,
    via link_scan_shapes_decreases
{
    if p < 0 || p >= line.len() {
        Seq::empty()
    } else {
        match find_link(line, p) {
            None => seq![plain_shape(line.subrange(p, line.len() as int))],
            Some(m) => {
                let pre = if m.start > p {
                    seq![plain_shape(line.subrange(p, m.start))]
                } else {
                    Seq::<SpanShape>::empty()
                };
                pre + seq![
                    link_shape(
                        line.subrange(m.start + 1, m.label_end),
                        line.subrange(m.link_start, m.link_end),
                    ),
                ] + link_scan_shapes(line, m.end)
            },
        }
    }
}

#[via_fn]
proof fn link_scan_shapes_decreases(line: Seq<char>, p: int) {
    if 0 <= p < line.len() {
        if find_link(line, p) is Some {
            lemma_find_link_bounds(line, p);
        }
    }
}

/// The spans one line contributes to the document: a heading span, nothing
/// (for an embedded-image line), or the link scan's spans; every contributing
/// line is terminated by one break span.
pub open spec fn line_shapes(line: Seq<char>) -> Seq<SpanShape> {
    if is_heading_line(line) {
        seq![heading_shape(heading_level_of(line) as nat, heading_text_of(line)), break_shape()]
    } else if is_image_line(line) {
        Seq::empty()
    } else {
        link_scan_shapes(line, 0).push(break_shape())
    }
}

/// Drops one trailing carriage return, as line splitting does for
/// `\r\n`-terminated lines.
pub open spec fn strip_cr(s: Seq<char>) -> Seq<char> {
    if s.len() > 0 && s.last() == '\r' {
        s.drop_last()
    } else {
        s
    }
}

/// The lines of a text, split at `\n` (also consuming a preceding `\r`),
/// without a final empty line for a trailing newline.
pub open spec fn lines_of(text: Seq<char>) -> Seq<Seq<char>>
    decreases text.len(),
    via lines_of_decreases
{
    if text.len() == 0 {
        Seq::empty()
    } else {
        let k = run_len(text, 0, CharClass::NonNewline);
        if k >= text.len() {
            seq![text]
        } else {
            seq![strip_cr(text.subrange(0, k))] + lines_of(
                text.subrange(k + 1, text.len() as int),
            )
        }
    }
}

#[via_fn]
proof fn lines_of_decreases(text: Seq<char>) {
    if text.len() > 0 {
        lemma_run_len_bounds(text, 0, CharClass::NonNewline);
    }
}

/// The concatenation of the shapes of the first `n` lines.
pub open spec fn shapes_upto(lines: Seq<Seq<char>>, n: int) -> Seq<SpanShape>
    decreases n,
{
    if n <= 0 {
        Seq::empty()
    } else {
        shapes_upto(lines, n - 1) + line_shapes(lines[n - 1])
    }
}

/// The shapes of every span the normalizer emits for a document.
pub open spec fn doc_shapes(text: Seq<char>) -> Seq<SpanShape> {
    shapes_upto(lines_of(text), lines_of(text).len() as int)
}


/// Every span the link scan emits is well-formed.
pub proof fn lemma_link_scan_shapes_wf(line: Seq<char>, p: int)
    ensures
        forall|i: int|
            0 <= i < link_scan_shapes(line, p).len() ==> wf_shape(
                #[trigger] link_scan_shapes(line, p)[i],
            ),
    decreases line.len() - p,
{
    if p < 0 || p >= line.len() {
    } else {
        match find_link(line, p) {
            None => {},
            Some(m) => {
                lemma_find_link_bounds(line, p);
                lemma_link_scan_shapes_wf(line, m.end);
                let pre = if m.start > p {
                    seq![plain_shape(line.subrange(p, m.start))]
                } else {
                    Seq::<SpanShape>::empty()
                };
                let lk = seq![
                    link_shape(
                        line.subrange(m.start + 1, m.label_end),
                        line.subrange(m.link_start, m.link_end),
                    ),
                ];
                let rest = link_scan_shapes(line, m.end);
                assert(link_scan_shapes(line, p) == pre + lk + rest);
                assert forall|i: int|
                    0 <= i < link_scan_shapes(line, p).len() implies wf_shape(
                    #[trigger] link_scan_shapes(line, p)[i]) by {
                    if i < pre.len() {
                        assert(link_scan_shapes(line, p)[i] == pre[0]);
                    } else if i < pre.len() + 1 {
                        assert(link_scan_shapes(line, p)[i] == lk[0]);
                    } else {
                        assert(link_scan_shapes(line, p)[i] == rest[i - pre.len() - 1]);
                    }
                }
            },
        }
    }
}

/// Every span one line contributes is well-formed: a break span is empty
/// and linkless, a heading level lies between one and six.
pub proof fn lemma_line_shapes_wf(line: Seq<char>)
    ensures
        forall|i: int|
            0 <= i < line_shapes(line).len() ==> wf_shape(#[trigger] line_shapes(line)[i]),
{
    if is_heading_line(line) {
    } else if is_image_line(line) {
    } else {
        lemma_link_scan_shapes_wf(line, 0);
    }
}

/// The document-model invariant, proved of the normalizer's output: every
/// span shape a document yields is well-formed.
pub proof fn lemma_doc_shapes_wf(text: Seq<char>)
    ensures
        forall|i: int|
            0 <= i < doc_shapes(text).len() ==> wf_shape(#[trigger] doc_shapes(text)[i]),
{
    lemma_shapes_upto_wf(lines_of(text), lines_of(text).len() as int);
}

proof fn lemma_shapes_upto_wf(lines: Seq<Seq<char>>, n: int)
    ensures
        forall|i: int|
            0 <= i < shapes_upto(lines, n).len() ==> wf_shape(#[trigger] shapes_upto(lines, n)[i]),
    decreases n,
{
    if n > 0 {
        lemma_shapes_upto_wf(lines, n - 1);
        lemma_line_shapes_wf(lines[n - 1]);
        let a = shapes_upto(lines, n - 1);
        let b = line_shapes(lines[n - 1]);
        assert forall|i: int|
            0 <= i < shapes_upto(lines, n).len() implies wf_shape(
            #[trigger] shapes_upto(lines, n)[i]) by {
            if i < a.len() {
                assert(shapes_upto(lines, n)[i] == a[i]);
            } else {
                assert(shapes_upto(lines, n)[i] == b[i - a.len()]);
            }
        }
    }
}

/// The views of a sequence of strings.
pub open spec fn views_of(s: Seq<String>) -> Seq<Seq<char>> {
    s.map_values(|x: String| x@)
}

/// Splits a text into its lines, as `lines_of` describes.
fn split_lines(text: &str) -> (r: Vec<String>)
    ensures
        views_of(r@) == lines_of(text@),
    decreases text@.len(),
{
    let n = text.unicode_len();
    if n == 0 {
        let r = Vec::<String>::new();
        proof {
            assert(views_of(r@) =~= lines_of(text@));
        }
        return r;
    }
    let k = scan_run(text, n, 0, CharClass::NonNewline);
    if k >= n {
        let mut r = Vec::<String>::new();
        r.push(String::from_str(text));
        proof {
            assert(text@.subrange(0, n as int) =~= text@);
            assert(views_of(r@) =~= lines_of(text@));
        }
        return r;
    }
    let head = if k > 0 && text.get_char(k - 1) == '\r' {
        text.substring_char(0, k - 1)
    } else {
        text.substring_char(0, k)
    };
    proof {
        let seg = text@.subrange(0, k as int);
        if k > 0 {
            assert(seg.last() == seg[k - 1]);
            assert(seg[k - 1] == text@[k - 1]);
        }
        if k > 0 && text@[k - 1] == '\r' {
            assert(seg.drop_last() =~= text@.subrange(0, k - 1));
        }
        assert(head@ == strip_cr(seg));
    }
    let rest = text.substring_char(k + 1, n);
    let mut r = split_lines(rest);
    r.insert(0, String::from_str(head));
    proof {
        assert(views_of(r@) =~= seq![strip_cr(text@.subrange(0, k as int))] + lines_of(rest@));
    }
    r
}

fn push_break(spans: &mut Vec<FormattedSpan>)
    requires
        forall|i: int| 0 <= i < old(spans)@.len() ==> (#[trigger] old(spans)@[i]).index == i,
    ensures
        shapes_of(final(spans)@) == shapes_of(old(spans)@).push(break_shape()),
        forall|i: int| 0 <= i < final(spans)@.len() ==> (#[trigger] final(spans)@[i]).index == i,
{
    let idx = spans.len();
    spans.push(
        FormattedSpan {
            index: idx,
            text: String::new(),
            is_heading: false,
            heading_level: 0,
            link: None,
            is_break: true,
        },
    );
    proof {
        lemma_shapes_push(old(spans)@, final(spans)@.last());
        assert(final(spans)@.last().shape() == break_shape());
        assert(shapes_of(final(spans)@) =~= shapes_of(old(spans)@).push(break_shape()));
    }
}

/// Emits the link scan's spans for `line[p ..]`, assigning indices where the
/// span vector currently ends.
fn scan_links_push(spans: &mut Vec<FormattedSpan>, line: &str, n: usize, p: usize)
    requires
        n == line@.len(),
        p <= n,
        forall|i: int| 0 <= i < old(spans)@.len() ==> (#[trigger] old(spans)@[i]).index == i,
    ensures
        shapes_of(final(spans)@) == shapes_of(old(spans)@) + link_scan_shapes(line@, p as int),
        forall|i: int| 0 <= i < final(spans)@.len() ==> (#[trigger] final(spans)@[i]).index == i,
    decreases n - p,
{
    if p >= n {
        proof {
            assert(shapes_of(spans@) =~= shapes_of(spans@) + link_scan_shapes(line@, p as int));
        }
        return;
    }
    match find_link_exec(line, n, p) {
        None => {
            let idx = spans.len();
            let txt = String::from_str(line.substring_char(p, n));
            spans.push(
                FormattedSpan {
                    index: idx,
                    text: txt,
                    is_heading: false,
                    heading_level: 0,
                    link: None,
                    is_break: false,
                },
            );
            proof {
                lemma_shapes_push(old(spans)@, final(spans)@.last());
                assert(shapes_of(final(spans)@) =~= shapes_of(old(spans)@) + link_scan_shapes(
                    line@,
                    p as int,
                ));
            }
        },
        Some(hit) => {
            proof {
                lemma_find_link_bounds(line@, p as int);
            }
            if hit.start > p {
                let idx = spans.len();
                let txt = String::from_str(line.substring_char(p, hit.start));
                spans.push(
                    FormattedSpan {
                        index: idx,
                        text: txt,
                        is_heading: false,
                        heading_level: 0,
                        link: None,
                        is_break: false,
                    },
                );
                proof {
                    lemma_shapes_push(old(spans)@, spans@.last());
                }
            }
            let ghost mid2 = spans@;
            let idx = spans.len();
            let label = String::from_str(line.substring_char(hit.start + 1, hit.label_end));
            let target = String::from_str(line.substring_char(hit.link_start, hit.link_end));
            spans.push(
                FormattedSpan {
                    index: idx,
                    text: label,
                    is_heading: false,
                    heading_level: 0,
                    link: Some(target),
                    is_break: false,
                },
            );
            proof {
                lemma_shapes_push(mid2, spans@.last());
            }
            let ghost mid3 = spans@;
            scan_links_push(spans, line, n, hit.end);
            proof {
                let m = find_link(line@, p as int)->Some_0;
                let pre = if m.start > p {
                    seq![plain_shape(line@.subrange(p as int, m.start))]
                } else {
                    Seq::<SpanShape>::empty()
                };
                let lk = seq![
                    link_shape(
                        line@.subrange(m.start + 1, m.label_end),
                        line@.subrange(m.link_start, m.link_end),
                    ),
                ];
                assert(shapes_of(mid3) =~= shapes_of(old(spans)@) + pre + lk);
                assert(shapes_of(final(spans)@) =~= shapes_of(old(spans)@) + (pre + lk
                    + link_scan_shapes(line@, m.end)));
            }
        },
    }
}

/// One inline link match, as positions in the line: the label is
/// `line[start + 1 .. label_end]`, the link text `line[link_start .. link_end]`.
struct LinkHit {
    start: usize,
    label_end: usize,
    link_start: usize,
    link_end: usize,
    end: usize,
}

fn match_after_exec(line: &str, n: usize, p: usize) -> (r: Option<(usize, usize, usize)>)
    requires
        n == line@.len(),
        p <= n,
    ensures
        match r {
            None => match_after(line@, p as int) is None,
            Some(t) => match_after(line@, p as int) == Some((t.0 as int, t.1 as int, t.2 as int)),
        },
{
    if p >= n || n - p < 3 {
        return None;
    }
    if !(line.get_char(p) == '(' && line.get_char(p + 1) == '.' && line.get_char(p + 2) == '/') {
        return None;
    }
    let t0 = p + 3;
    let tl = scan_run(line, n, t0, CharClass::NonSpace);
    if tl == 0 {
        return None;
    }
    let sp = t0 + tl;
    if sp >= n || line.get_char(sp) != ' ' {
        return None;
    }
    if sp + 1 >= n || line.get_char(sp + 1) != '"' {
        return None;
    }
    let l0 = sp + 2;
    let ll = scan_run(line, n, l0, CharClass::NonQuote);
    if ll == 0 {
        return None;
    }
    let le = l0 + ll;
    if le >= n || line.get_char(le) != '"' {
        return None;
    }
    if le + 1 >= n || line.get_char(le + 1) != ')' {
        return None;
    }
    Some((l0, le, le + 2))
}

fn try_label_exec(line: &str, n: usize, start: usize, q: usize) -> (r: Option<LinkHit>)
    requires
        n == line@.len(),
        start < q,
        q <= n,
    ensures
        match r {
            None => label_try(line@, start as int, q as int) is None,
            Some(h) => label_try(line@, start as int, q as int) == Some(
                LinkMatch {
                    start: h.start as int,
                    label_end: h.label_end as int,
                    link_start: h.link_start as int,
                    link_end: h.link_end as int,
                    end: h.end as int,
                },
            ),
        },
    decreases n - q,
{
    if q >= n {
        return None;
    }
    if line.get_char(q) == ']' {
        match match_after_exec(line, n, q + 1) {
            Some(t) => Some(
                LinkHit {
                    start,
                    label_end: q,
                    link_start: t.0,
                    link_end: t.1,
                    end: t.2,
                },
            ),
            None => try_label_exec(line, n, start, q + 1),
        }
    } else {
        try_label_exec(line, n, start, q + 1)
    }
}

fn find_link_exec(line: &str, n: usize, p: usize) -> (r: Option<LinkHit>)
    requires
        n == line@.len(),
        p <= n,
    ensures
        match r {
            None => find_link(line@, p as int) is None,
            Some(h) => find_link(line@, p as int) == Some(
                LinkMatch {
                    start: h.start as int,
                    label_end: h.label_end as int,
                    link_start: h.link_start as int,
                    link_end: h.link_end as int,
                    end: h.end as int,
                },
            ),
        },
    decreases n - p,
{
    if p >= n {
        return None;
    }
    if line.get_char(p) == '[' {
        match try_label_exec(line, n, p, p + 1) {
            Some(h) => Some(h),
            None => find_link_exec(line, n, p + 1),
        }
    } else {
        find_link_exec(line, n, p + 1)
    }
}

/// Emits every span of one line, assigning indices where the span vector
/// currently ends.
fn append_line_spans(spans: &mut Vec<FormattedSpan>, line: &str)
    requires
        forall|i: int| 0 <= i < old(spans)@.len() ==> (#[trigger] old(spans)@[i]).index == i,
    ensures
        shapes_of(final(spans)@) == shapes_of(old(spans)@) + line_shapes(line@),
        forall|i: int| 0 <= i < final(spans)@.len() ==> (#[trigger] final(spans)@[i]).index == i,
{
    let n = line.unicode_len();
    let h = scan_run(line, n, 0, CharClass::Hash);
    if 1 <= h && h <= 6 && h < n && in_class_exec(CharClass::Space, line.get_char(h)) {
        let w = scan_run(line, n, h, CharClass::Space);
        let idx = spans.len();
        let txt = String::from_str(line.substring_char(h + w, n));
        spans.push(
            FormattedSpan {
                index: idx,
                text: txt,
                is_heading: true,
                heading_level: h,
                link: None,
                is_break: false,
            },
        );
        proof {
            lemma_shapes_push(old(spans)@, spans@.last());
        }
        push_break(spans);
        proof {
            assert(shapes_of(final(spans)@) =~= shapes_of(old(spans)@) + line_shapes(line@));
        }
    } else if n >= 3 && line.get_char(0) == '[' && line.get_char(1) == '!' && line.get_char(2)
        == '[' {
        proof {
            assert(shapes_of(spans@) =~= shapes_of(spans@) + line_shapes(line@));
        }
    } else {
        scan_links_push(spans, line, n, 0);
        push_break(spans);
        proof {
            assert(shapes_of(final(spans)@) =~= shapes_of(old(spans)@) + line_shapes(line@));
        }
    }
}

/// Normalizes a markup payload into its ordered sequence of tagged spans:
/// the spans of each line in order, with document-wide contiguous indices.
pub fn parse_markdown(text: &str) -> (spans: Vec<FormattedSpan>)
    ensures
        shapes_of(spans@) == doc_shapes(text@),
        forall|i: int| 0 <= i < spans@.len() ==> (#[trigger] spans@[i]).index == i,
{
    let lines = split_lines(text);
    let mut spans: Vec<FormattedSpan> = Vec::new();
    let ghost gl = lines_of(text@);
    let mut li: usize = 0;
    proof {
        assert(shapes_of(spans@) =~= shapes_upto(gl, 0));
    }
    while li < lines.len()
        invariant
            views_of(lines@) == gl,
            li <= lines@.len(),
            shapes_of(spans@) == shapes_upto(gl, li as int),
            forall|i: int| 0 <= i < spans@.len() ==> (#[trigger] spans@[i]).index == i,
        decreases lines@.len() - li,
    {
        proof {
            assert(gl[li as int] == lines@[li as int]@);
        }
        append_line_spans(&mut spans, lines[li].as_str());
        li += 1;
    }
    proof {
        assert(gl.len() == lines@.len());
        assert(shapes_of(spans@) == doc_shapes(text@));
    }
    spans
}

} // verus!
