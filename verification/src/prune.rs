//! The section pruner: a one-way latch that drops every span from the first
//! trailing-boilerplate heading ("See Also", "Notes", "References") onward.

use vstd::prelude::*;
use crate::span::{FormattedSpan, SpanShape, shapes_of};

verus! {

/// A heading that starts the trailing-boilerplate part of a document. Once
/// such a heading is reached, the document never resumes real content.
pub open spec fn is_stop_heading(s: SpanShape) -> bool {
    s.is_heading && (s.text == "Notes"@ || s.text == "References"@ || s.text == "See Also"@)
}

/// Number of leading spans kept by the pruner: the index of the first
/// trailing-boilerplate heading, or the length when there is none.
pub open spec fn kept_prefix_len(shapes: Seq<SpanShape>) -> int
    decreases shapes.len(),
{
    if shapes.len() == 0 {
        0
    } else if is_stop_heading(shapes[0]) {
        0
    } else {
        1 + kept_prefix_len(shapes.drop_first())
    }
}

pub proof fn lemma_kept_prefix_bounds(shapes: Seq<SpanShape>)
    ensures
        0 <= kept_prefix_len(shapes) <= shapes.len(),
        forall|i: int|
            0 <= i < kept_prefix_len(shapes) ==> !is_stop_heading(#[trigger] shapes[i]),
        kept_prefix_len(shapes) < shapes.len() ==> is_stop_heading(
            shapes[kept_prefix_len(shapes)],
        ),
    decreases shapes.len(),
{
    if shapes.len() == 0 {
    } else if is_stop_heading(shapes[0]) {
    } else {
        lemma_kept_prefix_bounds(shapes.drop_first());
        assert forall|i: int|
            0 <= i < kept_prefix_len(shapes) implies !is_stop_heading(#[trigger] shapes[i]) by {
            if i > 0 {
                assert(shapes[i] == shapes.drop_first()[i - 1]);
            }
        }
    }
}

/// The kept prefix length is the only cut that is free of stop headings
/// before it and (unless it is the whole sequence) sits on one.
pub proof fn lemma_kept_prefix_unique(shapes: Seq<SpanShape>, k: int)
    requires
        0 <= k <= shapes.len(),
        forall|i: int| 0 <= i < k ==> !is_stop_heading(#[trigger] shapes[i]),
        k < shapes.len() ==> is_stop_heading(shapes[k]),
    ensures
        k == kept_prefix_len(shapes),
    decreases shapes.len(),
{
    if shapes.len() == 0 {
    } else if is_stop_heading(shapes[0]) {
        assert(k == 0);
    } else {
        assert(k >= 1);
        let rest = shapes.drop_first();
        assert forall|i: int| 0 <= i < k - 1 implies !is_stop_heading(#[trigger] rest[i]) by {
            assert(rest[i] == shapes[i + 1]);
        }
        assert(k - 1 < rest.len() ==> is_stop_heading(rest[k - 1]));
        lemma_kept_prefix_unique(rest, k - 1);
    }
}

/// Pruning latch: once a trailing-boilerplate heading occurs at position `j`,
/// no span at or after `j` survives the pruner.
pub proof fn lemma_pruning_latch(shapes: Seq<SpanShape>, j: int)
    requires
        0 <= j < shapes.len(),
        is_stop_heading(shapes[j]),
    ensures
        kept_prefix_len(shapes) <= j,
{
    lemma_kept_prefix_bounds(shapes);
}

/// The pruning cut, both halves: when the first trailing-boilerplate
/// heading of a document stands at position `k`, pruning keeps exactly the
/// spans before `k` — that heading and everything after it is removed,
/// whatever follows it.
pub proof fn lemma_prune_cut_at_first_stop(shapes: Seq<SpanShape>, k: int)
    requires
        0 <= k < shapes.len(),
        is_stop_heading(shapes[k]),
        forall|i: int| 0 <= i < k ==> !is_stop_heading(#[trigger] shapes[i]),
    ensures
        kept_prefix_len(shapes) == k,
{
    lemma_kept_prefix_unique(shapes, k);
}

/// A document without any trailing-boilerplate heading is kept in full.
pub proof fn lemma_prune_keeps_clean(shapes: Seq<SpanShape>)
    requires
        forall|i: int| 0 <= i < shapes.len() ==> !is_stop_heading(#[trigger] shapes[i]),
    ensures
        kept_prefix_len(shapes) == shapes.len(),
{
    lemma_kept_prefix_unique(shapes, shapes.len() as int);
}

/// True exactly when this span is a heading whose text is one of the
/// trailing-boilerplate titles.
fn is_stop_heading_span(span: &FormattedSpan) -> (r: bool)
    ensures
        r == is_stop_heading(span.shape()),
{
    span.is_heading && (str_eq(span.text.as_str(), "Notes") || str_eq(
        span.text.as_str(),
        "References",
    ) || str_eq(span.text.as_str(), "See Also"))
}

/// Character-by-character string equality.
pub fn str_eq(a: &str, b: &str) -> (r: bool)
    ensures
        r == (a@ == b@),
{
    let n = a.unicode_len();
    let m = b.unicode_len();
    if n != m {
        return false;
    }
    let mut i: usize = 0;
    while i < n
        invariant
            n == a@.len(),
            n == b@.len(),
            i <= n,
            forall|j: int| 0 <= j < i ==> a@[j] == b@[j],
        decreases n - i,
    {
        if a.get_char(i) != b.get_char(i) {
            return false;
        }
        i += 1;
    }
    proof {
        assert(a@ =~= b@);
    }
    true
}

/// Removes the trailing-boilerplate part of a document: every span from the
/// first "See Also", "Notes" or "References" heading onward is dropped, and
/// everything before it is kept unchanged.
pub fn remove_unnecessary_spans(spans: Vec<FormattedSpan>) -> (r: Vec<FormattedSpan>)
    ensures
        r@ == spans@.take(kept_prefix_len(shapes_of(spans@))),
{
    let mut spans = spans;
    let mut k: usize = 0;
    loop
        invariant
            k <= spans@.len(),
            forall|i: int| 0 <= i < k ==> !is_stop_heading(#[trigger] shapes_of(spans@)[i]),
        ensures
            k <= spans@.len(),
            forall|i: int| 0 <= i < k ==> !is_stop_heading(#[trigger] shapes_of(spans@)[i]),
            k < spans@.len() ==> is_stop_heading(shapes_of(spans@)[k as int]),
        decreases spans@.len() - k,
    {
        if k == spans.len() {
            break;
        }
        if is_stop_heading_span(&spans[k]) {
            break;
        }
        k += 1;
    }
    proof {
        lemma_kept_prefix_unique(shapes_of(spans@), k as int);
    }
    spans.truncate(k);
    spans
}

} // verus!
