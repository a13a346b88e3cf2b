//! Search-snippet highlighting: the search API wraps the parts of a snippet
//! that match the query in a marker tag pair; this pass splits a snippet
//! into plain and highlighted pieces for display.

use vstd::prelude::*;

verus! {

/// The tag the search API opens a highlighted stretch with.
pub open spec fn opening_tag() -> Seq<char> {
    "<span class=\"searchmatch\">"@
}

/// The tag the search API closes a highlighted stretch with.
pub open spec fn closing_tag() -> Seq<char> {
    "</span>"@
}

/// Whether `pat` occurs in `s` at position `i`.
pub open spec fn occurs_at(s: Seq<char>, pat: Seq<char>, i: int) -> bool {
    0 <= i && i + pat.len() <= s.len() && s.subrange(i, i + pat.len()) == pat
}

/// The first occurrence of `pat` in `s` at or after `from`.
pub open spec fn find_pat(s: Seq<char>, pat: Seq<char>, from: int) -> Option<int>
    decreases s.len() - from,
{
    if from < 0 || from > s.len() {
        None
    } else if occurs_at(s, pat, from) {
        Some(from)
    } else if from >= s.len() {
        None
    } else {
        find_pat(s, pat, from + 1)
    }
}

pub proof fn lemma_find_pat_bounds(s: Seq<char>, pat: Seq<char>, from: int)
    requires
        find_pat(s, pat, from) is Some,
    ensures
        from <= find_pat(s, pat, from)->Some_0,
        find_pat(s, pat, from)->Some_0 + pat.len() <= s.len(),
    decreases s.len() - from,
{
    if from < 0 || from > s.len() {
    } else if occurs_at(s, pat, from) {
    } else if from >= s.len() {
    } else {
        lemma_find_pat_bounds(s, pat, from + 1);
    }
}

/// The pieces of `s[from ..]` between occurrences of `pat`, as string
/// splitting yields them: always at least one piece, with empty pieces for
/// adjacent or leading/trailing occurrences.
pub open spec fn split_on(s: Seq<char>, pat: Seq<char>, from: int) -> Seq<Seq<char>>
    decreases s.len() - from + 1,
    via split_on_decreases
{
    if from < 0 || from > s.len() || pat.len() == 0 {
        Seq::empty()
    } else {
        match find_pat(s, pat, from) {
            None => seq![s.subrange(from, s.len() as int)],
            Some(m) => seq![s.subrange(from, m)] + split_on(s, pat, m + pat.len()),
        }
    }
}

#[via_fn]
proof fn split_on_decreases(s: Seq<char>, pat: Seq<char>, from: int) {
    if !(from < 0 || from > s.len() || pat.len() == 0) {
        if find_pat(s, pat, from) is Some {
            lemma_find_pat_bounds(s, pat, from);
        }
    }
}

/// One displayable piece of a snippet.
#[derive(Debug, Clone)]
pub struct SnippetPart {
    pub text: String,
    pub highlighted: bool,
}

impl SnippetPart {
    /// The piece as a pair of its text and its highlight flag.
    pub open spec fn model(self) -> (Seq<char>, bool) {
        (self.text@, self.highlighted)
    }
}

/// The models of a sequence of pieces.
pub open spec fn models_of(s: Seq<SnippetPart>) -> Seq<(Seq<char>, bool)> {
    s.map_values(|p: SnippetPart| p.model())
}

proof fn lemma_models_push(s: Seq<SnippetPart>, p: SnippetPart)
    ensures
        models_of(s.push(p)) == models_of(s).push(p.model()),
{
    assert(models_of(s.push(p)) =~= models_of(s).push(p.model()));
}

/// The pieces every snippet part after the first contributes: the text up
/// to the closing tag is highlighted; the text between the closing tag and
/// the next occurrence of it (or the part's end) follows unhighlighted,
/// and anything after a second closing tag is dropped.
pub open spec fn tail_pieces(parts: Seq<Seq<char>>, i: int) -> Seq<(Seq<char>, bool)>
    decreases parts.len() - i,
{
    if i < 0 || i >= parts.len() {
        Seq::empty()
    } else {
        let sub = split_on(parts[i], closing_tag(), 0);
        let remaining = if sub.len() >= 2 {
            sub[1]
        } else {
            Seq::<char>::empty()
        };
        seq![(sub[0], true), (remaining, false)] + tail_pieces(parts, i + 1)
    }
}

/// How a snippet is split for display: the text before the first opening
/// tag unhighlighted, then per opening tag a highlighted piece up to the
/// closing tag and the unhighlighted rest of that stretch.
pub open spec fn highlight_pieces(snippet: Seq<char>) -> Seq<(Seq<char>, bool)> {
    let parts = split_on(snippet, opening_tag(), 0);
    seq![(parts[0], false)] + tail_pieces(parts, 1)
}

pub proof fn lemma_split_on_nonempty(s: Seq<char>, pat: Seq<char>, from: int)
    requires
        0 <= from <= s.len(),
        pat.len() >= 1,
    ensures
        split_on(s, pat, from).len() >= 1,
{
}

fn occurs_at_exec(s: &str, n: usize, pat: &str, m: usize, i: usize) -> (r: bool)
    requires
        n == s@.len(),
        m == pat@.len(),
        i <= n,
    ensures
        r == occurs_at(s@, pat@, i as int),
{
    if n - i < m {
        return false;
    }
    let mut j: usize = 0;
    while j < m
        invariant
            n == s@.len(),
            m == pat@.len(),
            i + m <= n,
            j <= m,
            forall|k: int| 0 <= k < j ==> s@[i + k] == pat@[k],
        decreases m - j,
    {
        if s.get_char(i + j) != pat.get_char(j) {
            proof {
                assert(s@.subrange(i as int, i + m) != pat@) by {
                    assert(s@.subrange(i as int, i + m)[j as int] == s@[i + j]);
                }
            }
            return false;
        }
        j += 1;
    }
    proof {
        assert(s@.subrange(i as int, i + m) =~= pat@);
    }
    true
}

fn find_pat_exec(s: &str, n: usize, pat: &str, m: usize, from: usize) -> (r: Option<usize>)
    requires
        n == s@.len(),
        m == pat@.len(),
        from <= n,
    ensures
        match r {
            None => find_pat(s@, pat@, from as int) is None,
            Some(v) => find_pat(s@, pat@, from as int) == Some(v as int),
        },
    decreases n - from,
{
    if occurs_at_exec(s, n, pat, m, from) {
        Some(from)
    } else if from >= n {
        None
    } else {
        find_pat_exec(s, n, pat, m, from + 1)
    }
}

/// Splits `s[from ..]` at each occurrence of `pat`.
fn split_on_exec(s: &str, pat: &str, from: usize) -> (r: Vec<String>)
    requires
        from <= s@.len(),
        pat@.len() >= 1,
    ensures
        views_of_parts(r@) == split_on(s@, pat@, from as int),
    decreases s@.len() - from + 1,
{
    let n = s.unicode_len();
    let m = pat.unicode_len();
    match find_pat_exec(s, n, pat, m, from) {
        None => {
            let mut r = Vec::<String>::new();
            r.push(String::from_str(s.substring_char(from, n)));
            proof {
                assert(views_of_parts(r@) =~= split_on(s@, pat@, from as int));
            }
            r
        },
        Some(hit) => {
            proof {
                lemma_find_pat_bounds(s@, pat@, from as int);
            }
            let head = s.substring_char(from, hit);
            let mut r = split_on_exec(s, pat, hit + m);
            r.insert(0, String::from_str(head));
            proof {
                assert(views_of_parts(r@) =~= split_on(s@, pat@, from as int));
            }
            r
        },
    }
}

/// The views of a sequence of strings.
pub open spec fn views_of_parts(s: Seq<String>) -> Seq<Seq<char>> {
    s.map_values(|x: String| x@)
}

/// Splits a search snippet into its plain and highlighted pieces, in
/// display order.
pub fn highlighted_snippet_parts(snippet: &str) -> (r: Vec<SnippetPart>)
    ensures
        models_of(r@) == highlight_pieces(snippet@),
{
    proof {
        reveal_strlit("<span class=\"searchmatch\">");
        lemma_split_on_nonempty(snippet@, opening_tag(), 0);
    }
    let parts = split_on_exec(snippet, "<span class=\"searchmatch\">", 0);
    let ghost pv = views_of_parts(parts@);
    proof {
        assert(parts@.len() == pv.len());
    }
    let mut out: Vec<SnippetPart> = Vec::new();
    out.push(SnippetPart { text: parts[0].clone(), highlighted: false });
    let mut i: usize = 1;
    proof {
        lemma_models_push(Seq::empty(), out@.last());
        assert(models_of(out@) =~= seq![(pv[0], false)] + tail_pieces_upto(pv, 1));
    }
    while i < parts.len()
        invariant
            views_of_parts(parts@) == pv,
            pv.len() >= 1,
            1 <= i <= parts@.len(),
            models_of(out@) == seq![(pv[0], false)] + tail_pieces_upto(pv, i as int),
        decreases parts@.len() - i,
    {
        proof {
            reveal_strlit("</span>");
            lemma_split_on_nonempty(parts@[i as int]@, closing_tag(), 0);
        }
        let sub = split_on_exec(parts[i].as_str(), "</span>", 0);
        let highlighted = sub[0].clone();
        let remaining = if sub.len() >= 2 {
            sub[1].clone()
        } else {
            String::new()
        };
        let ghost before = out@;
        out.push(SnippetPart { text: highlighted, highlighted: true });
        proof {
            lemma_models_push(before, out@.last());
        }
        let ghost mid = out@;
        out.push(SnippetPart { text: remaining, highlighted: false });
        proof {
            lemma_models_push(mid, out@.last());
            assert(parts@[i as int]@ == pv[i as int]);
            let sv = views_of_parts(sub@);
            assert(sv.len() == sub@.len());
            assert(sv[0] == sub@[0]@);
            if sub@.len() >= 2 {
                assert(sv[1] == sub@[1]@);
            }
            lemma_tail_pieces_upto_step(pv, i as int);
            assert(models_of(out@) =~= seq![(pv[0], false)] + tail_pieces_upto(pv, i + 1));
        }
        i += 1;
    }
    proof {
        lemma_tail_pieces_upto_all(pv, 1);
        assert(models_of(out@) =~= highlight_pieces(snippet@));
    }
    out
}

/// The pieces of the snippet parts in `[1, i)`, for the loop that builds
/// them front to back.
pub open spec fn tail_pieces_upto(parts: Seq<Seq<char>>, i: int) -> Seq<(Seq<char>, bool)>
    decreases i,
{
    if i <= 1 {
        Seq::empty()
    } else {
        let sub = split_on(parts[i - 1], closing_tag(), 0);
        let remaining = if sub.len() >= 2 {
            sub[1]
        } else {
            Seq::<char>::empty()
        };
        tail_pieces_upto(parts, i - 1) + seq![(sub[0], true), (remaining, false)]
    }
}

proof fn lemma_tail_pieces_upto_step(parts: Seq<Seq<char>>, i: int)
    requires
        1 <= i,
    ensures
        ({
            let sub = split_on(parts[i], closing_tag(), 0);
            let remaining = if sub.len() >= 2 {
                sub[1]
            } else {
                Seq::<char>::empty()
            };
            tail_pieces_upto(parts, i + 1) == tail_pieces_upto(parts, i) + seq![
                (sub[0], true),
                (remaining, false),
            ]
        }),
{
}

proof fn lemma_tail_pieces_upto_all(parts: Seq<Seq<char>>, i: int)
    requires
        1 <= i <= parts.len(),
    ensures
        tail_pieces_upto(parts, parts.len() as int) == tail_pieces_upto(parts, i) + tail_pieces(
            parts,
            i,
        ),
    decreases parts.len() - i,
{
    if i == parts.len() {
        assert(tail_pieces_upto(parts, i) + tail_pieces(parts, i) =~= tail_pieces_upto(
            parts,
            parts.len() as int,
        ));
    } else {
        lemma_tail_pieces_upto_all(parts, i + 1);
        lemma_tail_pieces_upto_step(parts, i);
        assert(tail_pieces_upto(parts, i + 1) + tail_pieces(parts, i + 1) =~= tail_pieces_upto(
            parts,
            i,
        ) + tail_pieces(parts, i));
    }
}

} // verus!
