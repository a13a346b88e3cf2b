//! The fetch orchestration layer: canonical request URLs, the hit-or-fetch
//! decision against the session cache, and the article payload pipeline.
//!
//! The network call itself and the content files live with the surrounding
//! program; this module decides, from the index alone, whether a request is
//! served from the cache or must be fetched, and turns a fetched article's
//! HTML into its display spans.

use vstd::prelude::*;
use crate::cache::{
    CachingSession, FileName, Url, content_name_of, lemma_map_of_pairs_contains,
    lemma_map_of_pairs_index,
};
use crate::parse::{doc_shapes, parse_markdown};
use crate::prune::{kept_prefix_len, lemma_kept_prefix_bounds, remove_unnecessary_spans};
use crate::span::{FormattedSpan, SpanShape, shapes_of};

verus! {

/// One result row of a search response.
#[derive(Debug, Clone)]
pub struct SearchResult {
    pub title: String,
    pub pageid: i32,
    pub snippet: String,
}

/// The envelope of a search response.
pub struct Query {
    pub search: Vec<SearchResult>,
}

/// A search response: an ordered list of result rows.
pub struct WikiSearchResponse {
    pub query: Query,
}

/// An article payload: its title and its raw markup content.
pub struct WikiPageData {
    pub title: String,
    pub markdown_content: String,
}

/// The canonical request URL of a free-text search.
pub open spec fn search_url_spec(query: Seq<char>) -> Seq<char> {
    "https://en.wikipedia.org/w/api.php?action=query&list=search&srsearch="@ + query
        + "&srlimit=25&format=json"@
}

/// Builds the canonical request URL of a free-text search.
pub fn search_query_url(query: &str) -> (r: Url)
    ensures
        r@ == search_url_spec(query@),
{
    let mut s = String::from_str(
        "https://en.wikipedia.org/w/api.php?action=query&list=search&srsearch=",
    );
    s.append(query);
    s.append("&srlimit=25&format=json");
    s
}

/// The canonical request URL of an article, by its title.
pub open spec fn article_url_spec(title: Seq<char>) -> Seq<char> {
    "https://en.wikipedia.org/w/rest.php/v1/page/"@ + title + "/html"@
}

/// Builds the canonical request URL of an article.
pub fn article_page_url(title: &str) -> (r: Url)
    ensures
        r@ == article_url_spec(title@),
{
    let mut s = String::from_str("https://en.wikipedia.org/w/rest.php/v1/page/");
    s.append(title);
    s.append("/html");
    s
}

/// What to do for a request: read the named content file back, or fetch over
/// the network. The cache is consulted but never mutated by this decision.
pub enum CacheDecision {
    UseCache(FileName),
    Fetch,
}

/// Decides a request against the session cache: a recorded key is served
/// from its content file (no network call), an absent key must be fetched.
pub fn plan_request(cache: &CachingSession, url: &Url) -> (d: CacheDecision)
    requires
        cache.wf(),
    ensures
        match d {
            CacheDecision::UseCache(name) => cache.table_map().contains_key(url@) && name@
                == cache.table_map()[url@] && name@ == content_name_of(url@),
            CacheDecision::Fetch => !cache.table_map().contains_key(url@),
        },
{
    match cache.cached_file_name(url) {
        Some(name) => {
            proof {
                lemma_map_of_pairs_contains(cache.lookup_table@, url@);
                let i = choose|i: int|
                    0 <= i < cache.lookup_table@.len() && (#[trigger] cache.lookup_table@[i]).0@
                        == url@;
                lemma_map_of_pairs_index(cache.lookup_table@, i);
            }
            CacheDecision::UseCache(name)
        },
        None => CacheDecision::Fetch,
    }
}

/// Cache short-circuit: once a key's fetch outcome has been recorded, the
/// index contains the key with its content name, so a second identical
/// request decides `UseCache` and reaches no network.
pub proof fn lemma_cache_short_circuit(m: Map<Seq<char>, Seq<char>>, key: Seq<char>)
    ensures
        m.insert(key, content_name_of(key)).contains_key(key),
        m.insert(key, content_name_of(key))[key] == content_name_of(key),
{
}

/// The markdown rendering of an HTML document, as the trusted converter
/// computes it.
pub uninterp spec fn markdown_of(html: Seq<char>) -> Seq<char>;

/// Relies on htmd's `HtmlToMarkdown` converter, built to skip the script,
/// style, table and sup tags: the markdown text is a function of the HTML
/// alone, and in this version conversion cannot fail (the parser accepts
/// any string and the tree-to-markdown writer is infallible), so the error
/// arm below is never taken.
#[verifier::external_body]
fn html_to_markdown(html: &str) -> (r: String)
    ensures
        r@ == markdown_of(html@),
{
    let converter = htmd::HtmlToMarkdown::builder().skip_tags(
        vec!["script", "style", "table", "sup"],
    ).build();
    match converter.convert(html) {
        Ok(s) => s,
        Err(_) => String::new(),
    }
}

/// The normalized shape sequence of a markup payload: its parsed spans with
/// everything from the first trailing-boilerplate heading onward removed.
pub open spec fn normalized_shapes(md: Seq<char>) -> Seq<SpanShape> {
    doc_shapes(md).take(kept_prefix_len(doc_shapes(md)))
}

/// Parses a markup payload and prunes its trailing-boilerplate sections.
pub fn normalize_payload(markdown: &str) -> (spans: Vec<FormattedSpan>)
    ensures
        shapes_of(spans@) == normalized_shapes(markdown@),
        forall|i: int| 0 <= i < spans@.len() ==> (#[trigger] spans@[i]).index == i,
{
    let parsed = parse_markdown(markdown);
    let ghost parsed_view = parsed@;
    let spans = remove_unnecessary_spans(parsed);
    proof {
        lemma_kept_prefix_bounds(shapes_of(parsed_view));
        let k = kept_prefix_len(shapes_of(parsed_view));
        assert(shapes_of(parsed_view.take(k)) =~= shapes_of(parsed_view).take(k));
    }
    spans
}

/// The markdown payload of a fetched article's HTML, as it is cached: the
/// converter's output.
pub fn article_markdown_from_html(html: &str) -> (md: String)
    ensures
        md@ == markdown_of(html@),
{
    html_to_markdown(html)
}

/// Turns a fetched article's HTML into its display spans: the HTML is
/// converted to markdown, parsed, and pruned; indices stay contiguous.
pub fn article_spans_from_html(html: &str) -> (spans: Vec<FormattedSpan>)
    ensures
        shapes_of(spans@) == normalized_shapes(markdown_of(html@)),
        forall|i: int| 0 <= i < spans@.len() ==> (#[trigger] spans@[i]).index == i,
{
    let md = article_markdown_from_html(html);
    normalize_payload(md.as_str())
}

/// The snippet decoration applied to each search result before display.
pub open spec fn decorated(s: Seq<char>) -> Seq<char> {
    "..."@ + s + "..."@
}

/// Wraps every result's snippet in ellipses, keeping title and page id.
pub fn decorate_snippets(results: &Vec<SearchResult>) -> (r: Vec<SearchResult>)
    ensures
        r@.len() == results@.len(),
        forall|i: int|
            0 <= i < r@.len() ==> (#[trigger] r@[i]).title@ == results@[i].title@ && r@[i].pageid
                == results@[i].pageid && r@[i].snippet@ == decorated(results@[i].snippet@),
{
    let mut out: Vec<SearchResult> = Vec::new();
    let mut i: usize = 0;
    while i < results.len()
        invariant
            i <= results@.len(),
            out@.len() == i,
            forall|j: int|
                0 <= j < i ==> (#[trigger] out@[j]).title@ == results@[j].title@ && out@[j].pageid
                    == results@[j].pageid && out@[j].snippet@ == decorated(results@[j].snippet@),
        decreases results@.len() - i,
    {
        let mut sn = String::from_str("...");
        sn.append(results[i].snippet.as_str());
        sn.append("...");
        out.push(
            SearchResult {
                title: results[i].title.clone(),
                pageid: results[i].pageid,
                snippet: sn,
            },
        );
        i += 1;
    }
    out
}

} // verus!
