use wik::cache::{create_hash, CachingSession};
use wik::fetch::{
    article_page_url, article_spans_from_html, decorate_snippets, normalize_payload,
    plan_request, search_query_url, CacheDecision, SearchResult,
};

#[test]
fn search_url_is_canonical() {
    assert_eq!(
        search_query_url("Rust"),
        "https://en.wikipedia.org/w/api.php?action=query&list=search&srsearch=Rust&srlimit=25&format=json"
    );
}

#[test]
fn article_url_is_canonical() {
    assert_eq!(
        article_page_url("Rust (programming language)"),
        "https://en.wikipedia.org/w/rest.php/v1/page/Rust (programming language)/html"
    );
}

#[test]
fn miss_then_hit_round_trip() {
    let mut cache = CachingSession::new();
    let url = search_query_url("Rust");
    match plan_request(&cache, &url) {
        CacheDecision::Fetch => {}
        CacheDecision::UseCache(_) => panic!("fresh cache cannot hit"),
    }
    let name = create_hash(&url);
    cache.record_outcome(&url, name.clone(), true);
    match plan_request(&cache, &url) {
        CacheDecision::UseCache(got) => assert_eq!(got, name),
        CacheDecision::Fetch => panic!("recorded key must hit"),
    }
}

/// A stand-in transport that counts how often it is reached.
struct CountingTransport {
    calls: usize,
}

impl CountingTransport {
    fn fetch(&mut self, _url: &str) -> String {
        self.calls += 1;
        String::from("{\"query\":{\"search\":[]}}")
    }
}

fn get_or_fetch(
    cache: &mut CachingSession,
    transport: &mut CountingTransport,
    url: &String,
) -> String {
    match plan_request(cache, url) {
        CacheDecision::UseCache(name) => name,
        CacheDecision::Fetch => {
            let _payload = transport.fetch(url);
            let name = create_hash(url);
            // The content write succeeded, so the fetch is recorded.
            cache.record_outcome(url, name.clone(), true);
            name
        }
    }
}

#[test]
fn cache_short_circuit_hits_network_once() {
    let mut cache = CachingSession::new();
    let mut transport = CountingTransport { calls: 0 };
    let url = search_query_url("Rust");
    let first = get_or_fetch(&mut cache, &mut transport, &url);
    let second = get_or_fetch(&mut cache, &mut transport, &url);
    assert_eq!(transport.calls, 1);
    assert_eq!(first, second);
}

#[test]
fn clean_room_scenario() {
    // From an empty cache, one search records exactly one entry whose key is
    // the canonical search request string; an identical second search causes
    // no further network call and resolves to the same content name.
    let mut cache = CachingSession::new();
    assert!(cache.lookup_table.is_empty());
    let mut transport = CountingTransport { calls: 0 };
    let url = search_query_url("Rust");
    let first = get_or_fetch(&mut cache, &mut transport, &url);
    assert_eq!(cache.lookup_table.len(), 1);
    assert_eq!(cache.lookup_table[0].0, url);
    assert_eq!(transport.calls, 1);
    let second = get_or_fetch(&mut cache, &mut transport, &url);
    assert_eq!(transport.calls, 1);
    assert_eq!(cache.lookup_table.len(), 1);
    assert_eq!(first, second);
}

#[test]
fn failed_write_is_fetched_again() {
    let mut cache = CachingSession::new();
    let url = search_query_url("Rust");
    let name = create_hash(&url);
    cache.record_outcome(&url, name, false);
    match plan_request(&cache, &url) {
        CacheDecision::Fetch => {}
        CacheDecision::UseCache(_) => panic!("failed write must not be indexed"),
    }
}

#[test]
fn decorate_wraps_snippets_in_ellipses() {
    let results = vec![
        SearchResult {
            title: String::from("One"),
            pageid: 1,
            snippet: String::from("first"),
        },
        SearchResult {
            title: String::from("Two"),
            pageid: 2,
            snippet: String::from("second"),
        },
    ];
    let decorated = decorate_snippets(&results);
    assert_eq!(decorated.len(), 2);
    assert_eq!(decorated[0].title, "One");
    assert_eq!(decorated[0].pageid, 1);
    assert_eq!(decorated[0].snippet, "...first...");
    assert_eq!(decorated[1].snippet, "...second...");
}

#[test]
fn normalize_payload_parses_and_prunes() {
    let spans = normalize_payload("# Top\nkept\n## References\ndropped");
    assert_eq!(spans.len(), 4);
    assert_eq!(spans[0].text, "Top");
    assert!(spans[1].is_break);
    assert_eq!(spans[2].text, "kept");
    assert!(spans[3].is_break);
}

#[test]
fn article_spans_convert_html_headings() {
    // If the converter handed the HTML back unchanged, the single line
    // would come out as one plain span; a real conversion yields a heading.
    let spans = article_spans_from_html("<h1>Earth</h1>");
    let heading = spans
        .iter()
        .find(|s| s.is_heading)
        .expect("converted HTML must contain a heading span");
    assert_eq!(heading.text, "Earth");
    assert_eq!(heading.heading_level, 1);
    assert!(spans.iter().all(|s| s.text != "<h1>Earth</h1>"));
}

#[test]
fn article_spans_prune_trailing_sections() {
    let spans = article_spans_from_html(
        "<h1>Subject</h1><p>body</p><h2>See Also</h2><p>dropped</p>",
    );
    assert!(spans.iter().any(|s| s.text == "Subject"));
    assert!(spans.iter().all(|s| s.text != "See Also"));
    assert!(spans.iter().all(|s| s.text != "dropped"));
}
