use sitemirror::crawler::{Crawler, DocOutcome, SkipReason, UrlPlan};
use sitemirror::extract::extract_links;
use sitemirror::frontier::Frontier;
use sitemirror::pathmap::to_local_path;
use sitemirror::percent::{percent_decode_bytes, percent_decode_str};
use sitemirror::scope::in_scope;
use sitemirror::store::{fetch_decision, text_mime, FetchDecision};

fn wiki_policy() -> (Vec<String>, Vec<String>) {
    (
        vec!["http://example.org/wiki/".to_string()],
        vec!["http://example.org/wiki/Template:".to_string()],
    )
}

#[test]
fn scope_conjunction() {
    let (inc, exc) = wiki_policy();
    assert!(in_scope("http://example.org/wiki/Page_A", &inc, &exc));
    assert!(!in_scope("http://example.org/wiki/Template:Infobox", &inc, &exc));
    assert!(!in_scope("http://other.example/wiki/Page_A", &inc, &exc));
}

#[test]
fn scope_decodes_before_comparing() {
    let (inc, exc) = wiki_policy();
    // A percent-encoded colon still matches the exclude prefix.
    assert!(!in_scope("http://example.org/wiki/Template%3AInfobox", &inc, &exc));
    // An entity-encoded path still matches the include prefix.
    assert!(in_scope("http://example.org/wiki/A&amp;B", &inc, &exc));
}

#[test]
fn scope_exclude_only_narrows() {
    let (inc, mut exc) = wiki_policy();
    let url = "http://example.org/wiki/Lists/All";
    assert!(in_scope(url, &inc, &exc));
    exc.push("http://example.org/wiki/Lists/".to_string());
    assert!(!in_scope(url, &inc, &exc));
    // A URL that was already out of scope stays out.
    assert!(!in_scope("http://other.example/x", &inc, &exc));
}

#[test]
fn scope_ignores_entry_order() {
    let inc = vec![
        "http://example.org/wiki/".to_string(),
        "http://example.org/extra/".to_string(),
    ];
    let inc_rev: Vec<String> = inc.iter().rev().cloned().collect();
    let exc = vec![
        "http://example.org/wiki/Template:".to_string(),
        "http://example.org/wiki/Special:".to_string(),
    ];
    let exc_rev: Vec<String> = exc.iter().rev().cloned().collect();
    for url in [
        "http://example.org/wiki/Page_A",
        "http://example.org/extra/Notes",
        "http://example.org/wiki/Special:Search",
        "http://elsewhere.example/",
    ] {
        assert_eq!(in_scope(url, &inc, &exc), in_scope(url, &inc_rev, &exc_rev));
    }
}

#[test]
fn local_path_is_deterministic() {
    let url = "http://example.org/wiki/Page_A";
    let root = "http://example.org/";
    let first = to_local_path(url, root);
    let second = to_local_path(url, root);
    assert_eq!(first, second);
    assert_eq!(first, Some("wiki/Page_A".to_string()));
}

#[test]
fn local_path_decodes_remainder() {
    let p = to_local_path("http://example.org/wiki/Page%20One", "http://example.org/");
    assert_eq!(p, Some("wiki/Page One".to_string()));
}

#[test]
fn local_path_of_root_is_index() {
    let p = to_local_path("http://example.org/", "http://example.org/");
    assert_eq!(p, Some("index.html".to_string()));
}

#[test]
fn local_path_invalid_utf8_is_rejected() {
    // %FF decodes to a byte that is not valid UTF-8.
    assert_eq!(to_local_path("http://example.org/%FF", "http://example.org/"), None);
    assert_eq!(percent_decode_str("%FF"), None);
}

#[test]
fn percent_decoding_bytes() {
    let v: Vec<u8> = b"foo%20bar%3f".to_vec();
    assert_eq!(percent_decode_bytes(&v), b"foo bar?".to_vec());
    // An escape without two hex digits passes the percent sign through.
    let w: Vec<u8> = b"100%zz".to_vec();
    assert_eq!(percent_decode_bytes(&w), b"100%zz".to_vec());
    let t: Vec<u8> = b"100%".to_vec();
    assert_eq!(percent_decode_bytes(&t), b"100%".to_vec());
}

#[test]
fn extractor_finds_and_resolves_links() {
    let base = "http://example.org/wiki/Home";
    let text = "<a href=\"/wiki/Page_A\">A</a> <a href=\"Page_B\">B</a>";
    let links = extract_links(text, base);
    assert_eq!(
        links,
        vec![
            "http://example.org/wiki/Page_A".to_string(),
            "http://example.org/wiki/Page_B".to_string(),
        ]
    );
}

#[test]
fn extractor_decodes_entities_in_href() {
    let base = "http://example.org/wiki/Home";
    let links = extract_links("<a href=\"/wiki/A&amp;B\">x</a>", base);
    assert_eq!(links, vec!["http://example.org/wiki/A&B".to_string()]);
}

#[test]
fn fragment_href_yields_nothing() {
    let base = "http://example.org/wiki/Home";
    let links = extract_links("<a href=\"#section\">here</a>", base);
    assert!(links.is_empty());
}

#[test]
fn extractor_ignores_unterminated_and_empty_values() {
    let base = "http://example.org/wiki/Home";
    assert!(extract_links("<a href=\"\">empty</a>", base).is_empty());
    assert!(extract_links("<a href=\"/wiki/NoClose", base).is_empty());
}

#[test]
fn frontier_dedups_on_drain() {
    let mut f = Frontier::new();
    f.enqueue("http://example.org/wiki/Home".to_string());
    f.enqueue("http://example.org/wiki/Home".to_string());
    assert_eq!(f.take_next(), Some("http://example.org/wiki/Home".to_string()));
    // The re-enqueued copy is absorbed, not handed out a second time.
    assert_eq!(f.take_next(), None);
    f.enqueue("http://example.org/wiki/Home".to_string());
    assert_eq!(f.take_next(), None);
}

#[test]
fn frontier_moves_on_after_a_failed_url() {
    // A URL whose processing fails afterwards is already visited and is
    // never handed out again; the next entry still comes.
    let mut f = Frontier::new();
    f.enqueue("http://example.org/wiki/Broken".to_string());
    f.enqueue("http://example.org/wiki/Next".to_string());
    assert_eq!(f.take_next(), Some("http://example.org/wiki/Broken".to_string()));
    // The worker's fetch of Broken fails; nothing is stored, nothing retried.
    f.enqueue("http://example.org/wiki/Broken".to_string());
    assert_eq!(f.take_next(), Some("http://example.org/wiki/Next".to_string()));
    assert_eq!(f.take_next(), None);
}

#[test]
fn fetch_decision_reuses_local_copy() {
    assert_eq!(fetch_decision(true), FetchDecision::UseLocal);
    assert_eq!(fetch_decision(false), FetchDecision::FetchRemote);
}

#[test]
fn text_gate() {
    assert!(text_mime("text/html"));
    assert!(text_mime("text/plain"));
    assert!(!text_mime("image/png"));
    assert!(!text_mime("application/octet-stream"));
}

#[test]
fn crawler_rejects_unparseable_seed() {
    let (inc, exc) = wiki_policy();
    assert!(Crawler::new("not a url at all", inc, exc).is_none());
}

#[test]
fn crawler_drops_unparseable_candidates() {
    let (inc, exc) = wiki_policy();
    let mut c = Crawler::new("http://example.org/wiki/Home", inc, exc).unwrap();
    assert_eq!(c.take_next(), Some("http://example.org/wiki/Home".to_string()));
    assert!(!c.enqueue_candidate("::not::a::url::".to_string()));
    assert_eq!(c.take_next(), None);
    // A URL that cannot be parsed is skipped as unparseable, not fetched.
    assert!(matches!(
        c.plan("not a url"),
        UrlPlan::Skip(SkipReason::Unparseable)
    ));
}

#[test]
fn out_of_scope_url_is_skipped_at_planning() {
    let (inc, exc) = wiki_policy();
    let mut c = Crawler::new("http://example.org/about", inc, exc).unwrap();
    let seed = c.take_next().unwrap();
    assert!(matches!(c.plan(&seed), UrlPlan::Skip(SkipReason::OutOfScope)));
}

#[test]
fn crawler_wiki_scenario() {
    let (inc, exc) = wiki_policy();
    let mut c = Crawler::new("http://example.org/wiki/Home", inc, exc).unwrap();

    let seed = c.take_next().unwrap();
    assert_eq!(seed, "http://example.org/wiki/Home");
    let (target, local_path) = match c.plan(&seed) {
        UrlPlan::Visit { target, local_path } => (target, local_path),
        UrlPlan::Skip(r) => panic!("seed skipped: {:?}", r),
    };
    assert_eq!(target, "http://example.org/wiki/Home");
    assert_eq!(local_path, "wiki/Home");

    // The fetched Home page, as the store would hand it back from disk.
    let page = "<!DOCTYPE html>\n<html><body>\
        <a href=\"/wiki/Page_A\">A</a>\
        <a href=\"/wiki/Template:Infobox\">T</a>\
        <a href=\"#top\">top</a>\
        </body></html>";
    let outcome = c.handle_document(&target, &page.as_bytes().to_vec());
    match outcome {
        DocOutcome::Extracted(mime, n) => {
            assert!(mime.starts_with("text/"));
            // The fragment is gone; the two real links were offered.
            assert_eq!(n, 2);
        },
        other => panic!("unexpected outcome: {:?}", other),
    }

    // Only Page_A was enqueued: the Template link is excluded by the scope
    // policy and never enters the frontier.
    let a = c.take_next().unwrap();
    assert_eq!(a, "http://example.org/wiki/Page_A");
    assert!(matches!(c.plan(&a), UrlPlan::Visit { .. }));
    assert_eq!(c.take_next(), None);
}

#[test]
fn classified_document_paths() {
    let (inc, exc) = wiki_policy();
    let mut c = Crawler::new("http://example.org/wiki/Home", inc, exc).unwrap();
    let seed = c.take_next().unwrap();

    // Known non-text type: nothing is scanned, nothing queued.
    let bytes = b"<a href=\"/wiki/Page_A\">A</a>".to_vec();
    match c.handle_classified(&seed, &bytes, "application/pdf".to_string()) {
        DocOutcome::NonText(m) => assert_eq!(m, "application/pdf"),
        other => panic!("unexpected outcome: {:?}", other),
    }
    assert_eq!(c.take_next(), None);

    // Text type but not valid UTF-8: skipped as unreadable.
    let bad = vec![b'h', b'i', 0xFF, 0xFE];
    assert!(matches!(
        c.handle_classified(&seed, &bad, "text/plain".to_string()),
        DocOutcome::Unreadable
    ));
    assert_eq!(c.take_next(), None);

    // Text type and valid UTF-8: scanned, and the in-scope link queued.
    match c.handle_classified(&seed, &bytes, "text/html".to_string()) {
        DocOutcome::Extracted(m, n) => {
            assert_eq!(m, "text/html");
            assert_eq!(n, 1);
        },
        other => panic!("unexpected outcome: {:?}", other),
    }
    assert_eq!(c.take_next(), Some("http://example.org/wiki/Page_A".to_string()));
}

#[test]
fn binary_document_contributes_nothing() {
    let (inc, exc) = wiki_policy();
    let mut c = Crawler::new("http://example.org/wiki/Home", inc, exc).unwrap();
    let seed = c.take_next().unwrap();

    // A PNG header: stored, classified as non-text, never scanned.
    let png: Vec<u8> = vec![
        0x89, 0x50, 0x4E, 0x47, 0x0D, 0x0A, 0x1A, 0x0A, 0x00, 0x00, 0x00, 0x0D, 0x49, 0x48, 0x44,
        0x52,
    ];
    match c.handle_document(&seed, &png) {
        DocOutcome::NonText(mime) => assert!(!mime.starts_with("text/")),
        other => panic!("unexpected outcome: {:?}", other),
    }
    assert_eq!(c.take_next(), None);
}
