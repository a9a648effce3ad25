use feedrv3::feed::{feed_from_document, item_of, parse, FeedEntryDoc, FeedHead, FeedItem, FeedMetadata, ParsedFeed};
use feedrv3::hashing::sha256_hex;
use feedrv3::model::{FeedConfig, GetResult, HeadResult, WatchCheckMethod, WatchConfig, WatchDetector, WatchEmitMode, WatchItemIdentity};
use feedrv3::scheduler::actions::{
    body_hash_of, compute_body_changed, feed_error_mark, get_step, head_step, is_immediate_error, payload_for_body,
    payload_to_store, FeedErrorMark,
};
use feedrv3::scheduler::orchestrator::Scheduler;
use feedrv3::scheduler::watch::{build_synthetic_watch_payload, extract_watch_items_from_html};
use feedrv3::time::{epoch_ms_to_iso, format_epoch_ms, resolve_timezone};

fn s(x: &str) -> String {
    x.to_string()
}

fn feed_cfg() -> FeedConfig {
    FeedConfig {
        id: s("w1"),
        url: s("https://ex.com/"),
        domain: s("ex.com"),
        category: s("news"),
        base_poll_seconds: 60,
        provenance: None,
        tags: None,
        language: None,
        content_type: None,
        cookie_path: None,
        headers_path: None,
        headers: None,
    }
}

fn watch_cfg(detectors: Vec<WatchDetector>, fetch_body_on_change: bool) -> WatchConfig {
    WatchConfig {
        id: s("w1"),
        url: s("https://ex.com/"),
        domain: s("ex.com"),
        category: s("news"),
        base_poll_seconds: 60,
        provenance: None,
        tags: None,
        language: Some(s("en")),
        content_type: None,
        cookie_path: None,
        headers_path: None,
        headers: None,
        check_method: WatchCheckMethod::Head,
        fallback_to_get: true,
        detectors,
        fetch_body_on_change,
        max_body_bytes: None,
        max_items_per_fetch: None,
        item_selector: Some(s("li.item")),
        item_identity: None,
        item_identity_attr: None,
        title_selector: None,
        link_selector: Some(s("a")),
        summary_selector: None,
        published_selector: None,
        published_format: None,
        include_selectors: None,
        exclude_selectors: None,
        normalize_whitespace: true,
        strip_query_params: true,
        emit_mode: WatchEmitMode::NewItemsOnly,
        emit_title: None,
        min_item_count_change: None,
    }
}

fn get_result(body: Option<&[u8]>, etag: Option<&str>, last_modified: Option<i64>) -> GetResult {
    GetResult {
        status: Some(200),
        body: body.map(|b| b.to_vec()),
        etag: etag.map(s),
        last_modified,
        error: None,
        latency_ms: 5,
        set_cookie_headers: Vec::new(),
    }
}

const PAGE: &str = "<html><body><ul>\
<li class=\"item\"><a href=\"/post/1?x=1\">First</a></li>\
<li class=\"item\"><a href=\"https://other.org/2\">Second</a></li>\
<li class=\"item\"><a href=\"/post/1?x=2\">First again</a></li>\
<li class=\"item\">No link</li>\
</ul></body></html>";

#[test]
fn feed_body_changes_when_not_empty() {
    assert!(compute_body_changed(None, None, &get_result(Some(b"x"), None, None), None, None));
    assert!(!compute_body_changed(None, None, &get_result(Some(b""), None, None), None, None));
    assert!(!compute_body_changed(None, None, &get_result(None, None, None), None, None));
}

#[test]
fn watch_detectors_decide_change() {
    let w = watch_cfg(vec![WatchDetector::Etag], false);
    let r = get_result(Some(b"x"), Some("b"), None);
    assert!(compute_body_changed(Some("a"), None, &r, None, Some(&w)));
    assert!(!compute_body_changed(Some("b"), None, &r, None, Some(&w)));
    assert!(compute_body_changed(None, None, &r, None, Some(&w)));
    let no_etag = get_result(Some(b"x"), None, None);
    assert!(!compute_body_changed(Some("a"), None, &no_etag, Some("h"), Some(&w)));

    let w = watch_cfg(vec![WatchDetector::LastModified], false);
    let r = get_result(Some(b"x"), None, Some(10));
    assert!(compute_body_changed(None, Some(9), &r, None, Some(&w)));
    assert!(!compute_body_changed(None, Some(10), &r, None, Some(&w)));

    let w = watch_cfg(vec![WatchDetector::ContentHash], false);
    assert!(compute_body_changed(None, None, &no_etag, Some("h"), Some(&w)));
    assert!(!compute_body_changed(None, None, &no_etag, None, Some(&w)));

    let w = watch_cfg(vec![WatchDetector::Etag], true);
    let r = get_result(Some(b"x"), Some("b"), None);
    assert!(compute_body_changed(Some("b"), None, &r, Some("h"), Some(&w)));
    assert!(!compute_body_changed(Some("b"), None, &r, None, Some(&w)));
}

#[test]
fn immediate_error_statuses() {
    let st = vec![404u16, 410];
    assert!(is_immediate_error(&st, Some(410)));
    assert!(!is_immediate_error(&st, Some(500)));
    assert!(!is_immediate_error(&st, None));
}

#[test]
fn feed_error_marks() {
    let st = vec![404u16];
    assert_eq!(feed_error_mark(&st, 3, Some(404), 0), Some(FeedErrorMark::ImmediateStatus));
    assert_eq!(feed_error_mark(&st, 3, Some(500), 3), Some(FeedErrorMark::MaxConsecutiveErrors));
    assert_eq!(feed_error_mark(&st, 3, Some(500), 2), None);
    assert_eq!(feed_error_mark(&st, 0, None, 100), None);
}

#[test]
fn watch_items_from_page() {
    let items = extract_watch_items_from_html(&feed_cfg(), &watch_cfg(vec![], true), PAGE.as_bytes(), 1700);
    assert_eq!(items.len(), 3);
    assert_eq!(items[0].link.as_deref(), Some("https://ex.com/post/1"));
    assert_eq!(items[0].title.as_deref(), Some("First"));
    assert_eq!(items[0].guid.as_deref(), Some("w1:https://ex.com/post/1"));
    assert_eq!(items[0].published_at_ms, Some(1700));
    assert_eq!(items[0].category.as_deref(), Some("news"));
    assert_eq!(items[0].summary, None);
    assert_eq!(items[1].link.as_deref(), Some("https://other.org/2"));
    assert_eq!(items[2].link, None);
    assert_eq!(items[2].title.as_deref(), Some("No link"));
    assert_eq!(items[2].guid.as_deref(), Some("w1:No link"));
}

#[test]
fn watch_items_by_text_identity() {
    let mut w = watch_cfg(vec![], true);
    w.item_identity = Some(WatchItemIdentity::Text);
    w.strip_query_params = false;
    let items = extract_watch_items_from_html(&feed_cfg(), &w, PAGE.as_bytes(), 1);
    assert_eq!(items.len(), 4);
    assert_eq!(items[2].link.as_deref(), Some("https://ex.com/post/1?x=2"));
    assert_eq!(items[2].guid.as_deref(), Some("w1:First again"));
}

#[test]
fn watch_items_need_a_valid_selector() {
    let mut w = watch_cfg(vec![], true);
    w.item_selector = Some(s("li[["));
    assert!(extract_watch_items_from_html(&feed_cfg(), &w, PAGE.as_bytes(), 1).is_empty());
    w.item_selector = None;
    assert!(extract_watch_items_from_html(&feed_cfg(), &w, PAGE.as_bytes(), 1).is_empty());
}

#[test]
fn synthetic_payload_without_items() {
    let mut w = watch_cfg(vec![], true);
    w.item_selector = Some(s("article"));
    w.emit_mode = WatchEmitMode::AnyChange;
    let p = build_synthetic_watch_payload(&feed_cfg(), &w, 1700, Some("abc"), PAGE.as_bytes());
    assert_eq!(p.metadata.title.as_deref(), Some("w1 changed"));
    assert_eq!(p.metadata.link.as_deref(), Some("https://ex.com/"));
    assert_eq!(p.metadata.description.as_deref(), Some("synthetic payload from ad-hoc watch"));
    assert_eq!(p.metadata.language.as_deref(), Some("en"));
    assert_eq!(p.metadata.updated_at_ms, Some(1700));
    assert_eq!(p.items.len(), 1);
    assert_eq!(p.items[0].guid.as_deref(), Some("w1:abc"));
    assert_eq!(p.items[0].summary.as_deref(), Some("watch detected content change"));
    assert_eq!(p.items[0].description.as_deref(), Some("watch detected content change"));
    let p = build_synthetic_watch_payload(&feed_cfg(), &w, -5, None, PAGE.as_bytes());
    assert_eq!(p.items[0].guid.as_deref(), Some("w1:-5"));
    w.emit_title = Some(s("Custom"));
    w.emit_mode = WatchEmitMode::Digest;
    let p = build_synthetic_watch_payload(&feed_cfg(), &w, 1, None, PAGE.as_bytes());
    assert_eq!(p.metadata.title.as_deref(), Some("Custom"));
    assert_eq!(p.items[0].summary.as_deref(), Some("watch emitted digest update"));
}

#[test]
fn synthetic_payload_with_items() {
    let w = watch_cfg(vec![], true);
    let p = build_synthetic_watch_payload(&feed_cfg(), &w, 1700, Some("abc"), PAGE.as_bytes());
    assert_eq!(p.items.len(), 3);
    assert_eq!(p.metadata.title.as_deref(), Some("w1 changed"));
}

fn parsed(n: usize) -> ParsedFeed {
    ParsedFeed {
        metadata: FeedMetadata { title: None, link: None, description: None, language: None, updated_at_ms: None },
        items: (0..n)
            .map(|_| FeedItem {
                title: None,
                link: None,
                guid: Some(s("g")),
                published_at_ms: None,
                category: None,
                description: None,
                summary: None,
            })
            .collect(),
    }
}

#[test]
fn payload_choice() {
    let w = watch_cfg(vec![], true);
    let f = feed_cfg();
    assert_eq!(payload_to_store(Ok(parsed(2)), &f, Some(&w), 1, None, b"", true).unwrap().items.len(), 2);
    assert!(payload_to_store(Err(s("e")), &f, None, 1, None, b"", true).is_none());
    assert!(payload_to_store(Err(s("e")), &f, Some(&w), 1, None, b"", false).is_none());
    let p = payload_to_store(Err(s("e")), &f, Some(&w), 1, Some("h"), b"<p>x</p>", true).unwrap();
    assert_eq!(p.items[0].guid.as_deref(), Some("w1:h"));
}

#[test]
fn scheduler_needs_categories() {
    assert_eq!(Scheduler::categories_to_run(Vec::new()).unwrap_err(), "no categories configured for scheduler");
    assert_eq!(Scheduler::categories_to_run(vec![s("a")]).unwrap(), vec![s("a")]);
    assert_eq!(Scheduler::tick_interval_seconds(), 5);
}

#[test]
fn feed_document_to_items() {
    let e = FeedEntryDoc {
        title: Some(s("T")),
        links: Vec::new(),
        id: s("id1"),
        published_ms: None,
        updated_ms: Some(5),
        categories: vec![s("c1"), s("c2")],
        summary: Some(s("S")),
        content: Some(s("C")),
    };
    let it = item_of(e);
    assert_eq!(it.link, None);
    assert_eq!(it.guid.as_deref(), Some("id1"));
    assert_eq!(it.published_at_ms, Some(5));
    assert_eq!(it.category.as_deref(), Some("c1"));
    assert_eq!(it.description.as_deref(), Some("C"));
    assert_eq!(it.summary.as_deref(), Some("S"));
    let head = FeedHead { title: Some(s("F")), links: vec![s("l1"), s("l2")], description: None, language: None, updated_ms: Some(9) };
    let p = feed_from_document(head, Vec::new());
    assert_eq!(p.metadata.link.as_deref(), Some("l1"));
    assert_eq!(p.metadata.updated_at_ms, Some(9));
    assert!(p.items.is_empty());
}

#[test]
fn parse_rss_feed() {
    let xml = "<?xml version=\"1.0\"?><rss version=\"2.0\"><channel><title>T</title>\
<link>https://ex.com/</link><description>D</description><language>en</language>\
<item><title>A</title><link>https://ex.com/a</link><guid>g1</guid><description>S</description>\
<category>c1</category><pubDate>Mon, 01 Jan 2024 00:00:00 GMT</pubDate></item></channel></rss>";
    let p = parse(xml.as_bytes()).unwrap();
    assert_eq!(p.metadata.title.as_deref(), Some("T"));
    assert_eq!(p.metadata.description.as_deref(), Some("D"));
    assert_eq!(p.metadata.language.as_deref(), Some("en"));
    assert_eq!(p.items.len(), 1);
    let it = &p.items[0];
    assert_eq!(it.title.as_deref(), Some("A"));
    assert_eq!(it.link.as_deref(), Some("https://ex.com/a"));
    assert_eq!(it.guid.as_deref(), Some("g1"));
    assert_eq!(it.category.as_deref(), Some("c1"));
    assert_eq!(it.summary.as_deref(), Some("S"));
    assert_eq!(it.description.as_deref(), Some("S"));
    assert_eq!(it.published_at_ms, Some(1704067200000));
    assert!(parse(b"not a feed").unwrap_err().starts_with("feed parse error: "));
}

#[test]
fn sha256_hex_vectors() {
    assert_eq!(sha256_hex(b"abc"), "ba7816bf8f01cfea414140de5dae2223b00361a396177a9cb410ff61f20015ad");
    assert_eq!(sha256_hex(b""), "e3b0c44298fc1c149afbf4c8996fb92427ae41e4649b934ca495991b7852b855");
}

#[test]
fn time_zone_text() {
    let utc = resolve_timezone(Some("UTC"), "UTC").unwrap();
    assert_eq!(format_epoch_ms(0, &utc), "1970-01-01 00:00:00.000 UTC");
    assert_eq!(epoch_ms_to_iso(1500, &utc), "1970-01-01T00:00:01.500+00:00");
    let mx = resolve_timezone(Some("America/Mexico_City"), "UTC").unwrap();
    assert_eq!(format_epoch_ms(0, &mx), "1969-12-31 18:00:00.000 CST");
    assert_eq!(format_epoch_ms(i64::MAX, &utc), "1970-01-01 00:00:00.000 UTC");
    assert!(resolve_timezone(Some("Mars/Base"), "UTC").is_err());
}

#[test]
fn time_zone_defaults() {
    assert_eq!(resolve_timezone(None, "UTC").unwrap().name(), "UTC");
    assert_eq!(resolve_timezone(Some("  "), "America/Mexico_City").unwrap().name(), "America/Mexico_City");
    match resolve_timezone(Some("Bad/Zone"), "UTC") {
        Err(feedrv3::config::error::ConfigError::Invalid(m)) => assert_eq!(m, "invalid timezone 'Bad/Zone'"),
        _ => panic!("expected an invalid timezone"),
    }
}

#[test]
fn payload_from_fetched_body() {
    let f = feed_cfg();
    let w = watch_cfg(vec![WatchDetector::ContentHash], false);
    let xml = "<rss version=\"2.0\"><channel><title>T</title><item><title>A</title><link>https://ex.com/a</link></item>\
<item><title>B</title><link>https://ex.com/b</link></item></channel></rss>";
    let p = payload_for_body(&f, None, 5, None, xml.as_bytes(), false).unwrap();
    assert_eq!(p.metadata.title.as_deref(), Some("T"));
    assert_eq!(p.items.len(), 2);
    assert!(payload_for_body(&f, None, 5, None, b"plain text", true).is_none());
    assert!(payload_for_body(&f, Some(&w), 5, None, b"plain text", false).is_none());
    let q = payload_for_body(&f, Some(&w), 5, Some("h"), b"plain text", true).unwrap();
    assert_eq!(q.items.len(), 1);
    assert_eq!(q.metadata.updated_at_ms, Some(5));
}

#[test]
fn fetched_body_hash() {
    let res = get_result(Some(b"abc"), None, None);
    assert_eq!(
        body_hash_of(&res).as_deref(),
        Some("ba7816bf8f01cfea414140de5dae2223b00361a396177a9cb410ff61f20015ad")
    );
    assert!(body_hash_of(&get_result(None, None, None)).is_none());
}

#[test]
fn get_step_decisions() {
    let f = feed_cfg();
    let mut res = get_result(Some(b"plain text"), Some("e1"), None);
    res.set_cookie_headers = vec![s("a=1; Path=/")];
    let st = get_step(&f, None, None, None, Some("b=2"), &res, 7);
    assert_eq!(st.status, Some(200));
    assert_eq!(st.latency_ms, 5);
    assert_eq!(st.body_hash.as_deref(), Some(sha256_hex(b"plain text").as_str()));
    assert!(st.body_changed);
    assert_eq!(st.cookie_header.as_deref(), Some("a=1; b=2"));
    assert!(st.payload.is_none());

    let xml = "<rss version=\"2.0\"><channel><title>T</title><item><title>A</title><link>https://ex.com/a</link></item></channel></rss>";
    let st = get_step(&f, None, None, None, None, &get_result(Some(xml.as_bytes()), None, None), 7);
    assert_eq!(st.payload.unwrap().items[0].title.as_deref(), Some("A"));
    assert!(st.cookie_header.is_none());

    let w = watch_cfg(vec![WatchDetector::Etag], false);
    let st = get_step(&f, Some(&w), Some("e1"), None, None, &get_result(Some(b"same page"), Some("e1"), None), 7);
    assert!(!st.body_changed);
    assert!(st.payload.is_none());

    let st = get_step(&f, None, None, None, None, &get_result(None, None, None), 7);
    assert!(st.body_hash.is_none() && !st.body_changed && st.payload.is_none());
}

#[test]
fn head_step_decisions() {
    let res = HeadResult {
        status: Some(304),
        etag: None,
        last_modified: None,
        error: None,
        latency_ms: 9,
        set_cookie_headers: vec![s("sid=x; HttpOnly")],
    };
    let st = head_step(None, &res);
    assert_eq!((st.status, st.error, st.latency_ms), (Some(304), None, 9));
    assert_eq!(st.cookie_header.as_deref(), Some("sid=x"));
}
