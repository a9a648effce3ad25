use feedrv3::config::categories::{build_categories, validate_semantic};
use feedrv3::config::defaults::{
    apply_feed_defaults, apply_watch_defaults, validate_id_prefix, FeedDefaults, WatchDefaults,
};
use feedrv3::config::error::ConfigError;
use feedrv3::config::feeds::{global_defaults, merge_feeds_file};
use feedrv3::config::loader::ConfigLoader;
use feedrv3::config::paths::{is_global_file, is_toml_file, resolve_db_base_dir, resolve_log_dir, select_feed_files};
use feedrv3::config::raw::{
    RawCategoryEntry, RawFeed, RawFeedsFile, RawWatch, RawWatchDefaults, RawWatchProfile,
};
use feedrv3::config::sources::{
    build_feed, normalize_optional_string, parse_check_method, parse_detectors, parse_dialect,
    parse_emit_mode, parse_item_identity, parse_watch, resolve_category,
};
use feedrv3::model::{
    CategoryConfig, SqlDialect, WatchCheckMethod, WatchDetector, WatchEmitMode, WatchItemIdentity,
};

fn s(x: &str) -> String {
    x.to_string()
}

fn invalid(e: ConfigError) -> String {
    match e {
        ConfigError::Invalid(m) => m,
        other => panic!("unexpected error {:?}", other),
    }
}

fn raw_feed(id: &str) -> RawFeed {
    RawFeed {
        id: s(id),
        url: s("https://example.com/feed"),
        base_poll_seconds: None,
        id_prefix: None,
        category: None,
        provenance: None,
        tags: None,
        language: None,
        content_type: None,
        cookie_path: None,
    }
}

fn raw_watch_defaults() -> RawWatchDefaults {
    RawWatchDefaults {
        base_poll_seconds: None,
        id_prefix: None,
        category: None,
        provenance: None,
        tags: None,
        language: None,
        content_type: None,
        cookie_path: None,
        check_method: None,
        fallback_to_get: None,
        detectors: None,
        fetch_body_on_change: None,
        max_body_bytes: None,
        item_selector: None,
        item_identity: None,
        item_identity_attr: None,
        title_selector: None,
        link_selector: None,
        summary_selector: None,
        published_selector: None,
        published_format: None,
        include_selectors: None,
        exclude_selectors: None,
        normalize_whitespace: None,
        strip_query_params: None,
        emit_mode: None,
        emit_title: None,
        min_item_count_change: None,
    }
}

fn raw_watch(id: &str) -> RawWatch {
    RawWatch {
        id: s(id),
        url: s("https://example.com/page"),
        profile: None,
        base_poll_seconds: None,
        id_prefix: None,
        category: None,
        provenance: None,
        tags: None,
        language: None,
        content_type: None,
        cookie_path: None,
        check_method: None,
        fallback_to_get: None,
        detectors: None,
        fetch_body_on_change: None,
        max_body_bytes: None,
        item_selector: Some(s("li.item")),
        item_identity: None,
        item_identity_attr: None,
        title_selector: None,
        link_selector: None,
        summary_selector: None,
        published_selector: None,
        published_format: None,
        include_selectors: None,
        exclude_selectors: None,
        normalize_whitespace: None,
        strip_query_params: None,
        emit_mode: None,
        emit_title: None,
        min_item_count_change: None,
    }
}

fn empty_file() -> RawFeedsFile {
    RawFeedsFile {
        base_poll_seconds: None,
        id_prefix: None,
        category: None,
        provenance: None,
        tags: None,
        language: None,
        content_type: None,
        cookie_path: None,
        feeds: Vec::new(),
        watch_defaults: None,
        watch_profiles: Vec::new(),
        watches: Vec::new(),
    }
}

fn names() -> Vec<String> {
    vec![s("news"), s("tech")]
}

fn d2c() -> Vec<(String, String)> {
    vec![(s("example.com"), s("news"))]
}

#[test]
fn id_prefix_is_trimmed_and_checked() {
    assert_eq!(validate_id_prefix("  ab1 ", "ctx").unwrap(), "ab1");
    assert_eq!(invalid(validate_id_prefix("   ", "ctx").unwrap_err()), "ctx id_prefix cannot be empty");
    assert_eq!(
        invalid(validate_id_prefix("Ab", "ctx").unwrap_err()),
        "ctx id_prefix must be lowercase alphanumeric"
    );
    assert_eq!(
        invalid(validate_id_prefix("a-b", "feed defaults in x.toml").unwrap_err()),
        "feed defaults in x.toml id_prefix must be lowercase alphanumeric"
    );
}

#[test]
fn feed_defaults_merge_prefers_file() {
    let mut global = FeedDefaults::empty();
    global.base_poll_seconds = Some(60);
    global.category = Some(s("news"));
    global.tags = Some(vec![s("a")]);
    let mut file = FeedDefaults::empty();
    file.category = Some(s("tech"));
    file.language = Some(s("en"));
    let m = FeedDefaults::merge(&global, &file);
    assert_eq!(m.base_poll_seconds, Some(60));
    assert_eq!(m.category.as_deref(), Some("tech"));
    assert_eq!(m.tags, Some(vec![s("a")]));
    assert_eq!(m.language.as_deref(), Some("en"));
    assert_eq!(m.provenance, None);
}

#[test]
fn empty_defaults_are_merge_identity() {
    let mut x = FeedDefaults::empty();
    x.cookie_path = Some(s("/c"));
    x.base_poll_seconds = Some(5);
    let left = FeedDefaults::merge(&FeedDefaults::empty(), &x);
    let right = FeedDefaults::merge(&x, &FeedDefaults::empty());
    for m in [left, right] {
        assert_eq!(m.cookie_path.as_deref(), Some("/c"));
        assert_eq!(m.base_poll_seconds, Some(5));
        assert_eq!(m.category, None);
    }
}

#[test]
fn watch_defaults_merge_is_associative() {
    let mut a = WatchDefaults::empty();
    a.check_method = Some(s("get"));
    a.emit_mode = Some(s("digest"));
    let mut b = WatchDefaults::empty();
    b.emit_mode = Some(s("any_change"));
    let mut c = WatchDefaults::empty();
    c.check_method = Some(s("head"));
    let l = WatchDefaults::merge(&WatchDefaults::merge(&a, &b), &c);
    let r = WatchDefaults::merge(&a, &WatchDefaults::merge(&b, &c));
    assert_eq!(l.check_method, r.check_method);
    assert_eq!(l.emit_mode, r.emit_mode);
    assert_eq!(l.check_method.as_deref(), Some("head"));
    assert_eq!(l.emit_mode.as_deref(), Some("any_change"));
}

#[test]
fn watch_defaults_from_optional() {
    let d = WatchDefaults::from_optional(None, "p.toml", "watch defaults").unwrap();
    assert!(d.check_method.is_none() && d.id_prefix.is_none());
    let mut raw = raw_watch_defaults();
    raw.id_prefix = Some(s(" "));
    assert_eq!(
        invalid(WatchDefaults::from_optional(Some(&raw), "p.toml", "watch defaults").unwrap_err()),
        "watch defaults in p.toml id_prefix cannot be empty"
    );
    raw.id_prefix = Some(s(" w2 "));
    raw.detectors = Some(vec![s("etag")]);
    let d = WatchDefaults::from_optional(Some(&raw), "p.toml", "watch defaults").unwrap();
    assert_eq!(d.id_prefix.as_deref(), Some("w2"));
    assert_eq!(d.detectors, Some(vec![s("etag")]));
}

#[test]
fn feed_defaults_fill_and_prefix() {
    let mut d = FeedDefaults::empty();
    d.category = Some(s("news"));
    d.id_prefix = Some(s("pre"));
    d.base_poll_seconds = Some(300);
    let mut f = raw_feed("f1");
    f.base_poll_seconds = Some(30);
    let out = apply_feed_defaults(f, &d, "feeds/a.toml").unwrap();
    assert_eq!(out.id, "pre-f1");
    assert_eq!(out.category.as_deref(), Some("news"));
    assert_eq!(out.base_poll_seconds, Some(30));
    assert_eq!(out.id_prefix, None);

    let mut own = raw_feed("f1");
    own.id_prefix = Some(s(" own "));
    let out = apply_feed_defaults(own, &d, "feeds/a.toml").unwrap();
    assert_eq!(out.id, "own-f1");
    assert_eq!(out.id_prefix.as_deref(), Some("own"));

    let mut bad = raw_feed("f1");
    bad.id_prefix = Some(s("OWN"));
    assert_eq!(
        invalid(apply_feed_defaults(bad, &d, "feeds/a.toml").unwrap_err()),
        "feed 'f1' in feeds/a.toml id_prefix must be lowercase alphanumeric"
    );
}

#[test]
fn watch_defaults_follow_profile() {
    let mut base = WatchDefaults::empty();
    base.emit_mode = Some(s("digest"));
    let mut prof = WatchDefaults::empty();
    prof.check_method = Some(s("get"));
    prof.id_prefix = Some(s("pp"));
    let profiles = vec![(s("prof"), prof)];
    let mut w = raw_watch("w1");
    w.profile = Some(s(" prof "));
    let out = apply_watch_defaults(w, &base, &profiles, "p.toml").unwrap();
    assert_eq!(out.check_method.as_deref(), Some("get"));
    assert_eq!(out.emit_mode, None);
    assert_eq!(out.id, "pp-w1");

    let w = raw_watch("w2");
    let out = apply_watch_defaults(w, &base, &profiles, "p.toml").unwrap();
    assert_eq!(out.emit_mode.as_deref(), Some("digest"));
    assert_eq!(out.id, "w2");

    let mut w = raw_watch("w3");
    w.profile = Some(s("nope"));
    assert_eq!(
        invalid(apply_watch_defaults(w, &base, &profiles, "p.toml").unwrap_err()),
        "watch 'w3' in p.toml references unknown profile 'nope'"
    );
}

#[test]
fn feeds_file_layers_defaults_and_profiles() {
    let mut file = empty_file();
    file.category = Some(s("tech"));
    let mut wd = raw_watch_defaults();
    wd.emit_mode = Some(s("digest"));
    file.watch_defaults = Some(wd);
    let mut pd = raw_watch_defaults();
    pd.check_method = Some(s("get"));
    file.watch_profiles = vec![RawWatchProfile { name: s(" a "), defaults: pd }];
    file.feeds = vec![raw_feed("f1")];
    let mut w = raw_watch("w1");
    w.profile = Some(s("a"));
    file.watches = vec![w, raw_watch("w2")];
    let mut gf = FeedDefaults::empty();
    gf.language = Some(s("es"));
    let (feeds, watches) = merge_feeds_file(file, &gf, &WatchDefaults::empty(), "p.toml").unwrap();
    assert_eq!(feeds.len(), 1);
    assert_eq!(feeds[0].category.as_deref(), Some("tech"));
    assert_eq!(feeds[0].language.as_deref(), Some("es"));
    assert_eq!(watches[0].check_method.as_deref(), Some("get"));
    assert_eq!(watches[0].emit_mode.as_deref(), Some("digest"));
    assert_eq!(watches[1].check_method, None);
    assert_eq!(watches[1].emit_mode.as_deref(), Some("digest"));
}

#[test]
fn feeds_file_profile_errors() {
    let mut file = empty_file();
    file.watch_profiles = vec![
        RawWatchProfile { name: s("a"), defaults: raw_watch_defaults() },
        RawWatchProfile { name: s(" a"), defaults: raw_watch_defaults() },
    ];
    assert_eq!(
        invalid(merge_feeds_file(file, &FeedDefaults::empty(), &WatchDefaults::empty(), "p.toml").unwrap_err()),
        "duplicate watch profile 'a' in p.toml"
    );
    let mut file = empty_file();
    file.watch_profiles = vec![RawWatchProfile { name: s("  "), defaults: raw_watch_defaults() }];
    assert_eq!(
        invalid(merge_feeds_file(file, &FeedDefaults::empty(), &WatchDefaults::empty(), "p.toml").unwrap_err()),
        "watch profile name cannot be empty in p.toml"
    );
    let mut file = empty_file();
    let mut pd = raw_watch_defaults();
    pd.id_prefix = Some(s("X"));
    file.watch_profiles = vec![RawWatchProfile { name: s("b"), defaults: pd }];
    assert_eq!(
        invalid(merge_feeds_file(file, &FeedDefaults::empty(), &WatchDefaults::empty(), "p.toml").unwrap_err()),
        "watch profile 'b' in p.toml id_prefix must be lowercase alphanumeric"
    );
}

#[test]
fn global_defaults_absent_are_empty() {
    let d = global_defaults(None, "dir/global.toml").unwrap();
    assert!(d.feed.category.is_none());
    assert!(d.watch.emit_mode.is_none());
}

#[test]
fn optional_strings_are_trimmed() {
    assert_eq!(normalize_optional_string(Some(s("  x "))), Some(s("x")));
    assert_eq!(normalize_optional_string(Some(s("   "))), None);
    assert_eq!(normalize_optional_string(None), None);
}

#[test]
fn watch_options_parse() {
    assert_eq!(parse_check_method(None, "w").unwrap(), WatchCheckMethod::Head);
    assert_eq!(parse_check_method(Some(" GET "), "w").unwrap(), WatchCheckMethod::Get);
    assert_eq!(
        invalid(parse_check_method(Some("post"), "w").unwrap_err()),
        "watch 'w' has invalid check_method 'post', expected 'head' or 'get'"
    );
    assert_eq!(parse_emit_mode(Some("Digest"), "w").unwrap(), WatchEmitMode::Digest);
    assert_eq!(parse_emit_mode(Some("  "), "w").unwrap(), WatchEmitMode::NewItemsOnly);
    assert_eq!(
        invalid(parse_emit_mode(Some("x"), "w").unwrap_err()),
        "watch 'w' has invalid emit_mode 'x', expected 'new_items_only', 'any_change', or 'digest'"
    );
    assert_eq!(parse_item_identity(Some("ATTR"), "w").unwrap(), Some(WatchItemIdentity::Attr));
    assert_eq!(parse_item_identity(None, "w").unwrap(), None);
    assert_eq!(
        invalid(parse_item_identity(Some("id"), "w").unwrap_err()),
        "watch 'w' has invalid item_identity 'id', expected 'href', 'text', or 'attr'"
    );
}

#[test]
fn detectors_parse_with_defaults_and_dedup() {
    assert_eq!(parse_detectors(None, "w").unwrap(), vec![WatchDetector::Etag, WatchDetector::LastModified]);
    assert_eq!(
        parse_detectors(Some(&Vec::new()), "w").unwrap(),
        vec![WatchDetector::Etag, WatchDetector::LastModified]
    );
    let v = vec![s("ETag"), s(" etag"), s("content_hash"), s("Element_Hash")];
    assert_eq!(
        parse_detectors(Some(&v), "w").unwrap(),
        vec![WatchDetector::Etag, WatchDetector::ContentHash, WatchDetector::ElementHash]
    );
    let v = vec![s("etag"), s(" Bogus ")];
    assert_eq!(
        invalid(parse_detectors(Some(&v), "w").unwrap_err()),
        "watch 'w' has invalid detector ' Bogus '; expected one of etag,last_modified,content_length,content_hash,element_hash"
    );
}

#[test]
fn category_resolution() {
    assert_eq!(resolve_category("f", "feed", &Some(s("tech")), "x.org", &names(), &d2c()).unwrap(), "tech");
    assert_eq!(
        invalid(resolve_category("f", "feed", &Some(s("x")), "x.org", &names(), &d2c()).unwrap_err()),
        "feed 'f' category 'x' missing from categories"
    );
    assert_eq!(resolve_category("f", "feed", &None, "example.com", &names(), &d2c()).unwrap(), "news");
    assert_eq!(
        invalid(resolve_category("w", "watch", &None, "other.org", &names(), &d2c()).unwrap_err()),
        "watch 'w' domain 'other.org' missing from categories"
    );
}

#[test]
fn watch_checks_and_defaults() {
    let mut hostless = raw_watch("w1");
    hostless.url = s("not a url");
    assert_eq!(invalid(parse_watch(hostless, 60, &names(), &d2c()).unwrap_err()), "watch 'w1' missing host");
    let mut w = raw_watch("w1");
    w.item_selector = Some(s("  "));
    assert_eq!(
        invalid(parse_watch(w, 60, &names(), &d2c()).unwrap_err()),
        "watch 'w1' requires item_selector"
    );
    let mut w = raw_watch("w1");
    w.item_identity = Some(s("attr"));
    assert_eq!(
        invalid(parse_watch(w, 60, &names(), &d2c()).unwrap_err()),
        "watch 'w1' requires item_identity_attr when item_identity='attr'"
    );
    let mut w = raw_watch("w1");
    w.cookie_path = Some(s(" c.txt "));
    w.url = s("https://EXAMPLE.com/page");
    let c = parse_watch(w, 60, &names(), &d2c()).unwrap();
    assert_eq!(c.domain, "example.com");
    assert_eq!(c.category, "news");
    assert_eq!(c.base_poll_seconds, 60);
    assert!(c.fallback_to_get && c.fetch_body_on_change && c.normalize_whitespace);
    assert!(!c.strip_query_params);
    assert_eq!(c.check_method, WatchCheckMethod::Head);
    assert_eq!(c.emit_mode, WatchEmitMode::NewItemsOnly);
    assert_eq!(c.detectors, vec![WatchDetector::Etag, WatchDetector::LastModified]);
    assert_eq!(c.cookie_path.as_deref(), Some("c.txt"));
}

#[test]
fn feed_build() {
    let mut f = raw_feed("f1");
    f.base_poll_seconds = Some(10);
    f.url = s("https://Example.COM:8443/rss?x=1");
    let c = build_feed(f, 60, &names(), &d2c()).unwrap();
    assert_eq!(c.domain, "example.com");
    assert_eq!(c.category, "news");
    assert_eq!(c.base_poll_seconds, 10);
    let mut hostless = raw_feed("f2");
    hostless.url = s("/relative/feed.xml");
    assert_eq!(invalid(build_feed(hostless, 60, &names(), &d2c()).unwrap_err()), "feed 'f2' missing host");
}

fn cat(name: &str, domains: &[&str]) -> RawCategoryEntry {
    RawCategoryEntry { name: s(name), domains: domains.iter().map(|d| s(d)).collect() }
}

#[test]
fn categories_build_and_fail() {
    let ix = build_categories(&vec![cat(" news ", &[" Example.COM ", "b.org"]), cat("tech", &[])]).unwrap();
    assert_eq!(ix.names, vec![s("news"), s("tech")]);
    assert_eq!(ix.categories[0].domains, vec![s("example.com"), s("b.org")]);
    assert_eq!(ix.domain_to_category.len(), 2);
    assert!(ix.domain_to_category.contains(&(s("b.org"), s("news"))));
    assert_eq!(invalid(build_categories(&vec![cat("  ", &[])]).unwrap_err()), "category name cannot be empty");
    assert_eq!(
        invalid(build_categories(&vec![cat("news", &[]), cat(" news", &[])]).unwrap_err()),
        "duplicate category name 'news'"
    );
    assert_eq!(
        invalid(build_categories(&vec![cat("news", &["a.com", " "])]).unwrap_err()),
        "category 'news' has empty domain"
    );
    assert_eq!(
        invalid(build_categories(&vec![cat("news", &["a.com"]), cat("tech", &["A.com"])]).unwrap_err()),
        "domain 'a.com' appears in multiple categories"
    );
    assert_eq!(
        invalid(build_categories(&Vec::new()).unwrap_err()),
        "categories.toml must define at least one category"
    );
}

#[test]
fn sources_have_unique_ids() {
    let ix = build_categories(&vec![cat("news", &["example.com"])]).unwrap();
    let feeds = vec![raw_feed("a")];
    let watches = vec![raw_watch("a")];
    assert_eq!(
        invalid(ConfigLoader::build_sources(ix, feeds, watches, 60).unwrap_err()),
        "duplicate source id 'a'"
    );
    let ix = build_categories(&vec![cat("news", &["example.com"])]).unwrap();
    let mut b = raw_feed("b");
    b.url = s("http://Example.com/b.xml");
    let feeds = vec![raw_feed("a"), b];
    let watches = vec![raw_watch("c")];
    let out = ConfigLoader::build_sources(ix, feeds, watches, 60).unwrap();
    assert_eq!(out.feeds.len(), 2);
    assert_eq!(out.watches.len(), 1);
    assert_eq!(out.feeds[1].domain, "example.com");
    assert_eq!(out.watches[0].category, "news");
    assert_eq!(out.categories.len(), 1);
}

#[test]
fn semantic_domains_must_be_categorized() {
    let cats = vec![CategoryConfig { name: s("news"), domains: vec![s("a.com")] }];
    assert!(validate_semantic(&vec![s("a.com")], &cats).is_ok());
    assert_eq!(
        invalid(validate_semantic(&vec![s("a.com"), s("b.com")], &cats).unwrap_err()),
        "domain 'b.com' missing from categories.toml"
    );
}

#[test]
fn log_dir_resolution() {
    assert_eq!(resolve_log_dir("/etc/app/config.toml", "/var/log"), "/var/log");
    assert_eq!(resolve_log_dir("/etc/app/config.toml", "logs"), "/etc/app/logs");
    assert_eq!(resolve_log_dir("", "logs"), "./logs");
}

#[test]
fn toml_and_global_files() {
    assert!(is_toml_file("a/b.TOML"));
    assert!(!is_toml_file("a/b.json"));
    assert!(!is_toml_file("toml"));
    assert!(is_global_file("x/Global.Toml"));
    assert!(!is_global_file("x/globals.toml"));
}

#[test]
fn config_error_messages() {
    assert_eq!(ConfigError::Invalid(s("x")).message(), "invalid config: x");
    assert_eq!(ConfigError::Io(s("y")).message(), "io: y");
    assert_eq!(ConfigError::Toml(s("z")).message(), "toml: z");
}

#[test]
fn database_base_directory() {
    assert_eq!(resolve_db_base_dir("crates/fetcher/res/config.toml", "/work"), "crates/fetcher/res");
    assert_eq!(resolve_db_base_dir("src/main/resources/config/config.toml", "/work"), "/work");
    assert_eq!(resolve_db_base_dir("/", "/work"), "/work");
    assert_eq!(resolve_db_base_dir("config.toml", "/work"), "");
}

#[test]
fn database_dialects() {
    assert_eq!(parse_dialect(None).unwrap(), SqlDialect::Sqlite);
    assert_eq!(parse_dialect(Some("   ")).unwrap(), SqlDialect::Sqlite);
    assert_eq!(parse_dialect(Some(" Postgres ")).unwrap(), SqlDialect::Postgres);
    assert_eq!(parse_dialect(Some("SQLITE")).unwrap(), SqlDialect::Sqlite);
    match parse_dialect(Some(" MySQL ")) {
        Err(feedrv3::config::error::ConfigError::Invalid(m)) => assert_eq!(m, "invalid database.dialect 'mysql'"),
        other => panic!("unexpected {:?}", other),
    }
}

#[test]
fn feed_files_selected_in_path_order() {
    let found = vec![
        s("feeds/b.toml"),
        s("feeds/global.toml"),
        s("feeds/a/x.TOML"),
        s("feeds/a/GLOBAL.toml"),
        s("feeds/a.toml"),
        s("feeds/readme.md"),
    ];
    assert_eq!(
        select_feed_files("feeds", found).unwrap(),
        vec![s("feeds/a/x.TOML"), s("feeds/a.toml"), s("feeds/b.toml")]
    );
    assert_eq!(
        invalid(select_feed_files("feeds", vec![s("feeds/global.toml"), s("feeds/notes.txt")]).unwrap_err()),
        "no feed files found in feeds"
    );
}
