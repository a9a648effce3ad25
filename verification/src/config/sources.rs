//! Sources from the configuration: the parsing of watch options, category
//! resolution, and the checked feed and watch configurations.

use vstd::prelude::*;

use super::categories::contains_name;
use super::error::{copy_str, invalid, invalid_error, os, outcome, ov, strs, ConfigError};
use super::raw::{RawFeed, RawFeedView, RawWatch, RawWatchView};
use crate::cookies::opt_view;
use crate::entries::{eviews, find_key};
use crate::model::{
    FeedConfig, SqlDialect, WatchCheckMethod, WatchConfig, WatchDetector, WatchEmitMode, WatchItemIdentity,
};
use crate::sorted::{emap, unique_keys};
use crate::text::{
    chars_of, eq_str, lower_seq, push_all, push_str, string_of, to_ascii_lowercase, trim,
    trim_str,
};

verus! {

pub open spec fn ovc(o: Option<Vec<char>>) -> Option<Seq<char>> {
    match o {
        Some(v) => Some(v@),
        None => None,
    }
}

/// An option as written: trimmed, dropped when empty, ASCII lower-cased.
pub open spec fn norm_option(raw: Option<Seq<char>>) -> Option<Seq<char>> {
    match raw {
        Some(s) => if trim(s).len() == 0 {
            None
        } else {
            Some(lower_seq(trim(s)))
        },
        None => None,
    }
}

/// A string setting trimmed, and dropped when empty.
pub open spec fn norm_str(raw: Option<Seq<char>>) -> Option<Seq<char>> {
    match raw {
        Some(s) => if trim(s).len() == 0 {
            None
        } else {
            Some(trim(s))
        },
        None => None,
    }
}

/// Unset, or only white space.
pub open spec fn blank(o: Option<Seq<char>>) -> bool {
    match o {
        Some(s) => trim(s).len() == 0,
        None => true,
    }
}

pub open spec fn unwrap_or<T>(o: Option<T>, d: T) -> T {
    match o {
        Some(x) => x,
        None => d,
    }
}

pub open spec fn check_method_result(raw: Option<Seq<char>>, id: Seq<char>) -> Result<WatchCheckMethod, Seq<char>> {
    match norm_option(raw) {
        None => Ok(WatchCheckMethod::Head),
        Some(s) => if s == "head"@ {
            Ok(WatchCheckMethod::Head)
        } else if s == "get"@ {
            Ok(WatchCheckMethod::Get)
        } else {
            Err("watch '"@ + id + "' has invalid check_method '"@ + s + "', expected 'head' or 'get'"@)
        },
    }
}

pub open spec fn emit_mode_result(raw: Option<Seq<char>>, id: Seq<char>) -> Result<WatchEmitMode, Seq<char>> {
    match norm_option(raw) {
        None => Ok(WatchEmitMode::NewItemsOnly),
        Some(s) => if s == "new_items_only"@ {
            Ok(WatchEmitMode::NewItemsOnly)
        } else if s == "any_change"@ {
            Ok(WatchEmitMode::AnyChange)
        } else if s == "digest"@ {
            Ok(WatchEmitMode::Digest)
        } else {
            Err(
                "watch '"@ + id + "' has invalid emit_mode '"@ + s
                    + "', expected 'new_items_only', 'any_change', or 'digest'"@,
            )
        },
    }
}

pub open spec fn item_identity_result(raw: Option<Seq<char>>, id: Seq<char>) -> Result<Option<WatchItemIdentity>, Seq<char>> {
    match norm_option(raw) {
        None => Ok(None),
        Some(s) => if s == "href"@ {
            Ok(Some(WatchItemIdentity::Href))
        } else if s == "text"@ {
            Ok(Some(WatchItemIdentity::Text))
        } else if s == "attr"@ {
            Ok(Some(WatchItemIdentity::Attr))
        } else {
            Err(
                "watch '"@ + id + "' has invalid item_identity '"@ + s
                    + "', expected 'href', 'text', or 'attr'"@,
            )
        },
    }
}

/// The detector names to parse: those given, or `etag` and `last_modified`
/// when none are.
pub open spec fn detector_values(raw: Option<Seq<Seq<char>>>) -> Seq<Seq<char>> {
    match raw {
        Some(v) => if v.len() > 0 {
            v
        } else {
            seq!["etag"@, "last_modified"@]
        },
        None => seq!["etag"@, "last_modified"@],
    }
}

pub open spec fn detector_of(s: Seq<char>) -> Option<WatchDetector> {
    let n = lower_seq(trim(s));
    if n == "etag"@ {
        Some(WatchDetector::Etag)
    } else if n == "last_modified"@ {
        Some(WatchDetector::LastModified)
    } else if n == "content_length"@ {
        Some(WatchDetector::ContentLength)
    } else if n == "content_hash"@ {
        Some(WatchDetector::ContentHash)
    } else if n == "element_hash"@ {
        Some(WatchDetector::ElementHash)
    } else {
        None
    }
}

/// The detectors named, in first-mention order without repeats; the first
/// unknown name is an error.
pub open spec fn detectors_result(vals: Seq<Seq<char>>, id: Seq<char>) -> Result<Seq<WatchDetector>, Seq<char>>
    decreases vals.len(),
{
    if vals.len() == 0 {
        Ok(Seq::empty())
    } else {
        match detectors_result(vals.drop_last(), id) {
            Err(m) => Err(m),
            Ok(d) => match detector_of(vals.last()) {
                None => Err(
                    "watch '"@ + id + "' has invalid detector '"@ + vals.last()
                        + "'; expected one of etag,last_modified,content_length,content_hash,element_hash"@,
                ),
                Some(x) => Ok(
                    if d.contains(x) {
                        d
                    } else {
                        d.push(x)
                    },
                ),
            },
        }
    }
}

/// The category of a source: the configured one when it is a known
/// category, else the category that owns the source's domain.
pub open spec fn category_result(
    id: Seq<char>,
    kind: Seq<char>,
    configured: Option<Seq<char>>,
    domain: Seq<char>,
    names: Seq<Seq<char>>,
    d2c: Map<Seq<char>, Seq<char>>,
) -> Result<Seq<char>, Seq<char>> {
    match configured {
        Some(cat) => if names.contains(cat) {
            Ok(cat)
        } else {
            Err(kind + " '"@ + id + "' category '"@ + cat + "' missing from categories"@)
        },
        None => if d2c.contains_key(domain) {
            Ok(d2c[domain])
        } else {
            Err(kind + " '"@ + id + "' domain '"@ + domain + "' missing from categories"@)
        },
    }
}

fn norm_opt(raw: Option<&str>) -> (r: Option<Vec<char>>)
    ensures
        ovc(r) == norm_option(opt_view(raw)),
{
    match raw {
        None => None,
        Some(s) => {
            let t = trim_str(s);
            if t.len() == 0 {
                None
            } else {
                Some(to_ascii_lowercase(&t))
            }
        },
    }
}

fn is_blank(o: &Option<String>) -> (r: bool)
    ensures
        r == blank(os(*o)),
{
    match o {
        Some(s) => trim_str(s.as_str()).len() == 0,
        None => true,
    }
}

/// `watch 'id` + `mid` + `value` + `tail`.
fn invalid_option(id: &str, mid: &str, value: &Vec<char>, tail: &str) -> (e: ConfigError)
    ensures
        invalid(e, "watch '"@ + id@ + mid@ + value@ + tail@),
{
    let mut msg: Vec<char> = Vec::new();
    push_str(&mut msg, "watch '");
    push_str(&mut msg, id);
    push_str(&mut msg, mid);
    push_all(&mut msg, value);
    push_str(&mut msg, tail);
    invalid_error(&msg)
}

/// The trimmed string, or `None` when it is empty.
pub fn normalize_optional_string(raw: Option<String>) -> (r: Option<String>)
    ensures
        os(r) == norm_str(os(raw)),
{
    match raw {
        None => None,
        Some(s) => {
            let t = trim_str(s.as_str());
            if t.len() == 0 {
                None
            } else {
                Some(string_of(&t))
            }
        },
    }
}

/// `head` (the default) or `get`, read case-insensitively.
pub fn parse_check_method(raw: Option<&str>, watch_id: &str) -> (r: Result<WatchCheckMethod, ConfigError>)
    ensures
        outcome(r, check_method_result(opt_view(raw), watch_id@), |m: WatchCheckMethod| m),
{
    match norm_opt(raw) {
        None => Ok(WatchCheckMethod::Head),
        Some(s) => {
            if eq_str(&s, "head") {
                Ok(WatchCheckMethod::Head)
            } else if eq_str(&s, "get") {
                Ok(WatchCheckMethod::Get)
            } else {
                Err(invalid_option(watch_id, "' has invalid check_method '", &s, "', expected 'head' or 'get'"))
            }
        },
    }
}

pub open spec fn dialect_result(raw: Option<Seq<char>>) -> Result<SqlDialect, Seq<char>> {
    match norm_option(raw) {
        None => Ok(SqlDialect::Sqlite),
        Some(s) => if s == "sqlite"@ {
            Ok(SqlDialect::Sqlite)
        } else if s == "postgres"@ {
            Ok(SqlDialect::Postgres)
        } else {
            Err("invalid database.dialect '"@ + s + "'"@)
        },
    }
}

/// The database of `database.dialect`: `sqlite` (the default) or
/// `postgres`, read case-insensitively.
pub fn parse_dialect(raw: Option<&str>) -> (r: Result<SqlDialect, ConfigError>)
    ensures
        outcome(r, dialect_result(opt_view(raw)), |d: SqlDialect| d),
{
    match norm_opt(raw) {
        None => Ok(SqlDialect::Sqlite),
        Some(s) => {
            if eq_str(&s, "sqlite") {
                Ok(SqlDialect::Sqlite)
            } else if eq_str(&s, "postgres") {
                Ok(SqlDialect::Postgres)
            } else {
                let mut msg: Vec<char> = Vec::new();
                push_str(&mut msg, "invalid database.dialect '");
                push_all(&mut msg, &s);
                push_str(&mut msg, "'");
                Err(invalid_error(&msg))
            }
        },
    }
}

/// `new_items_only` (the default), `any_change` or `digest`.
pub fn parse_emit_mode(raw: Option<&str>, watch_id: &str) -> (r: Result<WatchEmitMode, ConfigError>)
    ensures
        outcome(r, emit_mode_result(opt_view(raw), watch_id@), |m: WatchEmitMode| m),
{
    match norm_opt(raw) {
        None => Ok(WatchEmitMode::NewItemsOnly),
        Some(s) => {
            if eq_str(&s, "new_items_only") {
                Ok(WatchEmitMode::NewItemsOnly)
            } else if eq_str(&s, "any_change") {
                Ok(WatchEmitMode::AnyChange)
            } else if eq_str(&s, "digest") {
                Ok(WatchEmitMode::Digest)
            } else {
                Err(
                    invalid_option(
                        watch_id,
                        "' has invalid emit_mode '",
                        &s,
                        "', expected 'new_items_only', 'any_change', or 'digest'",
                    ),
                )
            }
        },
    }
}

/// `href`, `text` or `attr`, or none when unset.
pub fn parse_item_identity(raw: Option<&str>, watch_id: &str) -> (r: Result<Option<WatchItemIdentity>, ConfigError>)
    ensures
        outcome(r, item_identity_result(opt_view(raw), watch_id@), |m: Option<WatchItemIdentity>| m),
{
    match norm_opt(raw) {
        None => Ok(None),
        Some(s) => {
            if eq_str(&s, "href") {
                Ok(Some(WatchItemIdentity::Href))
            } else if eq_str(&s, "text") {
                Ok(Some(WatchItemIdentity::Text))
            } else if eq_str(&s, "attr") {
                Ok(Some(WatchItemIdentity::Attr))
            } else {
                Err(
                    invalid_option(
                        watch_id,
                        "' has invalid item_identity '",
                        &s,
                        "', expected 'href', 'text', or 'attr'",
                    ),
                )
            }
        },
    }
}

fn detector_from(s: &str) -> (r: Option<WatchDetector>)
    ensures
        r == detector_of(s@),
{
    let t = trim_str(s);
    let n = to_ascii_lowercase(&t);
    if eq_str(&n, "etag") {
        Some(WatchDetector::Etag)
    } else if eq_str(&n, "last_modified") {
        Some(WatchDetector::LastModified)
    } else if eq_str(&n, "content_length") {
        Some(WatchDetector::ContentLength)
    } else if eq_str(&n, "content_hash") {
        Some(WatchDetector::ContentHash)
    } else if eq_str(&n, "element_hash") {
        Some(WatchDetector::ElementHash)
    } else {
        None
    }
}

fn contains_detector(v: &Vec<WatchDetector>, d: WatchDetector) -> (r: bool)
    ensures
        r == v@.contains(d),
{
    let mut i: usize = 0;
    while i < v.len()
        invariant
            i <= v.len(),
            forall|j: int| 0 <= j < i ==> v@[j] != d,
        decreases v.len() - i,
    {
        if v[i] == d {
            return true;
        }
        i = i + 1;
    }
    false
}

/// The detectors of a watch: `etag` and `last_modified` when none are
/// given; names are trimmed and read case-insensitively, repeats dropped.
pub fn parse_detectors(raw: Option<&Vec<String>>, watch_id: &str) -> (r: Result<Vec<WatchDetector>, ConfigError>)
    ensures
        outcome(
            r,
            detectors_result(
                detector_values(
                    match raw {
                        Some(v) => Some(strs(v@)),
                        None => None,
                    },
                ),
                watch_id@,
            ),
            |v: Vec<WatchDetector>| v@,
        ),
{
    let mut defaults: Vec<String> = Vec::new();
    let values: &Vec<String> = match raw {
        Some(v) if v.len() > 0 => v,
        _ => {
            defaults.push(string_of(&chars_of("etag")));
            defaults.push(string_of(&chars_of("last_modified")));
            &defaults
        },
    };
    let ghost vals = strs(values@);
    assert(vals == detector_values(
        match raw {
            Some(v) => Some(strs(v@)),
            None => None,
        },
    ));
    let mut parsed: Vec<WatchDetector> = Vec::new();
    let mut i: usize = 0;
    proof {
        assert(vals.take(0) =~= Seq::<Seq<char>>::empty());
    }
    while i < values.len()
        invariant
            i <= values.len(),
            vals == strs(values@),
            vals == detector_values(
                match raw {
                    Some(v) => Some(strs(v@)),
                    None => None,
                },
            ),
            detectors_result(vals.take(i as int), watch_id@) == Ok::<Seq<WatchDetector>, Seq<char>>(parsed@),
        decreases values.len() - i,
    {
        proof {
            assert(vals.take(i + 1).drop_last() =~= vals.take(i as int));
            assert(vals.take(i + 1).last() == values@[i as int]@);
        }
        match detector_from(values[i].as_str()) {
            None => {
                let raw_name = chars_of(values[i].as_str());
                let mut msg: Vec<char> = Vec::new();
                push_str(&mut msg, "watch '");
                push_str(&mut msg, watch_id);
                push_str(&mut msg, "' has invalid detector '");
                push_all(&mut msg, &raw_name);
                push_str(
                    &mut msg,
                    "'; expected one of etag,last_modified,content_length,content_hash,element_hash",
                );
                let e = invalid_error(&msg);
                proof {
                    assert(detector_of(vals.take(i + 1).last()) is None);
                    assert(detectors_result(vals.take(i + 1), watch_id@) == Err::<Seq<WatchDetector>, Seq<char>>(msg@));
                    lemma_detectors_err_prefix(vals, i as int + 1, watch_id@);
                }
                return Err(e);
            },
            Some(d) => {
                if !contains_detector(&parsed, d) {
                    parsed.push(d);
                }
            },
        }
        i = i + 1;
    }
    proof {
        assert(vals.take(values.len() as int) =~= vals);
    }
    Ok(parsed)
}

/// An error on a prefix of the names is the error on all of them.
proof fn lemma_detectors_err_prefix(vals: Seq<Seq<char>>, n: int, id: Seq<char>)
    requires
        0 <= n <= vals.len(),
        detectors_result(vals.take(n), id) is Err,
    ensures
        detectors_result(vals, id) == detectors_result(vals.take(n), id),
    decreases vals.len() - n,
{
    if n < vals.len() {
        assert(vals.take(n + 1).drop_last() =~= vals.take(n));
        lemma_detectors_err_prefix(vals, n + 1, id);
    } else {
        assert(vals.take(n) =~= vals);
    }
}

/// The category of a source: the configured one, which must be a known
/// category, or else the one that owns `domain`.
pub fn resolve_category(
    source_id: &str,
    source_kind: &str,
    configured_category: &Option<String>,
    domain: &str,
    category_names: &Vec<String>,
    domain_to_category: &Vec<(String, String)>,
) -> (r: Result<String, ConfigError>)
    requires
        unique_keys(eviews(domain_to_category@)),
    ensures
        outcome(
            r,
            category_result(
                source_id@,
                source_kind@,
                os(*configured_category),
                domain@,
                strs(category_names@),
                emap(eviews(domain_to_category@)),
            ),
            |s: String| s@,
        ),
{
    match configured_category {
        Some(cat) => {
            if contains_name(category_names, cat.as_str()) {
                Ok(copy_str(cat))
            } else {
                let mut msg: Vec<char> = Vec::new();
                push_str(&mut msg, source_kind);
                push_str(&mut msg, " '");
                push_str(&mut msg, source_id);
                push_str(&mut msg, "' category '");
                push_str(&mut msg, cat.as_str());
                push_str(&mut msg, "' missing from categories");
                Err(invalid_error(&msg))
            }
        },
        None => {
            match find_key(domain_to_category, domain) {
                Some(i) => {
                    proof {
                        crate::sorted::lemma_emap_unique(eviews(domain_to_category@));
                        assert(eviews(domain_to_category@)[i as int].0 == domain@);
                    }
                    Ok(copy_str(&domain_to_category[i].1))
                },
                None => {
                    let mut msg: Vec<char> = Vec::new();
                    push_str(&mut msg, source_kind);
                    push_str(&mut msg, " '");
                    push_str(&mut msg, source_id);
                    push_str(&mut msg, "' domain '");
                    push_str(&mut msg, domain);
                    push_str(&mut msg, "' missing from categories");
                    Err(invalid_error(&msg))
                },
            }
        },
    }
}


/// What the options of a watch resolve to.
pub struct WatchParts {
    pub domain: Seq<char>,
    pub category: Seq<char>,
    pub check_method: WatchCheckMethod,
    pub detectors: Seq<WatchDetector>,
    pub emit_mode: WatchEmitMode,
    pub item_identity: Option<WatchItemIdentity>,
}

/// The checks of a watch in order (host, category, check method,
/// detectors, emit mode, item identity, item selector, identity
/// attribute): the first that fails is the error.
pub open spec fn watch_parts(
    w: RawWatchView,
    host: Option<Seq<char>>,
    names: Seq<Seq<char>>,
    d2c: Map<Seq<char>, Seq<char>>,
) -> Result<WatchParts, Seq<char>> {
    match host {
        None => Err("watch '"@ + w.id + "' missing host"@),
        Some(h) => {
            let domain = lower_seq(h);
            match category_result(w.id, "watch"@, w.d.category, domain, names, d2c) {
                Err(m) => Err(m),
                Ok(category) => match check_method_result(w.d.check_method, w.id) {
                    Err(m) => Err(m),
                    Ok(check_method) => match detectors_result(detector_values(w.d.detectors), w.id) {
                        Err(m) => Err(m),
                        Ok(detectors) => match emit_mode_result(w.d.emit_mode, w.id) {
                            Err(m) => Err(m),
                            Ok(emit_mode) => match item_identity_result(w.d.item_identity, w.id) {
                                Err(m) => Err(m),
                                Ok(item_identity) => if blank(w.d.item_selector) {
                                    Err("watch '"@ + w.id + "' requires item_selector"@)
                                } else if item_identity == Some(WatchItemIdentity::Attr) && blank(
                                    w.d.item_identity_attr,
                                ) {
                                    Err(
                                        "watch '"@ + w.id
                                            + "' requires item_identity_attr when item_identity='attr'"@,
                                    )
                                } else {
                                    Ok(
                                        WatchParts {
                                            domain,
                                            category,
                                            check_method,
                                            detectors,
                                            emit_mode,
                                            item_identity,
                                        },
                                    )
                                },
                            },
                        },
                    },
                },
            }
        },
    }
}

/// The watch configuration built from a raw watch and what its options
/// resolved to; unset switches take their defaults.
pub open spec fn watch_built(c: WatchConfig, w: RawWatchView, p: WatchParts, default_poll_seconds: u64) -> bool {
    &&& c.id@ == w.id
    &&& c.url@ == w.url
    &&& c.domain@ == p.domain
    &&& c.category@ == p.category
    &&& c.base_poll_seconds == unwrap_or(w.d.base_poll_seconds, default_poll_seconds)
    &&& os(c.provenance) == w.d.provenance
    &&& ov(c.tags) == w.d.tags
    &&& os(c.language) == w.d.language
    &&& os(c.content_type) == w.d.content_type
    &&& os(c.cookie_path) == norm_str(w.d.cookie_path)
    &&& c.headers_path is None
    &&& c.headers is None
    &&& c.check_method == p.check_method
    &&& c.fallback_to_get == unwrap_or(w.d.fallback_to_get, true)
    &&& c.detectors@ == p.detectors
    &&& c.fetch_body_on_change == unwrap_or(w.d.fetch_body_on_change, true)
    &&& c.max_body_bytes == w.d.max_body_bytes
    &&& c.max_items_per_fetch is None
    &&& os(c.item_selector) == w.d.item_selector
    &&& c.item_identity == p.item_identity
    &&& os(c.item_identity_attr) == w.d.item_identity_attr
    &&& os(c.title_selector) == w.d.title_selector
    &&& os(c.link_selector) == w.d.link_selector
    &&& os(c.summary_selector) == w.d.summary_selector
    &&& os(c.published_selector) == w.d.published_selector
    &&& os(c.published_format) == w.d.published_format
    &&& ov(c.include_selectors) == w.d.include_selectors
    &&& ov(c.exclude_selectors) == w.d.exclude_selectors
    &&& c.normalize_whitespace == unwrap_or(w.d.normalize_whitespace, true)
    &&& c.strip_query_params == unwrap_or(w.d.strip_query_params, false)
    &&& c.emit_mode == p.emit_mode
    &&& os(c.emit_title) == w.d.emit_title
    &&& c.min_item_count_change == w.d.min_item_count_change
}

/// The domain and category of a feed, or the first failing check.
pub open spec fn feed_parts(
    f: RawFeedView,
    host: Option<Seq<char>>,
    names: Seq<Seq<char>>,
    d2c: Map<Seq<char>, Seq<char>>,
) -> Result<(Seq<char>, Seq<char>), Seq<char>> {
    match host {
        None => Err("feed '"@ + f.id + "' missing host"@),
        Some(h) => {
            let domain = lower_seq(h);
            match category_result(f.id, "feed"@, f.d.category, domain, names, d2c) {
                Err(m) => Err(m),
                Ok(category) => Ok((domain, category)),
            }
        },
    }
}

pub open spec fn feed_built(
    c: FeedConfig,
    f: RawFeedView,
    domain: Seq<char>,
    category: Seq<char>,
    default_poll_seconds: u64,
) -> bool {
    &&& c.id@ == f.id
    &&& c.url@ == f.url
    &&& c.domain@ == domain
    &&& c.category@ == category
    &&& c.base_poll_seconds == unwrap_or(f.d.base_poll_seconds, default_poll_seconds)
    &&& os(c.provenance) == f.d.provenance
    &&& ov(c.tags) == f.d.tags
    &&& os(c.language) == f.d.language
    &&& os(c.content_type) == f.d.content_type
    &&& os(c.cookie_path) == norm_str(f.d.cookie_path)
    &&& c.headers_path is None
    &&& c.headers is None
}

fn opt_str(o: &Option<String>) -> (r: Option<&str>)
    ensures
        opt_view(r) == os(*o),
{
    match o {
        Some(s) => Some(s.as_str()),
        None => None,
    }
}

fn opt_strs(o: &Option<Vec<String>>) -> (r: Option<&Vec<String>>)
    ensures
        match r {
            Some(v) => Some(strs(v@)),
            None => None,
        } == ov(*o),
{
    match o {
        Some(v) => Some(v),
        None => None,
    }
}

/// The host of `url` as the URL parser reads it (`Url::parse` then
/// `host_str`); `None` when the URL does not parse or has no host.
pub uninterp spec fn url_host_of(url: Seq<char>) -> Option<Seq<char>>;

/// Calls `reqwest::Url::parse` and `Url::host_str`.
#[verifier::external_body]
fn url_host(url: &str) -> (r: Option<String>)
    ensures
        os(r) == url_host_of(url@),
{
    reqwest::Url::parse(url).ok().and_then(|u| u.host_str().map(|h| h.to_string()))
}

/// A checked watch configuration: its domain is the lower-cased host of
/// its URL; the category comes from `category_names` and
/// `domain_to_category`.
pub fn parse_watch(
    w: RawWatch,
    default_poll_seconds: u64,
    category_names: &Vec<String>,
    domain_to_category: &Vec<(String, String)>,
) -> (r: Result<WatchConfig, ConfigError>)
    requires
        unique_keys(eviews(domain_to_category@)),
    ensures
        match watch_parts(
            w@,
            url_host_of(w@.url),
            strs(category_names@),
            emap(eviews(domain_to_category@)),
        ) {
            Err(m) => r matches Err(e) && invalid(e, m),
            Ok(p) => r matches Ok(c) && watch_built(c, w@, p, default_poll_seconds),
        },
{
    let host = url_host(w.url.as_str());
    let domain = match host {
        None => {
            let mut msg: Vec<char> = Vec::new();
            push_str(&mut msg, "watch '");
            push_str(&mut msg, w.id.as_str());
            push_str(&mut msg, "' missing host");
            return Err(invalid_error(&msg));
        },
        Some(h) => string_of(&to_ascii_lowercase(&chars_of(h.as_str()))),
    };
    let category = match resolve_category(
        w.id.as_str(),
        "watch",
        &w.category,
        domain.as_str(),
        category_names,
        domain_to_category,
    ) {
        Ok(c) => c,
        Err(e) => return Err(e),
    };
    let check_method = match parse_check_method(opt_str(&w.check_method), w.id.as_str()) {
        Ok(m) => m,
        Err(e) => return Err(e),
    };
    let detectors = match parse_detectors(opt_strs(&w.detectors), w.id.as_str()) {
        Ok(d) => d,
        Err(e) => return Err(e),
    };
    let emit_mode = match parse_emit_mode(opt_str(&w.emit_mode), w.id.as_str()) {
        Ok(m) => m,
        Err(e) => return Err(e),
    };
    let item_identity = match parse_item_identity(opt_str(&w.item_identity), w.id.as_str()) {
        Ok(m) => m,
        Err(e) => return Err(e),
    };
    if is_blank(&w.item_selector) {
        let mut msg: Vec<char> = Vec::new();
        push_str(&mut msg, "watch '");
        push_str(&mut msg, w.id.as_str());
        push_str(&mut msg, "' requires item_selector");
        return Err(invalid_error(&msg));
    }
    if item_identity == Some(WatchItemIdentity::Attr) && is_blank(&w.item_identity_attr) {
        let mut msg: Vec<char> = Vec::new();
        push_str(&mut msg, "watch '");
        push_str(&mut msg, w.id.as_str());
        push_str(&mut msg, "' requires item_identity_attr when item_identity='attr'");
        return Err(invalid_error(&msg));
    }
    let cookie_path = normalize_optional_string(w.cookie_path);
    Ok(WatchConfig {
        id: w.id,
        url: w.url,
        domain,
        category,
        base_poll_seconds: match w.base_poll_seconds {
            Some(s) => s,
            None => default_poll_seconds,
        },
        provenance: w.provenance,
        tags: w.tags,
        language: w.language,
        content_type: w.content_type,
        cookie_path,
        headers_path: None,
        headers: None,
        check_method,
        fallback_to_get: match w.fallback_to_get {
            Some(b) => b,
            None => true,
        },
        detectors,
        fetch_body_on_change: match w.fetch_body_on_change {
            Some(b) => b,
            None => true,
        },
        max_body_bytes: w.max_body_bytes,
        max_items_per_fetch: None,
        item_selector: w.item_selector,
        item_identity,
        item_identity_attr: w.item_identity_attr,
        title_selector: w.title_selector,
        link_selector: w.link_selector,
        summary_selector: w.summary_selector,
        published_selector: w.published_selector,
        published_format: w.published_format,
        include_selectors: w.include_selectors,
        exclude_selectors: w.exclude_selectors,
        normalize_whitespace: match w.normalize_whitespace {
            Some(b) => b,
            None => true,
        },
        strip_query_params: match w.strip_query_params {
            Some(b) => b,
            None => false,
        },
        emit_mode,
        emit_title: w.emit_title,
        min_item_count_change: w.min_item_count_change,
    })
}

/// A checked feed configuration: its domain is the lower-cased host of its
/// URL; the category comes from `category_names` and `domain_to_category`.
pub fn build_feed(
    f: RawFeed,
    default_poll_seconds: u64,
    category_names: &Vec<String>,
    domain_to_category: &Vec<(String, String)>,
) -> (r: Result<FeedConfig, ConfigError>)
    requires
        unique_keys(eviews(domain_to_category@)),
    ensures
        match feed_parts(f@, url_host_of(f@.url), strs(category_names@), emap(eviews(domain_to_category@))) {
            Err(m) => r matches Err(e) && invalid(e, m),
            Ok(p) => r matches Ok(c) && feed_built(c, f@, p.0, p.1, default_poll_seconds),
        },
{
    let host = url_host(f.url.as_str());
    let domain = match host {
        None => {
            let mut msg: Vec<char> = Vec::new();
            push_str(&mut msg, "feed '");
            push_str(&mut msg, f.id.as_str());
            push_str(&mut msg, "' missing host");
            return Err(invalid_error(&msg));
        },
        Some(h) => string_of(&to_ascii_lowercase(&chars_of(h.as_str()))),
    };
    let category = match resolve_category(
        f.id.as_str(),
        "feed",
        &f.category,
        domain.as_str(),
        category_names,
        domain_to_category,
    ) {
        Ok(c) => c,
        Err(e) => return Err(e),
    };
    let cookie_path = normalize_optional_string(f.cookie_path);
    Ok(FeedConfig {
        id: f.id,
        url: f.url,
        domain,
        category,
        base_poll_seconds: match f.base_poll_seconds {
            Some(s) => s,
            None => default_poll_seconds,
        },
        provenance: f.provenance,
        tags: f.tags,
        language: f.language,
        content_type: f.content_type,
        cookie_path,
        headers_path: None,
        headers: None,
    })
}

} // verus!
