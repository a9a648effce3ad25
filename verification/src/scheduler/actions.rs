//! Decisions around a fetch: whether the body changed, what payload is
//! stored, and whether the feed is marked as failing.

use vstd::prelude::*;

use super::watch::{build_synthetic_watch_payload, emit_summary, item_views, synthetic_guid, synthetic_title, watch_items, ItemView};
use crate::config::error::os;
use crate::cookies::{cookie_header_to_store, cookie_to_store, opt_view, string_views};
use crate::entries::name_eq;
use crate::hashing::{hex_lower, sha256};
use crate::feed::{feed_outline, item_from_view, metadata_from, ParsedFeed};
use crate::model::{ErrorKind, FeedConfig, GetResult, HeadResult, WatchConfig, WatchDetector};

verus! {

/// Whether one detector reports a change: a new `ETag` or `Last-Modified`
/// differs from the stored one (or nothing was stored); the hash-based
/// detectors report one whenever the body was hashed.
pub open spec fn detector_fires(
    d: WatchDetector,
    prior_etag: Option<Seq<char>>,
    prior_last_modified_ms: Option<i64>,
    etag: Option<Seq<char>>,
    last_modified_ms: Option<i64>,
    hashed: bool,
) -> bool {
    match d {
        WatchDetector::Etag => match etag {
            Some(e) => match prior_etag {
                Some(p) => p != e,
                None => true,
            },
            None => false,
        },
        WatchDetector::LastModified => match last_modified_ms {
            Some(l) => match prior_last_modified_ms {
                Some(p) => p != l,
                None => true,
            },
            None => false,
        },
        _ => hashed,
    }
}

/// For a watch: some detector fires, or the watch fetches the body on
/// change and the body was hashed. For a feed: the body is not empty.
pub open spec fn body_changed(
    prior_etag: Option<Seq<char>>,
    prior_last_modified_ms: Option<i64>,
    res: GetResult,
    hashed: bool,
    watch: Option<WatchConfig>,
) -> bool {
    match watch {
        Some(w) => (exists|i: int|
            0 <= i < w.detectors.len() && #[trigger] detector_fires(
                w.detectors@[i],
                prior_etag,
                prior_last_modified_ms,
                os(res.etag),
                res.last_modified,
                hashed,
            )) || (w.fetch_body_on_change && hashed),
        None => match res.body {
            Some(b) => b.len() > 0,
            None => false,
        },
    }
}

fn fires(
    d: WatchDetector,
    prior_etag: Option<&str>,
    prior_last_modified_ms: Option<i64>,
    res: &GetResult,
    hashed: bool,
) -> (r: bool)
    ensures
        r == detector_fires(d, opt_view(prior_etag), prior_last_modified_ms, os(res.etag), res.last_modified, hashed),
{
    match d {
        WatchDetector::Etag => match &res.etag {
            Some(e) => match prior_etag {
                Some(p) => !name_eq(p, e.as_str()),
                None => true,
            },
            None => false,
        },
        WatchDetector::LastModified => match res.last_modified {
            Some(l) => match prior_last_modified_ms {
                Some(p) => p != l,
                None => true,
            },
            None => false,
        },
        _ => hashed,
    }
}

/// The SHA-256 of a fetched body in lower-case hex; none without a body.
pub fn body_hash_of(res: &GetResult) -> (r: Option<String>)
    ensures
        match res.body {
            Some(b) => r matches Some(h) && h@ == hex_lower(sha256(b@)),
            None => r is None,
        },
{
    match &res.body {
        Some(b) => Some(crate::hashing::sha256_hex(b.as_slice())),
        None => None,
    }
}

/// Whether a fetched body counts as changed (see `body_changed`), given the
/// `ETag` and `Last-Modified` stored for the source before the fetch.
pub fn compute_body_changed(
    prior_etag: Option<&str>,
    prior_last_modified_ms: Option<i64>,
    res: &GetResult,
    body_hash: Option<&str>,
    watch: Option<&WatchConfig>,
) -> (r: bool)
    ensures
        r == body_changed(
            opt_view(prior_etag),
            prior_last_modified_ms,
            *res,
            body_hash is Some,
            match watch {
                Some(w) => Some(*w),
                None => None,
            },
        ),
{
    match watch {
        Some(w) => {
            let hashed = body_hash.is_some();
            let mut changed = false;
            let mut i: usize = 0;
            while i < w.detectors.len()
                invariant
                    i <= w.detectors.len(),
                    changed <==> exists|j: int|
                        0 <= j < i && #[trigger] detector_fires(
                            w.detectors@[j],
                            opt_view(prior_etag),
                            prior_last_modified_ms,
                            os(res.etag),
                            res.last_modified,
                            hashed,
                        ),
                decreases w.detectors.len() - i,
            {
                let f = fires(w.detectors[i], prior_etag, prior_last_modified_ms, res, hashed);
                changed = changed || f;
                i = i + 1;
            }
            if !changed && w.fetch_body_on_change && hashed {
                changed = true;
            }
            changed
        },
        None => match &res.body {
            Some(b) => b.len() > 0,
            None => false,
        },
    }
}

/// `status` is one of the statuses that mark a feed as failing at once.
pub fn is_immediate_error(immediate_error_statuses: &Vec<u16>, status: Option<u16>) -> (r: bool)
    ensures
        r == match status {
            Some(code) => immediate_error_statuses@.contains(code),
            None => false,
        },
{
    let code = match status {
        None => return false,
        Some(c) => c,
    };
    let mut i: usize = 0;
    while i < immediate_error_statuses.len()
        invariant
            i <= immediate_error_statuses.len(),
            status == Some(code),
            forall|j: int| 0 <= j < i ==> immediate_error_statuses@[j] != code,
        decreases immediate_error_statuses.len() - i,
    {
        if immediate_error_statuses[i] == code {
            assert(immediate_error_statuses@[i as int] == code);
            return true;
        }
        i = i + 1;
    }
    false
}

/// Why a feed is marked as failing.
#[derive(Debug, Clone, Copy, PartialEq, Eq, Structural)]
pub enum FeedErrorMark {
    /// The response status is one that fails a feed at once.
    ImmediateStatus,
    /// The feed reached the limit of consecutive errors.
    MaxConsecutiveErrors,
}

pub open spec fn error_mark(
    immediate_error_statuses: Seq<u16>,
    max_consecutive_errors: u32,
    status: Option<u16>,
    consecutive_error_count: u32,
) -> Option<FeedErrorMark> {
    if (match status {
        Some(code) => immediate_error_statuses.contains(code),
        None => false,
    }) {
        Some(FeedErrorMark::ImmediateStatus)
    } else if max_consecutive_errors > 0 && consecutive_error_count >= max_consecutive_errors {
        Some(FeedErrorMark::MaxConsecutiveErrors)
    } else {
        None
    }
}

/// Whether (and why) a feed is marked as failing after a request: an
/// immediate-error status first, else reaching a non-zero limit of
/// consecutive errors.
pub fn feed_error_mark(
    immediate_error_statuses: &Vec<u16>,
    max_consecutive_errors: u32,
    status: Option<u16>,
    consecutive_error_count: u32,
) -> (r: Option<FeedErrorMark>)
    ensures
        r == error_mark(immediate_error_statuses@, max_consecutive_errors, status, consecutive_error_count),
{
    if is_immediate_error(immediate_error_statuses, status) {
        Some(FeedErrorMark::ImmediateStatus)
    } else if max_consecutive_errors > 0 && consecutive_error_count >= max_consecutive_errors {
        Some(FeedErrorMark::MaxConsecutiveErrors)
    } else {
        None
    }
}

/// A feed is marked exactly when its status is an immediate-error status
/// or its consecutive errors reached a non-zero limit.
pub proof fn lemma_error_mark_exact(
    immediate_error_statuses: Seq<u16>,
    max_consecutive_errors: u32,
    status: Option<u16>,
    consecutive_error_count: u32,
)
    ensures
        error_mark(immediate_error_statuses, max_consecutive_errors, status, consecutive_error_count) is Some
            <==> (status matches Some(c) && immediate_error_statuses.contains(c)) || (
        max_consecutive_errors > 0 && consecutive_error_count >= max_consecutive_errors),
{
}

/// The synthetic payload of a watched page, as `build_synthetic_watch_payload`
/// makes it.
pub open spec fn synthetic_payload(
    p: ParsedFeed,
    feed: FeedConfig,
    watch: WatchConfig,
    now_ms: i64,
    body_hash: Option<Seq<char>>,
    body: Seq<u8>,
) -> bool {
    &&& os(p.metadata.title) == Some(synthetic_title(feed, watch))
    &&& os(p.metadata.link) == Some(feed.url@)
    &&& os(p.metadata.description) == Some("synthetic payload from ad-hoc watch"@)
    &&& os(p.metadata.language) == os(watch.language)
    &&& p.metadata.updated_at_ms == Some(now_ms)
    &&& ({
        let extracted = watch_items(feed, watch, body, now_ms);
        if extracted.len() > 0 {
            item_views(p.items@) == extracted
        } else {
            item_views(p.items@) == seq![
                ItemView {
                    title: Some(synthetic_title(feed, watch)),
                    link: Some(feed.url@),
                    guid: Some(synthetic_guid(feed, body_hash, now_ms)),
                    published_at_ms: Some(now_ms),
                    category: Some(feed.category@),
                    description: Some(emit_summary(watch.emit_mode)),
                    summary: Some(emit_summary(watch.emit_mode)),
                },
            ]
        }
    })
}

/// The payload stored for a fetched body, given what parsing it as a feed
/// gave: the parsed feed; or, when it is no feed, a synthetic payload for a
/// watch whose body changed; otherwise nothing.
pub fn payload_to_store(
    parsed: Result<ParsedFeed, String>,
    feed: &FeedConfig,
    watch: Option<&WatchConfig>,
    now_ms: i64,
    body_hash: Option<&str>,
    body: &[u8],
    body_changed: bool,
) -> (r: Option<ParsedFeed>)
    ensures
        match parsed {
            Ok(p) => r == Some(p),
            Err(_) => match watch {
                Some(w) => if body_changed {
                    r matches Some(q) && synthetic_payload(q, *feed, *w, now_ms, opt_view(body_hash), body@)
                } else {
                    r is None
                },
                None => r is None,
            },
        },
{
    match parsed {
        Ok(p) => Some(p),
        Err(_) => match watch {
            Some(w) => {
                if body_changed {
                    Some(build_synthetic_watch_payload(feed, w, now_ms, body_hash, body))
                } else {
                    None
                }
            },
            None => None,
        },
    }
}

/// `r` is the payload stored for the fetched `body`: the body parsed as a
/// feed (metadata, and one item per entry); or, when it is no feed, a
/// synthetic payload for a watch whose body changed; otherwise nothing.
pub open spec fn stored_payload(
    r: Option<ParsedFeed>,
    feed: FeedConfig,
    watch: Option<WatchConfig>,
    now_ms: i64,
    body_hash: Option<Seq<char>>,
    body: Seq<u8>,
    body_changed: bool,
) -> bool {
    match feed_outline(body) {
        Some(o) => r matches Some(p) && metadata_from(p.metadata, o.0) && p.items.len() == o.1.len() && forall|i: int|
            0 <= i < p.items.len() ==> item_from_view(#[trigger] p.items@[i], o.1[i]),
        None => match watch {
            Some(w) => if body_changed {
                r matches Some(q) && synthetic_payload(q, feed, w, now_ms, body_hash, body)
            } else {
                r is None
            },
            None => r is None,
        },
    }
}

pub open spec fn opt_watch(watch: Option<&WatchConfig>) -> Option<WatchConfig> {
    match watch {
        Some(w) => Some(*w),
        None => None,
    }
}

/// The payload stored for a fetched body (see `stored_payload`).
pub fn payload_for_body(
    feed: &FeedConfig,
    watch: Option<&WatchConfig>,
    now_ms: i64,
    body_hash: Option<&str>,
    body: &[u8],
    body_changed: bool,
) -> (r: Option<ParsedFeed>)
    ensures
        stored_payload(r, *feed, opt_watch(watch), now_ms, opt_view(body_hash), body@, body_changed),
{
    let parsed = crate::feed::parse(body);
    payload_to_store(parsed, feed, watch, now_ms, body_hash, body, body_changed)
}

/// What a GET step records and stores: the event (status, error class,
/// latency), the body's hash, whether the body changed, the `Cookie`
/// header to store (none to store when `None`) and the payload to store.
pub struct GetStep {
    pub status: Option<u16>,
    pub error: Option<ErrorKind>,
    pub latency_ms: u64,
    pub body_hash: Option<String>,
    pub body_changed: bool,
    pub cookie_header: Option<String>,
    pub payload: Option<ParsedFeed>,
}

/// The decisions of a GET for `feed` (a watch when `watch` is set), given
/// the validators stored before it, the `Cookie` header it was sent with
/// and what came back.
pub fn get_step(
    feed: &FeedConfig,
    watch: Option<&WatchConfig>,
    prior_etag: Option<&str>,
    prior_last_modified_ms: Option<i64>,
    cookie_header: Option<&str>,
    res: &GetResult,
    now_ms: i64,
) -> (r: GetStep)
    ensures
        r.status == res.status,
        r.error == res.error,
        r.latency_ms == res.latency_ms,
        match res.body {
            Some(b) => r.body_hash matches Some(h) && h@ == hex_lower(sha256(b@)),
            None => r.body_hash is None,
        },
        r.body_changed == body_changed(
            opt_view(prior_etag),
            prior_last_modified_ms,
            *res,
            res.body is Some,
            opt_watch(watch),
        ),
        os(r.cookie_header) == cookie_to_store(opt_view(cookie_header), string_views(res.set_cookie_headers@)),
        match res.body {
            None => r.payload is None,
            Some(b) => stored_payload(
                r.payload,
                *feed,
                opt_watch(watch),
                now_ms,
                os(r.body_hash),
                b@,
                r.body_changed,
            ),
        },
{
    let body_hash = body_hash_of(res);
    let hash_ref: Option<&str> = match &body_hash {
        Some(h) => Some(h.as_str()),
        None => None,
    };
    let changed = compute_body_changed(prior_etag, prior_last_modified_ms, res, hash_ref, watch);
    let cookies = cookie_header_to_store(cookie_header, res.set_cookie_headers.as_slice());
    let payload = match &res.body {
        Some(b) => payload_for_body(feed, watch, now_ms, hash_ref, b.as_slice(), changed),
        None => None,
    };
    GetStep {
        status: res.status,
        error: res.error,
        latency_ms: res.latency_ms,
        body_hash,
        body_changed: changed,
        cookie_header: cookies,
        payload,
    }
}

/// What a HEAD step records and stores: the event (status, error class,
/// latency) and the `Cookie` header to store (none to store when `None`).
pub struct HeadStep {
    pub status: Option<u16>,
    pub error: Option<ErrorKind>,
    pub latency_ms: u64,
    pub cookie_header: Option<String>,
}

/// The decisions of a HEAD sent with `cookie_header`, given what came back.
pub fn head_step(cookie_header: Option<&str>, res: &HeadResult) -> (r: HeadStep)
    ensures
        r.status == res.status,
        r.error == res.error,
        r.latency_ms == res.latency_ms,
        os(r.cookie_header) == cookie_to_store(opt_view(cookie_header), string_views(res.set_cookie_headers@)),
{
    let cookies = cookie_header_to_store(cookie_header, res.set_cookie_headers.as_slice());
    HeadStep { status: res.status, error: res.error, latency_ms: res.latency_ms, cookie_header: cookies }
}

} // verus!
