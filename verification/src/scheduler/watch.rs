//! What a watched HTML page yields: one item per element the item selector
//! matches that has an identity (repeats dropped), or else one synthetic
//! item announcing the change.

use vstd::prelude::*;

use super::html::{
    css_attr, css_count, css_inner_attr, css_inner_text, css_text, css_valid, inner_attr,
    inner_text, match_attr, match_count, match_text, parse_html, parse_selector, CssQuery, HtmlDoc,
};
use crate::config::categories::contains_name;
use crate::config::error::{copy_opt_str, copy_str, or_opt, os, strs};
use crate::feed::{FeedItem, FeedMetadata, ParsedFeed};
use crate::model::{FeedConfig, WatchConfig, WatchEmitMode, WatchItemIdentity};
use crate::text::{
    before_first, before_first_vec, chars_of, dec_int, i64_dec, push_all, push_str, string_of,
    trim, trim_str,
};

verus! {

/// What `DateTime::parse_from_str(raw, fmt)` gives, as epoch milliseconds.
pub uninterp spec fn datetime_fmt(raw: Seq<char>, fmt: Seq<char>) -> Option<i64>;

/// What `DateTime::parse_from_rfc3339(raw)` gives, as epoch milliseconds.
pub uninterp spec fn datetime_rfc3339(raw: Seq<char>) -> Option<i64>;

/// Calls `chrono::DateTime::parse_from_str` and `timestamp_millis`.
#[verifier::external_body]
fn parse_with_format(raw: &str, fmt: &str) -> (r: Option<i64>)
    ensures
        r == datetime_fmt(raw@, fmt@),
{
    chrono::DateTime::parse_from_str(raw, fmt).ok().map(|dt| dt.timestamp_millis())
}

/// Calls `chrono::DateTime::parse_from_rfc3339` and `timestamp_millis`.
#[verifier::external_body]
fn parse_rfc3339(raw: &str) -> (r: Option<i64>)
    ensures
        r == datetime_rfc3339(raw@),
{
    chrono::DateTime::parse_from_rfc3339(raw).ok().map(|dt| dt.timestamp_millis())
}

/// Text pieces trimmed, empty ones dropped, the rest joined by one space.
pub open spec fn text_join(p: Seq<Seq<char>>) -> Seq<char>
    decreases p.len(),
{
    if p.len() == 0 {
        Seq::empty()
    } else {
        let rest = text_join(p.drop_last());
        let t = trim(p.last());
        if t.len() == 0 {
            rest
        } else if rest.len() == 0 {
            t
        } else {
            rest + seq![' '] + t
        }
    }
}

pub open spec fn nonempty(s: Seq<char>) -> Option<Seq<char>> {
    if s.len() == 0 {
        None
    } else {
        Some(s)
    }
}

/// Drops trailing '/'.
pub open spec fn trim_end_slash(s: Seq<char>) -> Seq<char>
    decreases s.len(),
{
    if s.len() > 0 && s.last() == '/' {
        trim_end_slash(s.drop_last())
    } else {
        s
    }
}

/// What the extraction of a watched page reads: the page, the selectors
/// that parse, and the watch's options.
pub struct WatchCtx {
    pub body: Seq<u8>,
    pub item: Seq<char>,
    pub title: Option<Seq<char>>,
    pub link: Option<Seq<char>>,
    pub summary: Option<Seq<char>>,
    pub published: Option<Seq<char>>,
    pub format: Option<Seq<char>>,
    pub base_url: Seq<char>,
    pub strip: bool,
    pub identity: Option<WatchItemIdentity>,
    pub identity_attr: Option<Seq<char>>,
    pub feed_id: Seq<char>,
    pub category: Seq<char>,
    pub now_ms: i64,
}

/// A selector setting, kept when it parses.
pub open spec fn valid_sel(o: Option<Seq<char>>) -> Option<Seq<char>> {
    match o {
        Some(s) => if css_valid(s) {
            Some(s)
        } else {
            None
        },
        None => None,
    }
}

pub open spec fn watch_ctx(feed: FeedConfig, watch: WatchConfig, body: Seq<u8>, item: Seq<char>, now_ms: i64) -> WatchCtx {
    WatchCtx {
        body,
        item,
        title: valid_sel(os(watch.title_selector)),
        link: valid_sel(os(watch.link_selector)),
        summary: valid_sel(os(watch.summary_selector)),
        published: valid_sel(os(watch.published_selector)),
        format: os(watch.published_format),
        base_url: feed.url@,
        strip: watch.strip_query_params,
        identity: watch.item_identity,
        identity_attr: os(watch.item_identity_attr),
        feed_id: feed.id@,
        category: feed.category@,
        now_ms,
    }
}

/// The text of the `i`-th item element.
pub open spec fn node_text(c: WatchCtx, i: nat) -> Seq<char> {
    text_join(css_text(c.body, c.item, i))
}

/// The text of the first element `sel` matches inside item `i`, when it is
/// not empty.
pub open spec fn inner_text_of(c: WatchCtx, i: nat, sel: Option<Seq<char>>) -> Option<Seq<char>> {
    match sel {
        None => None,
        Some(s) => match css_inner_text(c.body, c.item, i, s) {
            None => None,
            Some(p) => nonempty(text_join(p)),
        },
    }
}

/// The link of item `i`: the `href` of its link element, else its own;
/// a path starting with '/' goes behind the feed URL (trailing '/' dropped);
/// the query is cut when asked.
pub open spec fn link_of(c: WatchCtx, i: nat) -> Option<Seq<char>> {
    let raw = or_opt(
        match c.link {
            Some(s) => css_inner_attr(c.body, c.item, i, s, "href"@),
            None => None,
        },
        css_attr(c.body, c.item, i, "href"@),
    );
    match raw {
        None => None,
        Some(h) => {
            let a = if h.len() > 0 && h[0] == '/' {
                trim_end_slash(c.base_url) + h
            } else {
                h
            };
            Some(
                if c.strip {
                    before_first(a, '?')
                } else {
                    a
                },
            )
        },
    }
}

pub open spec fn item_link(c: WatchCtx, i: nat) -> Option<Seq<char>> {
    or_opt(link_of(c, i), css_attr(c.body, c.item, i, "href"@))
}

/// The title of item `i`: its title element's text, else its own text.
pub open spec fn title_of(c: WatchCtx, i: nat) -> Option<Seq<char>> {
    or_opt(inner_text_of(c, i, c.title), nonempty(node_text(c, i)))
}

/// The raw publication time of item `i`: the `datetime` attribute of its
/// published element, else that element's text.
pub open spec fn published_raw(c: WatchCtx, i: nat) -> Option<Seq<char>> {
    match c.published {
        None => None,
        Some(s) => match css_inner_text(c.body, c.item, i, s) {
            None => None,
            Some(p) => or_opt(css_inner_attr(c.body, c.item, i, s, "datetime"@), nonempty(text_join(p))),
        },
    }
}

/// The publication time of item `i`: by the configured format, else as
/// RFC 3339.
pub open spec fn published_of(c: WatchCtx, i: nat) -> Option<i64> {
    match published_raw(c, i) {
        None => None,
        Some(raw) => match c.format {
            Some(f) => if datetime_fmt(raw, f) is Some {
                datetime_fmt(raw, f)
            } else {
                datetime_rfc3339(raw)
            },
            None => datetime_rfc3339(raw),
        },
    }
}

/// The identity of item `i` under the configured kind: link, text or
/// attribute; by default the link, else the title.
pub open spec fn identity_of(c: WatchCtx, i: nat, link: Option<Seq<char>>, title: Option<Seq<char>>) -> Option<Seq<char>> {
    match c.identity {
        Some(WatchItemIdentity::Href) => link,
        Some(WatchItemIdentity::Text) => or_opt(title, nonempty(node_text(c, i))),
        Some(WatchItemIdentity::Attr) => match c.identity_attr {
            None => None,
            Some(a) => css_attr(c.body, c.item, i, a),
        },
        None => or_opt(link, title),
    }
}

/// An item as text.
pub struct ItemView {
    pub title: Option<Seq<char>>,
    pub link: Option<Seq<char>>,
    pub guid: Option<Seq<char>>,
    pub published_at_ms: Option<i64>,
    pub category: Option<Seq<char>>,
    pub description: Option<Seq<char>>,
    pub summary: Option<Seq<char>>,
}

pub open spec fn item_view(it: FeedItem) -> ItemView {
    ItemView {
        title: os(it.title),
        link: os(it.link),
        guid: os(it.guid),
        published_at_ms: it.published_at_ms,
        category: os(it.category),
        description: os(it.description),
        summary: os(it.summary),
    }
}

pub open spec fn item_views(v: Seq<FeedItem>) -> Seq<ItemView> {
    v.map_values(|it: FeedItem| item_view(it))
}

/// The item of element `i` with identity `id`.
pub open spec fn node_item(c: WatchCtx, i: nat, id: Seq<char>) -> ItemView {
    ItemView {
        title: title_of(c, i),
        link: item_link(c, i),
        guid: Some(c.feed_id + seq![':'] + id),
        published_at_ms: Some(
            match published_of(c, i) {
                Some(t) => t,
                None => c.now_ms,
            },
        ),
        category: Some(c.category),
        description: inner_text_of(c, i, c.summary),
        summary: inner_text_of(c, i, c.summary),
    }
}

/// The items of the first `n` elements and the identities seen: an element
/// without an identity, or with one seen before, yields nothing.
pub open spec fn scan(c: WatchCtx, n: nat) -> (Seq<ItemView>, Seq<Seq<char>>)
    decreases n,
{
    if n == 0 {
        (Seq::empty(), Seq::empty())
    } else {
        let prev = scan(c, (n - 1) as nat);
        let i = (n - 1) as nat;
        match identity_of(c, i, item_link(c, i), title_of(c, i)) {
            None => prev,
            Some(id) => if prev.1.contains(id) {
                prev
            } else {
                (prev.0.push(node_item(c, i, id)), prev.1.push(id))
            },
        }
    }
}

proof fn lemma_prefixed_injective(p: Seq<char>, a: Seq<char>, b: Seq<char>)
    requires
        p + seq![':'] + a == p + seq![':'] + b,
    ensures
        a == b,
{
    let pa = p + seq![':'] + a;
    let pb = p + seq![':'] + b;
    let n = p.len() + 1;
    assert(a =~= pa.subrange(n as int, pa.len() as int));
    assert(b =~= pb.subrange(n as int, pb.len() as int));
}

proof fn lemma_scan_props(c: WatchCtx, n: nat)
    ensures
        scan(c, n).0.len() == scan(c, n).1.len(),
        scan(c, n).0.len() <= n,
        scan(c, n).1.no_duplicates(),
        forall|k: int|
            0 <= k < scan(c, n).0.len() ==> (#[trigger] scan(c, n).0[k]).guid == Some(
                c.feed_id + seq![':'] + scan(c, n).1[k],
            ),
    decreases n,
{
    if n > 0 {
        let prev = scan(c, (n - 1) as nat);
        lemma_scan_props(c, (n - 1) as nat);
        let i = (n - 1) as nat;
        match identity_of(c, i, item_link(c, i), title_of(c, i)) {
            None => {},
            Some(id) => {
                if !prev.1.contains(id) {
                    let cur = scan(c, n);
                    assert(cur.0 == prev.0.push(node_item(c, i, id)));
                    assert(cur.1 == prev.1.push(id));
                    assert forall|x: int, y: int| 0 <= x < cur.1.len() && 0 <= y < cur.1.len() && x != y implies cur.1[x]
                        != cur.1[y] by {
                        if x < prev.1.len() && y < prev.1.len() {
                            assert(cur.1[x] == prev.1[x] && cur.1[y] == prev.1[y]);
                        } else if x < prev.1.len() {
                            assert(cur.1[x] == prev.1[x]);
                        } else {
                            assert(cur.1[y] == prev.1[y]);
                        }
                    }
                    assert forall|k: int| 0 <= k < cur.0.len() implies (#[trigger] cur.0[k]).guid == Some(
                        c.feed_id + seq![':'] + cur.1[k],
                    ) by {
                        if k < prev.0.len() {
                            assert(cur.0[k] == prev.0[k] && cur.1[k] == prev.1[k]);
                        }
                    }
                }
            },
        }
    }
}

proof fn lemma_scan_origin(c: WatchCtx, n: nat)
    ensures
        forall|k: int|
            #![trigger scan(c, n).0[k]]
            0 <= k < scan(c, n).0.len() ==> exists|i: nat, id: Seq<char>|
                #![trigger node_item(c, i, id)]
                i < n && scan(c, n).0[k] == node_item(c, i, id),
    decreases n,
{
    if n > 0 {
        let prev = scan(c, (n - 1) as nat);
        lemma_scan_origin(c, (n - 1) as nat);
        let i = (n - 1) as nat;
        let cur = scan(c, n);
        assert forall|k: int| #![trigger cur.0[k]] 0 <= k < cur.0.len() implies exists|j: nat, id: Seq<char>|
            #![trigger node_item(c, j, id)]
            j < n && cur.0[k] == node_item(c, j, id) by {
            match identity_of(c, i, item_link(c, i), title_of(c, i)) {
                None => {
                    assert(cur == prev);
                },
                Some(id) => {
                    if prev.1.contains(id) {
                        assert(cur == prev);
                    } else {
                        assert(cur.0 == prev.0.push(node_item(c, i, id)));
                        if k < prev.0.len() {
                            assert(cur.0[k] == prev.0[k]);
                        } else {
                            assert(cur.0[k] == node_item(c, i, id));
                        }
                    }
                },
            }
        }
    }
}

/// Every item of a watched page comes from one element its item selector
/// `s` matches, and reads that element so:
/// - its title is the (non-empty) joined text of the first element the
///   title selector matches inside it; the element's own text is used
///   only when there is no such text;
/// - its publication time is the `datetime` attribute of the first element
///   the published selector matches inside it (else that element's
///   non-empty text), read by the configured format, else as RFC 3339;
///   `now_ms` is used only when no such value parses;
/// - its summary and description are the non-empty text of the first
///   element the summary selector matches inside it;
/// - its link is the `href` of the first element the link selector matches
///   inside it, else its own `href`; a path starting with '/' goes behind
///   the feed URL, and the query is cut when the watch asks;
/// - its category is the feed's.
pub proof fn lemma_watch_item_fields(
    feed: FeedConfig,
    watch: WatchConfig,
    body: Seq<u8>,
    now_ms: i64,
    s: Seq<char>,
)
    requires
        os(watch.item_selector) == Some(s),
    ensures
        forall|k: int|
            #![trigger watch_items(feed, watch, body, now_ms)[k]]
            0 <= k < watch_items(feed, watch, body, now_ms).len() ==> exists|i: nat|
                #![trigger css_text(body, s, i)]
                i < css_count(body, s) && {
                    let it = watch_items(feed, watch, body, now_ms)[k];
                    let own = text_join(css_text(body, s, i));
                    let title_text: Option<Seq<char>> = match os(watch.title_selector) {
                        Some(t) => if css_valid(t) {
                            match css_inner_text(body, s, i, t) {
                                Some(p) => if text_join(p).len() > 0 {
                                    Some(text_join(p))
                                } else {
                                    None
                                },
                                None => None,
                            }
                        } else {
                            None
                        },
                        None => None,
                    };
                    let raw: Option<Seq<char>> = match os(watch.published_selector) {
                        Some(ps) => if css_valid(ps) {
                            match css_inner_text(body, s, i, ps) {
                                Some(p) => match css_inner_attr(body, s, i, ps, "datetime"@) {
                                    Some(a) => Some(a),
                                    None => if text_join(p).len() > 0 {
                                        Some(text_join(p))
                                    } else {
                                        None
                                    },
                                },
                                None => None,
                            }
                        } else {
                            None
                        },
                        None => None,
                    };
                    let by_format: Option<i64> = match raw {
                        Some(r) => match os(watch.published_format) {
                            Some(f) => datetime_fmt(r, f),
                            None => None,
                        },
                        None => None,
                    };
                    let by_rfc3339: Option<i64> = match raw {
                        Some(r) => datetime_rfc3339(r),
                        None => None,
                    };
                    let summary_text: Option<Seq<char>> = match os(watch.summary_selector) {
                        Some(t) => if css_valid(t) {
                            match css_inner_text(body, s, i, t) {
                                Some(p) => if text_join(p).len() > 0 {
                                    Some(text_join(p))
                                } else {
                                    None
                                },
                                None => None,
                            }
                        } else {
                            None
                        },
                        None => None,
                    };
                    let own_href = css_attr(body, s, i, "href"@);
                    let href: Option<Seq<char>> = match os(watch.link_selector) {
                        Some(t) => if css_valid(t) && css_inner_attr(body, s, i, t, "href"@) is Some {
                            css_inner_attr(body, s, i, t, "href"@)
                        } else {
                            own_href
                        },
                        None => own_href,
                    };
                    let h = href->Some_0;
                    let absolute = if h.len() > 0 && h[0] == '/' {
                        trim_end_slash(feed.url@) + h
                    } else {
                        h
                    };
                    &&& title_text is Some ==> it.title == title_text
                    &&& title_text is None ==> it.title == (if own.len() > 0 {
                        Some(own)
                    } else {
                        None
                    })
                    &&& by_format is Some ==> it.published_at_ms == by_format
                    &&& (by_format is None && by_rfc3339 is Some) ==> it.published_at_ms == by_rfc3339
                    &&& (by_format is None && by_rfc3339 is None) ==> it.published_at_ms == Some(now_ms)
                    &&& it.category == Some(feed.category@)
                    &&& it.summary == summary_text
                    &&& it.description == summary_text
                    &&& href is None ==> it.link is None
                    &&& href is Some ==> it.link == Some(
                        if watch.strip_query_params {
                            before_first(absolute, '?')
                        } else {
                            absolute
                        },
                    )
                },
{
    if css_valid(s) {
        let c = watch_ctx(feed, watch, body, s, now_ms);
        let n = css_count(body, s);
        lemma_scan_origin(c, n);
        let items = watch_items(feed, watch, body, now_ms);
        assert(items == scan(c, n).0);
        assert forall|k: int| #![trigger items[k]] 0 <= k < items.len() implies exists|i: nat|
            #![trigger css_text(body, s, i)]
            i < css_count(body, s) && {
                let it = watch_items(feed, watch, body, now_ms)[k];
                let own = text_join(css_text(body, s, i));
                let title_text: Option<Seq<char>> = match os(watch.title_selector) {
                    Some(t) => if css_valid(t) {
                        match css_inner_text(body, s, i, t) {
                            Some(p) => if text_join(p).len() > 0 {
                                Some(text_join(p))
                            } else {
                                None
                            },
                            None => None,
                        }
                    } else {
                        None
                    },
                    None => None,
                };
                let raw: Option<Seq<char>> = match os(watch.published_selector) {
                    Some(ps) => if css_valid(ps) {
                        match css_inner_text(body, s, i, ps) {
                            Some(p) => match css_inner_attr(body, s, i, ps, "datetime"@) {
                                Some(a) => Some(a),
                                None => if text_join(p).len() > 0 {
                                    Some(text_join(p))
                                } else {
                                    None
                                },
                            },
                            None => None,
                        }
                    } else {
                        None
                    },
                    None => None,
                };
                let by_format: Option<i64> = match raw {
                    Some(r) => match os(watch.published_format) {
                        Some(f) => datetime_fmt(r, f),
                        None => None,
                    },
                    None => None,
                };
                let by_rfc3339: Option<i64> = match raw {
                    Some(r) => datetime_rfc3339(r),
                    None => None,
                };
                let summary_text: Option<Seq<char>> = match os(watch.summary_selector) {
                    Some(t) => if css_valid(t) {
                        match css_inner_text(body, s, i, t) {
                            Some(p) => if text_join(p).len() > 0 {
                                Some(text_join(p))
                            } else {
                                None
                            },
                            None => None,
                        }
                    } else {
                        None
                    },
                    None => None,
                };
                let own_href = css_attr(body, s, i, "href"@);
                let href: Option<Seq<char>> = match os(watch.link_selector) {
                    Some(t) => if css_valid(t) && css_inner_attr(body, s, i, t, "href"@) is Some {
                        css_inner_attr(body, s, i, t, "href"@)
                    } else {
                        own_href
                    },
                    None => own_href,
                };
                let h = href->Some_0;
                let absolute = if h.len() > 0 && h[0] == '/' {
                    trim_end_slash(feed.url@) + h
                } else {
                    h
                };
                &&& title_text is Some ==> it.title == title_text
                &&& title_text is None ==> it.title == (if own.len() > 0 {
                    Some(own)
                } else {
                    None
                })
                &&& by_format is Some ==> it.published_at_ms == by_format
                &&& (by_format is None && by_rfc3339 is Some) ==> it.published_at_ms == by_rfc3339
                &&& (by_format is None && by_rfc3339 is None) ==> it.published_at_ms == Some(now_ms)
                &&& it.category == Some(feed.category@)
                &&& it.summary == summary_text
                &&& it.description == summary_text
                &&& href is None ==> it.link is None
                &&& href is Some ==> it.link == Some(
                    if watch.strip_query_params {
                        before_first(absolute, '?')
                    } else {
                        absolute
                    },
                )
            } by {
            let (i, id) = choose|i: nat, id: Seq<char>|
                #![trigger node_item(c, i, id)]
                i < n && scan(c, n).0[k] == node_item(c, i, id);
            assert(items[k] == node_item(c, i, id));
            assert(css_text(body, s, i) == css_text(body, s, i));
        }
    }
}

/// A watched page yields at most one item per element its item selector
/// matches, and no two of its items share a guid.
pub proof fn lemma_watch_items_distinct(feed: FeedConfig, watch: WatchConfig, body: Seq<u8>, now_ms: i64)
    ensures
        forall|i: int, j: int|
            0 <= i < j < watch_items(feed, watch, body, now_ms).len() ==> (#[trigger] watch_items(
                feed,
                watch,
                body,
                now_ms,
            )[i]).guid != (#[trigger] watch_items(feed, watch, body, now_ms)[j]).guid,
        watch_items(feed, watch, body, now_ms).len() <= match os(watch.item_selector) {
            Some(s) => css_count(body, s),
            None => 0,
        },
{
    let items = watch_items(feed, watch, body, now_ms);
    match os(watch.item_selector) {
        None => {},
        Some(s) => if css_valid(s) {
            let c = watch_ctx(feed, watch, body, s, now_ms);
            let n = css_count(body, s);
            lemma_scan_props(c, n);
            let sc = scan(c, n);
            assert forall|i: int, j: int| 0 <= i < j < items.len() implies (#[trigger] items[i]).guid != (
            #[trigger] items[j]).guid by {
                assert(items[i].guid == Some(c.feed_id + seq![':'] + sc.1[i]));
                assert(items[j].guid == Some(c.feed_id + seq![':'] + sc.1[j]));
                if items[i].guid == items[j].guid {
                    lemma_prefixed_injective(c.feed_id, sc.1[i], sc.1[j]);
                }
            }
        },
    }
}

/// The items a watched page yields.
pub open spec fn watch_items(feed: FeedConfig, watch: WatchConfig, body: Seq<u8>, now_ms: i64) -> Seq<ItemView> {
    match os(watch.item_selector) {
        None => Seq::empty(),
        Some(s) => if css_valid(s) {
            scan(watch_ctx(feed, watch, body, s, now_ms), css_count(body, s)).0
        } else {
            Seq::empty()
        },
    }
}

/// `text_join` of the pieces.
fn join_text(p: &Vec<String>) -> (r: Vec<char>)
    ensures
        r@ == text_join(strs(p@)),
{
    let mut out: Vec<char> = Vec::new();
    let mut k: usize = 0;
    proof {
        assert(strs(p@).take(0) =~= Seq::<Seq<char>>::empty());
    }
    while k < p.len()
        invariant
            k <= p.len(),
            out@ == text_join(strs(p@).take(k as int)),
        decreases p.len() - k,
    {
        proof {
            assert(strs(p@).take(k + 1).drop_last() =~= strs(p@).take(k as int));
            assert(strs(p@).take(k + 1).last() == p@[k as int]@);
        }
        let t = trim_str(p[k].as_str());
        if t.len() > 0 {
            if out.len() > 0 {
                out.push(' ');
            }
            push_all(&mut out, &t);
        }
        k = k + 1;
    }
    proof {
        assert(strs(p@).take(p.len() as int) =~= strs(p@));
    }
    out
}

fn nonempty_string(v: &Vec<char>) -> (r: Option<String>)
    ensures
        os(r) == nonempty(v@),
{
    if v.len() == 0 {
        None
    } else {
        Some(string_of(v))
    }
}

/// The text of item `i`.
pub(crate) fn text_of(d: &HtmlDoc, q: &CssQuery, i: usize) -> (r: String)
    ensures
        r@ == text_join(css_text(d.source(), q.text(), i as nat)),
{
    let p = match_text(d, q, i);
    string_of(&join_text(&p))
}

/// The non-empty text of the first element `selector` matches inside item
/// `i`.
pub(crate) fn extract_text(d: &HtmlDoc, q: &CssQuery, i: usize, selector: Option<&CssQuery>) -> (r: Option<String>)
    ensures
        os(r) == match selector {
            None => None,
            Some(s) => match css_inner_text(d.source(), q.text(), i as nat, s.text()) {
                None => None,
                Some(p) => nonempty(text_join(p)),
            },
        },
{
    let s = match selector {
        None => return None,
        Some(s) => s,
    };
    match inner_text(d, q, i, s) {
        None => None,
        Some(p) => nonempty_string(&join_text(&p)),
    }
}

fn trim_end_slash_vec(v: &Vec<char>) -> (r: Vec<char>)
    ensures
        r@ == trim_end_slash(v@),
{
    let mut n = v.len();
    proof {
        assert(v@.take(n as int) =~= v@);
    }
    while n > 0 && v[n - 1] == '/'
        invariant
            n <= v.len(),
            trim_end_slash(v@) == trim_end_slash(v@.take(n as int)),
        decreases n,
    {
        proof {
            assert(v@.take(n as int).drop_last() =~= v@.take(n - 1));
        }
        n = n - 1;
    }
    proof {
        assert(v@.take(n as int) =~= v@.subrange(0, n as int));
    }
    let mut out: Vec<char> = Vec::new();
    let mut k: usize = 0;
    while k < n
        invariant
            k <= n <= v.len(),
            out@ == v@.take(k as int),
        decreases n - k,
    {
        out.push(v[k]);
        k = k + 1;
        proof {
            assert(out@ =~= v@.take(k as int));
        }
    }
    out
}

/// The link of item `i`: the `href` of the first element `selector`
/// matches inside it, else its own `href`; a path gets the base URL in
/// front; the query is cut when asked.
pub(crate) fn extract_link(
    d: &HtmlDoc,
    q: &CssQuery,
    i: usize,
    selector: Option<&CssQuery>,
    base_url: &str,
    strip_query_params: bool,
) -> (r: Option<String>)
    ensures
        os(r) == ({
            let raw = or_opt(
                match selector {
                    Some(s) => css_inner_attr(d.source(), q.text(), i as nat, s.text(), "href"@),
                    None => None,
                },
                css_attr(d.source(), q.text(), i as nat, "href"@),
            );
            match raw {
                None => None,
                Some(h) => {
                    let a = if h.len() > 0 && h[0] == '/' {
                        trim_end_slash(base_url@) + h
                    } else {
                        h
                    };
                    Some(
                        if strip_query_params {
                            before_first(a, '?')
                        } else {
                            a
                        },
                    )
                },
            }
        }),
{
    let mut raw = match selector {
        Some(s) => inner_attr(d, q, i, s, "href"),
        None => None,
    };
    if raw.is_none() {
        raw = match_attr(d, q, i, "href");
    }
    let href = match raw {
        None => return None,
        Some(h) => h,
    };
    let hv = chars_of(href.as_str());
    let a = if hv.len() > 0 && hv[0] == '/' {
        let mut base = trim_end_slash_vec(&chars_of(base_url));
        push_all(&mut base, &hv);
        base
    } else {
        hv
    };
    if strip_query_params {
        Some(string_of(&before_first_vec(&a, '?')))
    } else {
        Some(string_of(&a))
    }
}

/// The publication time of item `i`: the `datetime` attribute (else the
/// text) of the first element `selector` matches inside it, read with
/// `published_format` when it parses that way, else as RFC 3339.
pub(crate) fn extract_published_at_ms(
    d: &HtmlDoc,
    q: &CssQuery,
    i: usize,
    selector: Option<&CssQuery>,
    published_format: Option<&str>,
) -> (r: Option<i64>)
    ensures
        r == ({
            let raw = match selector {
                None => None,
                Some(s) => match css_inner_text(d.source(), q.text(), i as nat, s.text()) {
                    None => None,
                    Some(p) => or_opt(
                        css_inner_attr(d.source(), q.text(), i as nat, s.text(), "datetime"@),
                        nonempty(text_join(p)),
                    ),
                },
            };
            match raw {
                None => None,
                Some(raw) => match published_format {
                    Some(f) => if datetime_fmt(raw, f@) is Some {
                        datetime_fmt(raw, f@)
                    } else {
                        datetime_rfc3339(raw)
                    },
                    None => datetime_rfc3339(raw),
                },
            }
        }),
{
    let s = match selector {
        None => return None,
        Some(s) => s,
    };
    let pieces = match inner_text(d, q, i, s) {
        None => return None,
        Some(p) => p,
    };
    let raw = match inner_attr(d, q, i, s, "datetime") {
        Some(a) => a,
        None => {
            let t = join_text(&pieces);
            if t.len() == 0 {
                return None;
            }
            string_of(&t)
        },
    };
    match published_format {
        Some(fmt) => {
            let r = parse_with_format(raw.as_str(), fmt);
            if r.is_some() {
                return r;
            }
        },
        None => {},
    }
    parse_rfc3339(raw.as_str())
}

/// The identity of item `i` (see `identity_of`).
pub(crate) fn resolve_identity(
    d: &HtmlDoc,
    q: &CssQuery,
    i: usize,
    watch: &WatchConfig,
    link: Option<&str>,
    title: Option<&str>,
) -> (r: Option<String>)
    ensures
        os(r) == match watch.item_identity {
            Some(WatchItemIdentity::Href) => crate::cookies::opt_view(link),
            Some(WatchItemIdentity::Text) => or_opt(
                crate::cookies::opt_view(title),
                nonempty(text_join(css_text(d.source(), q.text(), i as nat))),
            ),
            Some(WatchItemIdentity::Attr) => match os(watch.item_identity_attr) {
                None => None,
                Some(a) => css_attr(d.source(), q.text(), i as nat, a),
            },
            None => or_opt(crate::cookies::opt_view(link), crate::cookies::opt_view(title)),
        },
{
    match watch.item_identity {
        Some(WatchItemIdentity::Href) => match link {
            Some(l) => Some(string_of(&chars_of(l))),
            None => None,
        },
        Some(WatchItemIdentity::Text) => match title {
            Some(t) => Some(string_of(&chars_of(t))),
            None => {
                let t = text_of(d, q, i);
                nonempty_string(&chars_of(t.as_str()))
            },
        },
        Some(WatchItemIdentity::Attr) => match &watch.item_identity_attr {
            None => None,
            Some(a) => match_attr(d, q, i, a.as_str()),
        },
        None => match link {
            Some(l) => Some(string_of(&chars_of(l))),
            None => match title {
                Some(t) => Some(string_of(&chars_of(t))),
                None => None,
            },
        },
    }
}

fn opt_ref(o: &Option<String>) -> (r: Option<&str>)
    ensures
        crate::cookies::opt_view(r) == os(*o),
{
    match o {
        Some(s) => Some(s.as_str()),
        None => None,
    }
}

fn selector_of(o: &Option<String>) -> (r: Option<CssQuery>)
    ensures
        match r {
            Some(q) => valid_sel(os(*o)) == Some(q.text()),
            None => valid_sel(os(*o)) is None,
        },
{
    match o {
        Some(s) => parse_selector(s.as_str()),
        None => None,
    }
}

fn text_opt(o: &Option<CssQuery>) -> (r: Option<&CssQuery>)
    ensures
        match r {
            Some(q) => o == Some(*q),
            None => o is None,
        },
{
    match o {
        Some(q) => Some(q),
        None => None,
    }
}

/// The items of a watched page, one per element the item selector matches
/// that has an identity, in document order, repeats of an identity dropped;
/// none when the watch has no item selector or it does not parse.
pub fn extract_watch_items_from_html(feed: &FeedConfig, watch: &WatchConfig, body: &[u8], now_ms: i64) -> (r: Vec<FeedItem>)
    ensures
        item_views(r@) == watch_items(*feed, *watch, body@, now_ms),
{
    let raw_item = match &watch.item_selector {
        None => return Vec::new(),
        Some(s) => s,
    };
    let q = match parse_selector(raw_item.as_str()) {
        None => return Vec::new(),
        Some(q) => q,
    };
    let title_q = selector_of(&watch.title_selector);
    let link_q = selector_of(&watch.link_selector);
    let summary_q = selector_of(&watch.summary_selector);
    let published_q = selector_of(&watch.published_selector);
    let doc = parse_html(body);
    let ghost c = watch_ctx(*feed, *watch, body@, raw_item@, now_ms);
    let n = match_count(&doc, &q);
    let mut items: Vec<FeedItem> = Vec::new();
    let mut seen: Vec<String> = Vec::new();
    let mut i: usize = 0;
    proof {
        assert(item_views(items@) =~= Seq::<ItemView>::empty());
        assert(strs(seen@) =~= Seq::<Seq<char>>::empty());
    }
    while i < n
        invariant
            i <= n,
            n == css_count(body@, raw_item@),
            c == watch_ctx(*feed, *watch, body@, raw_item@, now_ms),
            doc.source() == body@,
            q.text() == raw_item@,
            os(watch.item_selector) == Some(raw_item@),
            match title_q { Some(t) => c.title == Some(t.text()), None => c.title is None },
            match link_q { Some(t) => c.link == Some(t.text()), None => c.link is None },
            match summary_q { Some(t) => c.summary == Some(t.text()), None => c.summary is None },
            match published_q { Some(t) => c.published == Some(t.text()), None => c.published is None },
            item_views(items@) == scan(c, i as nat).0,
            strs(seen@) == scan(c, i as nat).1,
        decreases n - i,
    {
        let mut link = extract_link(&doc, &q, i, text_opt(&link_q), feed.url.as_str(), watch.strip_query_params);
        if link.is_none() {
            link = match_attr(&doc, &q, i, "href");
        }
        let title = match extract_text(&doc, &q, i, text_opt(&title_q)) {
            Some(t) => Some(t),
            None => {
                let own = text_of(&doc, &q, i);
                nonempty_string(&chars_of(own.as_str()))
            },
        };
        proof {
            assert(os(link) == item_link(c, i as nat));
            assert(os(title) == title_of(c, i as nat));
        }
        let summary = extract_text(&doc, &q, i, text_opt(&summary_q));
        proof {
            assert(os(summary) == inner_text_of(c, i as nat, c.summary));
        }
        let published_at_ms = match extract_published_at_ms(
            &doc,
            &q,
            i,
            text_opt(&published_q),
            opt_ref(&watch.published_format),
        ) {
            Some(t) => Some(t),
            None => Some(now_ms),
        };
        proof {
            assert(published_at_ms == Some(
                match published_of(c, i as nat) {
                    Some(t) => t,
                    None => c.now_ms,
                },
            ));
        }
        let identity = resolve_identity(&doc, &q, i, watch, opt_ref(&link), opt_ref(&title));
        proof {
            assert(os(identity) == identity_of(c, i as nat, item_link(c, i as nat), title_of(c, i as nat)));
        }
        match identity {
            None => {},
            Some(id) => {
                if !contains_name(&seen, id.as_str()) {
                    let mut guid: Vec<char> = Vec::new();
                    push_str(&mut guid, feed.id.as_str());
                    guid.push(':');
                    push_str(&mut guid, id.as_str());
                    assert(guid@ =~= c.feed_id + seq![':'] + id@);
                    let it = FeedItem {
                        title,
                        link,
                        guid: Some(string_of(&guid)),
                        published_at_ms,
                        category: Some(copy_str(&feed.category)),
                        description: copy_opt_str(&summary),
                        summary,
                    };
                    proof {
                        assert(item_view(it) == node_item(c, i as nat, id@));
                        assert(item_views(items@.push(it)) =~= item_views(items@).push(item_view(it)));
                        assert(strs(seen@.push(id)) =~= strs(seen@).push(id@));
                    }
                    items.push(it);
                    seen.push(id);
                }
            },
        }
        i = i + 1;
    }
    items
}

pub open spec fn synthetic_title(feed: FeedConfig, watch: WatchConfig) -> Seq<char> {
    match os(watch.emit_title) {
        Some(t) => t,
        None => feed.id@ + " changed"@,
    }
}

pub open spec fn synthetic_guid(feed: FeedConfig, body_hash: Option<Seq<char>>, now_ms: i64) -> Seq<char> {
    match body_hash {
        Some(h) => feed.id@ + seq![':'] + h,
        None => feed.id@ + seq![':'] + dec_int(now_ms as int),
    }
}

pub open spec fn emit_summary(m: WatchEmitMode) -> Seq<char> {
    match m {
        WatchEmitMode::NewItemsOnly => "watch detected new items"@,
        WatchEmitMode::AnyChange => "watch detected content change"@,
        WatchEmitMode::Digest => "watch emitted digest update"@,
    }
}

/// The payload stored for a watched page that is no feed: metadata naming
/// the change, and the page's items, or one item announcing the change
/// when the page yields none.
pub fn build_synthetic_watch_payload(
    feed: &FeedConfig,
    watch: &WatchConfig,
    now_ms: i64,
    body_hash: Option<&str>,
    body: &[u8],
) -> (p: ParsedFeed)
    ensures
        os(p.metadata.title) == Some(synthetic_title(*feed, *watch)),
        os(p.metadata.link) == Some(feed.url@),
        os(p.metadata.description) == Some("synthetic payload from ad-hoc watch"@),
        os(p.metadata.language) == os(watch.language),
        p.metadata.updated_at_ms == Some(now_ms),
        ({
            let extracted = watch_items(*feed, *watch, body@, now_ms);
            if extracted.len() > 0 {
                item_views(p.items@) == extracted
            } else {
                item_views(p.items@) == seq![
                    ItemView {
                        title: Some(synthetic_title(*feed, *watch)),
                        link: Some(feed.url@),
                        guid: Some(synthetic_guid(*feed, crate::cookies::opt_view(body_hash), now_ms)),
                        published_at_ms: Some(now_ms),
                        category: Some(feed.category@),
                        description: Some(emit_summary(watch.emit_mode)),
                        summary: Some(emit_summary(watch.emit_mode)),
                    },
                ]
            }
        }),
{
    let title = match &watch.emit_title {
        Some(t) => copy_str(t),
        None => {
            let mut v: Vec<char> = Vec::new();
            push_str(&mut v, feed.id.as_str());
            push_str(&mut v, " changed");
            string_of(&v)
        },
    };
    let mut g: Vec<char> = Vec::new();
    push_str(&mut g, feed.id.as_str());
    g.push(':');
    match body_hash {
        Some(h) => push_str(&mut g, h),
        None => {
            let d = i64_dec(now_ms);
            push_all(&mut g, &d);
        },
    }
    assert(g@ =~= synthetic_guid(*feed, crate::cookies::opt_view(body_hash), now_ms));
    let guid = string_of(&g);
    let summary_text = match watch.emit_mode {
        WatchEmitMode::NewItemsOnly => "watch detected new items",
        WatchEmitMode::AnyChange => "watch detected content change",
        WatchEmitMode::Digest => "watch emitted digest update",
    };
    let summary = string_of(&chars_of(summary_text));
    let metadata = FeedMetadata {
        title: Some(copy_str(&title)),
        link: Some(copy_str(&feed.url)),
        description: Some(string_of(&chars_of("synthetic payload from ad-hoc watch"))),
        language: copy_opt_str(&watch.language),
        updated_at_ms: Some(now_ms),
    };
    let extracted = extract_watch_items_from_html(feed, watch, body, now_ms);
    if extracted.len() > 0 {
        return ParsedFeed { metadata, items: extracted };
    }
    let it = FeedItem {
        title: Some(title),
        link: Some(copy_str(&feed.url)),
        guid: Some(guid),
        published_at_ms: Some(now_ms),
        category: Some(copy_str(&feed.category)),
        description: Some(copy_str(&summary)),
        summary: Some(summary),
    };
    let mut items: Vec<FeedItem> = Vec::new();
    items.push(it);
    proof {
        assert(summary_text@ == emit_summary(watch.emit_mode));
        assert(title@ == synthetic_title(*feed, *watch));
        assert(guid@ == synthetic_guid(*feed, crate::cookies::opt_view(body_hash), now_ms));
        assert(item_views(items@) =~= seq![item_view(it)]);
    }
    ParsedFeed { metadata, items }
}

} // verus!
