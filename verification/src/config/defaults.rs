//! Feed and watch defaults: reading them from defaults tables, layering
//! them (a later layer wins field by field), and filling a feed or watch
//! from them.

use vstd::prelude::*;

use super::error::{
    copy_opt_str, copy_opt_strs, invalid_error, or_copy, or_opt, or_str, or_strs,
    os, outcome, ov, ConfigError,
};
use super::raw::{
    FeedDefaultsView, RawFeed, RawFeedDefaults, RawFeedView, RawFeedsFile, RawWatch,
    RawWatchDefaults, RawWatchView, WatchDefaultsView,
};
use crate::entries::{eviews, find_key};
use crate::sorted::{emap, unique_keys};
use crate::text::{is_ascii_lower_or_digit, push_all, push_str, string_of, trim, trim_str};

verus! {

pub open spec fn all_lower_or_digit(s: Seq<char>) -> bool {
    forall|i: int| 0 <= i < s.len() ==> is_ascii_lower_or_digit(#[trigger] s[i])
}

/// An id prefix, trimmed; it must be non-empty lower-case ASCII letters and
/// digits. `context` opens the error message.
pub open spec fn id_prefix_result(prefix: Seq<char>, context: Seq<char>) -> Result<Seq<char>, Seq<char>> {
    let t = trim(prefix);
    if t.len() == 0 {
        Err(context + " id_prefix cannot be empty"@)
    } else if !all_lower_or_digit(t) {
        Err(context + " id_prefix must be lowercase alphanumeric"@)
    } else {
        Ok(t)
    }
}

/// An optional id prefix, checked when present.
pub open spec fn prefix_result(p: Option<Seq<char>>, context: Seq<char>) -> Result<Option<Seq<char>>, Seq<char>> {
    match p {
        None => Ok(None),
        Some(x) => match id_prefix_result(x, context) {
            Ok(t) => Ok(Some(t)),
            Err(m) => Err(m),
        },
    }
}

/// `id` behind `prefix-` when there is a prefix.
pub open spec fn prefixed_id(p: Option<Seq<char>>, id: Seq<char>) -> Seq<char> {
    match p {
        Some(x) => x + seq!['-'] + id,
        None => id,
    }
}

pub open spec fn feed_empty() -> FeedDefaultsView {
    FeedDefaultsView {
        base_poll_seconds: None,
        id_prefix: None,
        category: None,
        provenance: None,
        tags: None,
        language: None,
        content_type: None,
        cookie_path: None,
    }
}

pub open spec fn watch_empty() -> WatchDefaultsView {
    WatchDefaultsView {
        base_poll_seconds: None,
        id_prefix: None,
        category: None,
        provenance: None,
        tags: None,
        language: None,
        content_type: None,
        cookie_path: None,
        check_method: None,
        fallback_to_get: None,
        detectors: None,
        fetch_body_on_change: None,
        max_body_bytes: None,
        item_selector: None,
        item_identity: None,
        item_identity_attr: None,
        title_selector: None,
        link_selector: None,
        summary_selector: None,
        published_selector: None,
        published_format: None,
        include_selectors: None,
        exclude_selectors: None,
        normalize_whitespace: None,
        strip_query_params: None,
        emit_mode: None,
        emit_title: None,
        min_item_count_change: None,
    }
}

/// `file` over `global`: each setting of `file` that is set wins.
pub open spec fn feed_merge(global: FeedDefaultsView, file: FeedDefaultsView) -> FeedDefaultsView {
    FeedDefaultsView {
        base_poll_seconds: or_opt(file.base_poll_seconds, global.base_poll_seconds),
        id_prefix: or_opt(file.id_prefix, global.id_prefix),
        category: or_opt(file.category, global.category),
        provenance: or_opt(file.provenance, global.provenance),
        tags: or_opt(file.tags, global.tags),
        language: or_opt(file.language, global.language),
        content_type: or_opt(file.content_type, global.content_type),
        cookie_path: or_opt(file.cookie_path, global.cookie_path),
    }
}

/// `over` over `base`: each setting of `over` that is set wins.
pub open spec fn watch_merge(base: WatchDefaultsView, over: WatchDefaultsView) -> WatchDefaultsView {
    WatchDefaultsView {
        base_poll_seconds: or_opt(over.base_poll_seconds, base.base_poll_seconds),
        id_prefix: or_opt(over.id_prefix, base.id_prefix),
        category: or_opt(over.category, base.category),
        provenance: or_opt(over.provenance, base.provenance),
        tags: or_opt(over.tags, base.tags),
        language: or_opt(over.language, base.language),
        content_type: or_opt(over.content_type, base.content_type),
        cookie_path: or_opt(over.cookie_path, base.cookie_path),
        check_method: or_opt(over.check_method, base.check_method),
        fallback_to_get: or_opt(over.fallback_to_get, base.fallback_to_get),
        detectors: or_opt(over.detectors, base.detectors),
        fetch_body_on_change: or_opt(over.fetch_body_on_change, base.fetch_body_on_change),
        max_body_bytes: or_opt(over.max_body_bytes, base.max_body_bytes),
        item_selector: or_opt(over.item_selector, base.item_selector),
        item_identity: or_opt(over.item_identity, base.item_identity),
        item_identity_attr: or_opt(over.item_identity_attr, base.item_identity_attr),
        title_selector: or_opt(over.title_selector, base.title_selector),
        link_selector: or_opt(over.link_selector, base.link_selector),
        summary_selector: or_opt(over.summary_selector, base.summary_selector),
        published_selector: or_opt(over.published_selector, base.published_selector),
        published_format: or_opt(over.published_format, base.published_format),
        include_selectors: or_opt(over.include_selectors, base.include_selectors),
        exclude_selectors: or_opt(over.exclude_selectors, base.exclude_selectors),
        normalize_whitespace: or_opt(over.normalize_whitespace, base.normalize_whitespace),
        strip_query_params: or_opt(over.strip_query_params, base.strip_query_params),
        emit_mode: or_opt(over.emit_mode, base.emit_mode),
        emit_title: or_opt(over.emit_title, base.emit_title),
        min_item_count_change: or_opt(over.min_item_count_change, base.min_item_count_change),
    }
}

/// Feed defaults as written, with the id prefix checked and trimmed.
pub open spec fn feed_checked(v: FeedDefaultsView, context: Seq<char>) -> Result<FeedDefaultsView, Seq<char>> {
    match prefix_result(v.id_prefix, context) {
        Ok(p) => Ok(FeedDefaultsView { id_prefix: p, ..v }),
        Err(m) => Err(m),
    }
}

/// Watch defaults as written, with the id prefix checked and trimmed.
pub open spec fn watch_checked(v: WatchDefaultsView, context: Seq<char>) -> Result<WatchDefaultsView, Seq<char>> {
    match prefix_result(v.id_prefix, context) {
        Ok(p) => Ok(WatchDefaultsView { id_prefix: p, ..v }),
        Err(m) => Err(m),
    }
}

/// A feed filled from `d`: every unset setting but the id prefix is taken
/// from `d`; the feed's own prefix is checked, and the id gets the feed's
/// prefix or else the default one.
pub open spec fn feed_applied(f: RawFeedView, d: FeedDefaultsView, path: Seq<char>) -> Result<RawFeedView, Seq<char>> {
    match prefix_result(f.d.id_prefix, "feed '"@ + f.id + "' in "@ + path) {
        Err(m) => Err(m),
        Ok(own) => Ok(
            RawFeedView {
                id: prefixed_id(or_opt(own, d.id_prefix), f.id),
                url: f.url,
                d: FeedDefaultsView { id_prefix: own, ..feed_merge(d, f.d) },
            },
        ),
    }
}

/// The defaults a watch is filled from: its profile (looked up by the
/// trimmed name), or `d` when it names none.
pub open spec fn watch_base(
    w: RawWatchView,
    d: WatchDefaultsView,
    profiles: Map<Seq<char>, WatchDefaultsView>,
    path: Seq<char>,
) -> Result<WatchDefaultsView, Seq<char>> {
    match w.profile {
        None => Ok(d),
        Some(name) => if profiles.contains_key(trim(name)) {
            Ok(profiles[trim(name)])
        } else {
            Err(
                "watch '"@ + w.id + "' in "@ + path + " references unknown profile '"@ + trim(name)
                    + "'"@,
            )
        },
    }
}

/// A watch filled from its base defaults, as a feed is.
pub open spec fn watch_applied(
    w: RawWatchView,
    d: WatchDefaultsView,
    profiles: Map<Seq<char>, WatchDefaultsView>,
    path: Seq<char>,
) -> Result<RawWatchView, Seq<char>> {
    match watch_base(w, d, profiles, path) {
        Err(m) => Err(m),
        Ok(base) => match prefix_result(w.d.id_prefix, "watch '"@ + w.id + "' in "@ + path) {
            Err(m) => Err(m),
            Ok(own) => Ok(
                RawWatchView {
                    id: prefixed_id(or_opt(own, base.id_prefix), w.id),
                    url: w.url,
                    profile: w.profile,
                    d: WatchDefaultsView { id_prefix: own, ..watch_merge(base, w.d) },
                },
            ),
        },
    }
}

/// The trimmed prefix when it is non-empty lower-case ASCII letters and
/// digits; otherwise an error whose message begins with `context`.
pub fn validate_id_prefix(prefix: &str, context: &str) -> (r: Result<String, ConfigError>)
    ensures
        outcome(r, id_prefix_result(prefix@, context@), |s: String| s@),
{
    let t = trim_str(prefix);
    if t.len() == 0 {
        let mut msg: Vec<char> = Vec::new();
        push_str(&mut msg, context);
        push_str(&mut msg, " id_prefix cannot be empty");
        return Err(invalid_error(&msg));
    }
    let mut i: usize = 0;
    while i < t.len()
        invariant
            i <= t.len(),
            t.len() > 0,
            t@ == trim(prefix@),
            forall|j: int| 0 <= j < i ==> is_ascii_lower_or_digit(#[trigger] t@[j]),
        decreases t.len() - i,
    {
        let c = t[i];
        if !(('a' <= c && c <= 'z') || ('0' <= c && c <= '9')) {
            assert(!is_ascii_lower_or_digit(t@[i as int]));
            let mut msg: Vec<char> = Vec::new();
            push_str(&mut msg, context);
            push_str(&mut msg, " id_prefix must be lowercase alphanumeric");
            return Err(invalid_error(&msg));
        }
        i = i + 1;
    }
    Ok(string_of(&t))
}

/// An optional id prefix, checked when present.
fn check_prefix(p: &Option<String>, context: &Vec<char>) -> (r: Result<Option<String>, ConfigError>)
    ensures
        outcome(r, prefix_result(os(*p), context@), |o: Option<String>| os(o)),
{
    match p {
        None => Ok(None),
        Some(x) => {
            let ctx = string_of(context);
            match validate_id_prefix(x.as_str(), ctx.as_str()) {
                Ok(t) => Ok(Some(t)),
                Err(e) => Err(e),
            }
        },
    }
}

/// `a` followed by `b`.
fn joined(a: &str, b: &str) -> (r: Vec<char>)
    ensures
        r@ == a@ + b@,
{
    let mut v: Vec<char> = Vec::new();
    push_str(&mut v, a);
    push_str(&mut v, b);
    v
}

/// `p-id`.
fn prefix_id(p: &String, id: &String) -> (r: String)
    ensures
        r@ == p@ + seq!['-'] + id@,
{
    let mut v: Vec<char> = Vec::new();
    push_str(&mut v, p.as_str());
    v.push('-');
    push_str(&mut v, id.as_str());
    string_of(&v)
}

/// Feed settings layered under the feeds of a file.
#[derive(Debug)]
pub struct FeedDefaults {
    pub base_poll_seconds: Option<u64>,
    pub id_prefix: Option<String>,
    pub category: Option<String>,
    pub provenance: Option<String>,
    pub tags: Option<Vec<String>>,
    pub language: Option<String>,
    pub content_type: Option<String>,
    pub cookie_path: Option<String>,
}

impl View for FeedDefaults {
    type V = FeedDefaultsView;

    open spec fn view(&self) -> FeedDefaultsView {
        FeedDefaultsView {
            base_poll_seconds: self.base_poll_seconds,
            id_prefix: os(self.id_prefix),
            category: os(self.category),
            provenance: os(self.provenance),
            tags: ov(self.tags),
            language: os(self.language),
            content_type: os(self.content_type),
            cookie_path: os(self.cookie_path),
        }
    }
}

impl FeedDefaults {
    /// No setting at all.
    pub fn empty() -> (r: Self)
        ensures
            r@ == feed_empty(),
    {
        FeedDefaults {
            base_poll_seconds: None,
            id_prefix: None,
            category: None,
            provenance: None,
            tags: None,
            language: None,
            content_type: None,
            cookie_path: None,
        }
    }

    /// The file-level defaults of a feeds file; a prefix is checked.
    pub fn from_file(file: &RawFeedsFile, path: &str) -> (r: Result<Self, ConfigError>)
        ensures
            outcome(r, feed_checked(file.feed_fields(), "feed defaults in "@ + path@), |d: Self| d@),
    {
        let ctx = joined("feed defaults in ", path);
        let id_prefix = match check_prefix(&file.id_prefix, &ctx) {
            Ok(p) => p,
            Err(e) => return Err(e),
        };
        Ok(FeedDefaults {
            base_poll_seconds: file.base_poll_seconds,
            id_prefix: id_prefix,
            category: copy_opt_str(&file.category),
            provenance: copy_opt_str(&file.provenance),
            tags: copy_opt_strs(&file.tags),
            language: copy_opt_str(&file.language),
            content_type: copy_opt_str(&file.content_type),
            cookie_path: copy_opt_str(&file.cookie_path),
        })
    }

    /// The feed defaults of a directory's global file; a prefix is checked.
    pub fn from_defaults_file(file: &RawFeedDefaults, path: &str) -> (r: Result<Self, ConfigError>)
        ensures
            outcome(r, feed_checked(file.feed_fields(), "global defaults in "@ + path@), |d: Self| d@),
    {
        let ctx = joined("global defaults in ", path);
        let id_prefix = match check_prefix(&file.id_prefix, &ctx) {
            Ok(p) => p,
            Err(e) => return Err(e),
        };
        Ok(FeedDefaults {
            base_poll_seconds: file.base_poll_seconds,
            id_prefix: id_prefix,
            category: copy_opt_str(&file.category),
            provenance: copy_opt_str(&file.provenance),
            tags: copy_opt_strs(&file.tags),
            language: copy_opt_str(&file.language),
            content_type: copy_opt_str(&file.content_type),
            cookie_path: copy_opt_str(&file.cookie_path),
        })
    }

    /// `file` over `global`, field by field.
    pub fn merge(global: &Self, file: &Self) -> (r: Self)
        ensures
            r@ == feed_merge(global@, file@),
    {
        FeedDefaults {
            base_poll_seconds: or_copy(file.base_poll_seconds, global.base_poll_seconds),
            id_prefix: or_str(&file.id_prefix, &global.id_prefix),
            category: or_str(&file.category, &global.category),
            provenance: or_str(&file.provenance, &global.provenance),
            tags: or_strs(&file.tags, &global.tags),
            language: or_str(&file.language, &global.language),
            content_type: or_str(&file.content_type, &global.content_type),
            cookie_path: or_str(&file.cookie_path, &global.cookie_path),
        }
    }

    pub fn duplicate(&self) -> (r: Self)
        ensures
            r@ == self@,
    {
        FeedDefaults {
            base_poll_seconds: self.base_poll_seconds,
            id_prefix: copy_opt_str(&self.id_prefix),
            category: copy_opt_str(&self.category),
            provenance: copy_opt_str(&self.provenance),
            tags: copy_opt_strs(&self.tags),
            language: copy_opt_str(&self.language),
            content_type: copy_opt_str(&self.content_type),
            cookie_path: copy_opt_str(&self.cookie_path),
        }
    }
}

/// Watch settings layered under the watches of a file.
#[derive(Debug)]
pub struct WatchDefaults {
    pub base_poll_seconds: Option<u64>,
    pub id_prefix: Option<String>,
    pub category: Option<String>,
    pub provenance: Option<String>,
    pub tags: Option<Vec<String>>,
    pub language: Option<String>,
    pub content_type: Option<String>,
    pub cookie_path: Option<String>,
    pub check_method: Option<String>,
    pub fallback_to_get: Option<bool>,
    pub detectors: Option<Vec<String>>,
    pub fetch_body_on_change: Option<bool>,
    pub max_body_bytes: Option<u64>,
    pub item_selector: Option<String>,
    pub item_identity: Option<String>,
    pub item_identity_attr: Option<String>,
    pub title_selector: Option<String>,
    pub link_selector: Option<String>,
    pub summary_selector: Option<String>,
    pub published_selector: Option<String>,
    pub published_format: Option<String>,
    pub include_selectors: Option<Vec<String>>,
    pub exclude_selectors: Option<Vec<String>>,
    pub normalize_whitespace: Option<bool>,
    pub strip_query_params: Option<bool>,
    pub emit_mode: Option<String>,
    pub emit_title: Option<String>,
    pub min_item_count_change: Option<u64>,
}

impl View for WatchDefaults {
    type V = WatchDefaultsView;

    open spec fn view(&self) -> WatchDefaultsView {
        WatchDefaultsView {
            base_poll_seconds: self.base_poll_seconds,
            id_prefix: os(self.id_prefix),
            category: os(self.category),
            provenance: os(self.provenance),
            tags: ov(self.tags),
            language: os(self.language),
            content_type: os(self.content_type),
            cookie_path: os(self.cookie_path),
            check_method: os(self.check_method),
            fallback_to_get: self.fallback_to_get,
            detectors: ov(self.detectors),
            fetch_body_on_change: self.fetch_body_on_change,
            max_body_bytes: self.max_body_bytes,
            item_selector: os(self.item_selector),
            item_identity: os(self.item_identity),
            item_identity_attr: os(self.item_identity_attr),
            title_selector: os(self.title_selector),
            link_selector: os(self.link_selector),
            summary_selector: os(self.summary_selector),
            published_selector: os(self.published_selector),
            published_format: os(self.published_format),
            include_selectors: ov(self.include_selectors),
            exclude_selectors: ov(self.exclude_selectors),
            normalize_whitespace: self.normalize_whitespace,
            strip_query_params: self.strip_query_params,
            emit_mode: os(self.emit_mode),
            emit_title: os(self.emit_title),
            min_item_count_change: self.min_item_count_change,
        }
    }
}

impl WatchDefaults {
    /// No setting at all.
    pub fn empty() -> (r: Self)
        ensures
            r@ == watch_empty(),
    {
        WatchDefaults {
            base_poll_seconds: None,
            id_prefix: None,
            category: None,
            provenance: None,
            tags: None,
            language: None,
            content_type: None,
            cookie_path: None,
            check_method: None,
            fallback_to_get: None,
            detectors: None,
            fetch_body_on_change: None,
            max_body_bytes: None,
            item_selector: None,
            item_identity: None,
            item_identity_attr: None,
            title_selector: None,
            link_selector: None,
            summary_selector: None,
            published_selector: None,
            published_format: None,
            include_selectors: None,
            exclude_selectors: None,
            normalize_whitespace: None,
            strip_query_params: None,
            emit_mode: None,
            emit_title: None,
            min_item_count_change: None,
        }
    }

    /// A watch defaults table when there is one (empty defaults otherwise);
    /// a prefix is checked, with `label in path` opening the error.
    pub fn from_optional(raw: Option<&RawWatchDefaults>, path: &str, label: &str) -> (r: Result<Self, ConfigError>)
        ensures
            match raw {
                None => r matches Ok(d) && d@ == watch_empty(),
                Some(w) => outcome(r, watch_checked(w@, label@ + " in "@ + path@), |d: Self| d@),
            },
    {
        let raw = match raw {
            None => return Ok(Self::empty()),
            Some(w) => w,
        };
        let mut ctx = joined(label, " in ");
        push_str(&mut ctx, path);
        let id_prefix = match check_prefix(&raw.id_prefix, &ctx) {
            Ok(p) => p,
            Err(e) => return Err(e),
        };
        Ok(WatchDefaults {
            base_poll_seconds: raw.base_poll_seconds,
            id_prefix: id_prefix,
            category: copy_opt_str(&raw.category),
            provenance: copy_opt_str(&raw.provenance),
            tags: copy_opt_strs(&raw.tags),
            language: copy_opt_str(&raw.language),
            content_type: copy_opt_str(&raw.content_type),
            cookie_path: copy_opt_str(&raw.cookie_path),
            check_method: copy_opt_str(&raw.check_method),
            fallback_to_get: raw.fallback_to_get,
            detectors: copy_opt_strs(&raw.detectors),
            fetch_body_on_change: raw.fetch_body_on_change,
            max_body_bytes: raw.max_body_bytes,
            item_selector: copy_opt_str(&raw.item_selector),
            item_identity: copy_opt_str(&raw.item_identity),
            item_identity_attr: copy_opt_str(&raw.item_identity_attr),
            title_selector: copy_opt_str(&raw.title_selector),
            link_selector: copy_opt_str(&raw.link_selector),
            summary_selector: copy_opt_str(&raw.summary_selector),
            published_selector: copy_opt_str(&raw.published_selector),
            published_format: copy_opt_str(&raw.published_format),
            include_selectors: copy_opt_strs(&raw.include_selectors),
            exclude_selectors: copy_opt_strs(&raw.exclude_selectors),
            normalize_whitespace: raw.normalize_whitespace,
            strip_query_params: raw.strip_query_params,
            emit_mode: copy_opt_str(&raw.emit_mode),
            emit_title: copy_opt_str(&raw.emit_title),
            min_item_count_change: raw.min_item_count_change,
        })
    }

    /// `override_with` over `base`, field by field.
    pub fn merge(base: &Self, override_with: &Self) -> (r: Self)
        ensures
            r@ == watch_merge(base@, override_with@),
    {
        WatchDefaults {
            base_poll_seconds: or_copy(override_with.base_poll_seconds, base.base_poll_seconds),
            id_prefix: or_str(&override_with.id_prefix, &base.id_prefix),
            category: or_str(&override_with.category, &base.category),
            provenance: or_str(&override_with.provenance, &base.provenance),
            tags: or_strs(&override_with.tags, &base.tags),
            language: or_str(&override_with.language, &base.language),
            content_type: or_str(&override_with.content_type, &base.content_type),
            cookie_path: or_str(&override_with.cookie_path, &base.cookie_path),
            check_method: or_str(&override_with.check_method, &base.check_method),
            fallback_to_get: or_copy(override_with.fallback_to_get, base.fallback_to_get),
            detectors: or_strs(&override_with.detectors, &base.detectors),
            fetch_body_on_change: or_copy(override_with.fetch_body_on_change, base.fetch_body_on_change),
            max_body_bytes: or_copy(override_with.max_body_bytes, base.max_body_bytes),
            item_selector: or_str(&override_with.item_selector, &base.item_selector),
            item_identity: or_str(&override_with.item_identity, &base.item_identity),
            item_identity_attr: or_str(&override_with.item_identity_attr, &base.item_identity_attr),
            title_selector: or_str(&override_with.title_selector, &base.title_selector),
            link_selector: or_str(&override_with.link_selector, &base.link_selector),
            summary_selector: or_str(&override_with.summary_selector, &base.summary_selector),
            published_selector: or_str(&override_with.published_selector, &base.published_selector),
            published_format: or_str(&override_with.published_format, &base.published_format),
            include_selectors: or_strs(&override_with.include_selectors, &base.include_selectors),
            exclude_selectors: or_strs(&override_with.exclude_selectors, &base.exclude_selectors),
            normalize_whitespace: or_copy(override_with.normalize_whitespace, base.normalize_whitespace),
            strip_query_params: or_copy(override_with.strip_query_params, base.strip_query_params),
            emit_mode: or_str(&override_with.emit_mode, &base.emit_mode),
            emit_title: or_str(&override_with.emit_title, &base.emit_title),
            min_item_count_change: or_copy(override_with.min_item_count_change, base.min_item_count_change),
        }
    }

    pub fn duplicate(&self) -> (r: Self)
        ensures
            r@ == self@,
    {
        WatchDefaults {
            base_poll_seconds: self.base_poll_seconds,
            id_prefix: copy_opt_str(&self.id_prefix),
            category: copy_opt_str(&self.category),
            provenance: copy_opt_str(&self.provenance),
            tags: copy_opt_strs(&self.tags),
            language: copy_opt_str(&self.language),
            content_type: copy_opt_str(&self.content_type),
            cookie_path: copy_opt_str(&self.cookie_path),
            check_method: copy_opt_str(&self.check_method),
            fallback_to_get: self.fallback_to_get,
            detectors: copy_opt_strs(&self.detectors),
            fetch_body_on_change: self.fetch_body_on_change,
            max_body_bytes: self.max_body_bytes,
            item_selector: copy_opt_str(&self.item_selector),
            item_identity: copy_opt_str(&self.item_identity),
            item_identity_attr: copy_opt_str(&self.item_identity_attr),
            title_selector: copy_opt_str(&self.title_selector),
            link_selector: copy_opt_str(&self.link_selector),
            summary_selector: copy_opt_str(&self.summary_selector),
            published_selector: copy_opt_str(&self.published_selector),
            published_format: copy_opt_str(&self.published_format),
            include_selectors: copy_opt_strs(&self.include_selectors),
            exclude_selectors: copy_opt_strs(&self.exclude_selectors),
            normalize_whitespace: self.normalize_whitespace,
            strip_query_params: self.strip_query_params,
            emit_mode: copy_opt_str(&self.emit_mode),
            emit_title: copy_opt_str(&self.emit_title),
            min_item_count_change: self.min_item_count_change,
        }
    }
}

/// Fills a feed's unset settings from `defaults`, checks its own id prefix
/// and puts the prefix in front of its id.
pub fn apply_feed_defaults(feed: RawFeed, defaults: &FeedDefaults, path: &str) -> (r: Result<RawFeed, ConfigError>)
    ensures
        outcome(r, feed_applied(feed@, defaults@, path@), |f: RawFeed| f@),
{
    let ghost f0 = feed@;
    let mut feed = feed;
    if feed.base_poll_seconds.is_none() {
        feed.base_poll_seconds = defaults.base_poll_seconds;
    }
    if feed.category.is_none() {
        feed.category = copy_opt_str(&defaults.category);
    }
    if feed.provenance.is_none() {
        feed.provenance = copy_opt_str(&defaults.provenance);
    }
    if feed.tags.is_none() {
        feed.tags = copy_opt_strs(&defaults.tags);
    }
    if feed.language.is_none() {
        feed.language = copy_opt_str(&defaults.language);
    }
    if feed.content_type.is_none() {
        feed.content_type = copy_opt_str(&defaults.content_type);
    }
    if feed.cookie_path.is_none() {
        feed.cookie_path = copy_opt_str(&defaults.cookie_path);
    }
    let mut ctx = joined("feed '", feed.id.as_str());
    push_str(&mut ctx, "' in ");
    push_str(&mut ctx, path);
    let own = match check_prefix(&feed.id_prefix, &ctx) {
        Ok(p) => p,
        Err(e) => return Err(e),
    };
    let prefix = match &own {
        Some(_) => copy_opt_str(&own),
        None => copy_opt_str(&defaults.id_prefix),
    };
    feed.id_prefix = own;
    match prefix {
        Some(p) => {
            feed.id = prefix_id(&p, &feed.id);
        },
        None => {},
    }
    assert(feed@.d == FeedDefaultsView { id_prefix: os(feed.id_prefix), ..feed_merge(defaults@, f0.d) });
    Ok(feed)
}

/// Fills a watch's unset settings from its profile (or `defaults` when it
/// names none), checks its own id prefix and puts the prefix in front of
/// its id.
pub fn apply_watch_defaults(
    watch: RawWatch,
    defaults: &WatchDefaults,
    profiles: &Vec<(String, WatchDefaults)>,
    path: &str,
) -> (r: Result<RawWatch, ConfigError>)
    requires
        unique_keys(eviews(profiles@)),
    ensures
        outcome(r, watch_applied(watch@, defaults@, emap(eviews(profiles@)), path@), |w: RawWatch| w@),
{
    let base = match watch_base_of(&watch, defaults, profiles, path) {
        Ok(b) => b,
        Err(e) => return Err(e),
    };
    let mut watch = fill_watch(watch, &base);
    let mut ctx = joined("watch '", watch.id.as_str());
    push_str(&mut ctx, "' in ");
    push_str(&mut ctx, path);
    let own = match check_prefix(&watch.id_prefix, &ctx) {
        Ok(p) => p,
        Err(e) => return Err(e),
    };
    let prefix = match &own {
        Some(_) => copy_opt_str(&own),
        None => copy_opt_str(&base.id_prefix),
    };
    watch.id_prefix = own;
    match prefix {
        Some(p) => {
            watch.id = prefix_id(&p, &watch.id);
        },
        None => {},
    }
    Ok(watch)
}

/// The defaults a watch is filled from.
fn watch_base_of(
    watch: &RawWatch,
    defaults: &WatchDefaults,
    profiles: &Vec<(String, WatchDefaults)>,
    path: &str,
) -> (r: Result<WatchDefaults, ConfigError>)
    requires
        unique_keys(eviews(profiles@)),
    ensures
        outcome(r, watch_base(watch@, defaults@, emap(eviews(profiles@)), path@), |d: WatchDefaults| d@),
{
    match &watch.profile {
        None => Ok(defaults.duplicate()),
        Some(name) => {
            let key = trim_str(name.as_str());
            let key_s = string_of(&key);
            match find_key(profiles, key_s.as_str()) {
                Some(i) => {
                    proof {
                        crate::sorted::lemma_emap_unique(eviews(profiles@));
                        assert(eviews(profiles@)[i as int].0 == key@);
                    }
                    Ok(profiles[i].1.duplicate())
                },
                None => {
                    let mut msg = joined("watch '", watch.id.as_str());
                    push_str(&mut msg, "' in ");
                    push_str(&mut msg, path);
                    push_str(&mut msg, " references unknown profile '");
                    push_all(&mut msg, &key);
                    push_str(&mut msg, "'");
                    Err(invalid_error(&msg))
                },
            }
        },
    }
}

/// The watch with every unset setting but the id prefix taken from `base`.
fn fill_watch(watch: RawWatch, base: &WatchDefaults) -> (r: RawWatch)
    ensures
        r@ == (RawWatchView {
            d: WatchDefaultsView { id_prefix: watch@.d.id_prefix, ..watch_merge(base@, watch@.d) },
            ..watch@
        }),
{
    RawWatch {
        id: watch.id,
        url: watch.url,
        profile: watch.profile,
        base_poll_seconds: or_copy(watch.base_poll_seconds, base.base_poll_seconds),
        id_prefix: watch.id_prefix,
        category: or_str(&watch.category, &base.category),
        provenance: or_str(&watch.provenance, &base.provenance),
        tags: or_strs(&watch.tags, &base.tags),
        language: or_str(&watch.language, &base.language),
        content_type: or_str(&watch.content_type, &base.content_type),
        cookie_path: or_str(&watch.cookie_path, &base.cookie_path),
        check_method: or_str(&watch.check_method, &base.check_method),
        fallback_to_get: or_copy(watch.fallback_to_get, base.fallback_to_get),
        detectors: or_strs(&watch.detectors, &base.detectors),
        fetch_body_on_change: or_copy(watch.fetch_body_on_change, base.fetch_body_on_change),
        max_body_bytes: or_copy(watch.max_body_bytes, base.max_body_bytes),
        item_selector: or_str(&watch.item_selector, &base.item_selector),
        item_identity: or_str(&watch.item_identity, &base.item_identity),
        item_identity_attr: or_str(&watch.item_identity_attr, &base.item_identity_attr),
        title_selector: or_str(&watch.title_selector, &base.title_selector),
        link_selector: or_str(&watch.link_selector, &base.link_selector),
        summary_selector: or_str(&watch.summary_selector, &base.summary_selector),
        published_selector: or_str(&watch.published_selector, &base.published_selector),
        published_format: or_str(&watch.published_format, &base.published_format),
        include_selectors: or_strs(&watch.include_selectors, &base.include_selectors),
        exclude_selectors: or_strs(&watch.exclude_selectors, &base.exclude_selectors),
        normalize_whitespace: or_copy(watch.normalize_whitespace, base.normalize_whitespace),
        strip_query_params: or_copy(watch.strip_query_params, base.strip_query_params),
        emit_mode: or_str(&watch.emit_mode, &base.emit_mode),
        emit_title: or_str(&watch.emit_title, &base.emit_title),
        min_item_count_change: or_copy(watch.min_item_count_change, base.min_item_count_change),
    }
}

/// Empty defaults change nothing, on either side of a merge.
pub proof fn lemma_feed_merge_identity(x: FeedDefaultsView)
    ensures
        feed_merge(feed_empty(), x) == x,
        feed_merge(x, feed_empty()) == x,
{
}

/// Layering feed defaults is associative: `c` over (`b` over `a`) is
/// (`c` over `b`) over `a`.
pub proof fn lemma_feed_merge_assoc(a: FeedDefaultsView, b: FeedDefaultsView, c: FeedDefaultsView)
    ensures
        feed_merge(feed_merge(a, b), c) == feed_merge(a, feed_merge(b, c)),
{
}

/// Empty watch defaults change nothing, on either side of a merge.
pub proof fn lemma_watch_merge_identity(x: WatchDefaultsView)
    ensures
        watch_merge(watch_empty(), x) == x,
        watch_merge(x, watch_empty()) == x,
{
}

/// Layering watch defaults is associative.
pub proof fn lemma_watch_merge_assoc(a: WatchDefaultsView, b: WatchDefaultsView, c: WatchDefaultsView)
    ensures
        watch_merge(watch_merge(a, b), c) == watch_merge(a, watch_merge(b, c)),
{
    lemma_or_assoc(a.base_poll_seconds, b.base_poll_seconds, c.base_poll_seconds);
    lemma_or_assoc(a.id_prefix, b.id_prefix, c.id_prefix);
    lemma_or_assoc(a.category, b.category, c.category);
    lemma_or_assoc(a.provenance, b.provenance, c.provenance);
    lemma_or_assoc(a.tags, b.tags, c.tags);
    lemma_or_assoc(a.language, b.language, c.language);
    lemma_or_assoc(a.content_type, b.content_type, c.content_type);
    lemma_or_assoc(a.cookie_path, b.cookie_path, c.cookie_path);
    lemma_or_assoc(a.check_method, b.check_method, c.check_method);
    lemma_or_assoc(a.fallback_to_get, b.fallback_to_get, c.fallback_to_get);
    lemma_or_assoc(a.detectors, b.detectors, c.detectors);
    lemma_or_assoc(a.fetch_body_on_change, b.fetch_body_on_change, c.fetch_body_on_change);
    lemma_or_assoc(a.max_body_bytes, b.max_body_bytes, c.max_body_bytes);
    lemma_or_assoc(a.item_selector, b.item_selector, c.item_selector);
    lemma_or_assoc(a.item_identity, b.item_identity, c.item_identity);
    lemma_or_assoc(a.item_identity_attr, b.item_identity_attr, c.item_identity_attr);
    lemma_or_assoc(a.title_selector, b.title_selector, c.title_selector);
    lemma_or_assoc(a.link_selector, b.link_selector, c.link_selector);
    lemma_or_assoc(a.summary_selector, b.summary_selector, c.summary_selector);
    lemma_or_assoc(a.published_selector, b.published_selector, c.published_selector);
    lemma_or_assoc(a.published_format, b.published_format, c.published_format);
    lemma_or_assoc(a.include_selectors, b.include_selectors, c.include_selectors);
    lemma_or_assoc(a.exclude_selectors, b.exclude_selectors, c.exclude_selectors);
    lemma_or_assoc(a.normalize_whitespace, b.normalize_whitespace, c.normalize_whitespace);
    lemma_or_assoc(a.strip_query_params, b.strip_query_params, c.strip_query_params);
    lemma_or_assoc(a.emit_mode, b.emit_mode, c.emit_mode);
    lemma_or_assoc(a.emit_title, b.emit_title, c.emit_title);
    lemma_or_assoc(a.min_item_count_change, b.min_item_count_change, c.min_item_count_change);
}

proof fn lemma_or_assoc<T>(a: Option<T>, b: Option<T>, c: Option<T>)
    ensures
        or_opt(c, or_opt(b, a)) == or_opt(or_opt(c, b), a),
{
}

/// Merging with the same layer twice is merging once.
pub proof fn lemma_watch_merge_idempotent(a: WatchDefaultsView, b: WatchDefaultsView)
    ensures
        watch_merge(watch_merge(a, b), b) == watch_merge(a, b),
{
}

} // verus!
