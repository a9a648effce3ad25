//! Raw shapes of the configuration files, as read and before any default
//! or rule is applied, and the views that the contracts speak of.

use vstd::prelude::*;

use super::error::{os, ov};

verus! {

/// Feed-level settings that a defaults table can provide.
pub struct FeedDefaultsView {
    pub base_poll_seconds: Option<u64>,
    pub id_prefix: Option<Seq<char>>,
    pub category: Option<Seq<char>>,
    pub provenance: Option<Seq<char>>,
    pub tags: Option<Seq<Seq<char>>>,
    pub language: Option<Seq<char>>,
    pub content_type: Option<Seq<char>>,
    pub cookie_path: Option<Seq<char>>,
}

/// Watch-level settings that a defaults table or profile can provide.
pub struct WatchDefaultsView {
    pub base_poll_seconds: Option<u64>,
    pub id_prefix: Option<Seq<char>>,
    pub category: Option<Seq<char>>,
    pub provenance: Option<Seq<char>>,
    pub tags: Option<Seq<Seq<char>>>,
    pub language: Option<Seq<char>>,
    pub content_type: Option<Seq<char>>,
    pub cookie_path: Option<Seq<char>>,
    pub check_method: Option<Seq<char>>,
    pub fallback_to_get: Option<bool>,
    pub detectors: Option<Seq<Seq<char>>>,
    pub fetch_body_on_change: Option<bool>,
    pub max_body_bytes: Option<u64>,
    pub item_selector: Option<Seq<char>>,
    pub item_identity: Option<Seq<char>>,
    pub item_identity_attr: Option<Seq<char>>,
    pub title_selector: Option<Seq<char>>,
    pub link_selector: Option<Seq<char>>,
    pub summary_selector: Option<Seq<char>>,
    pub published_selector: Option<Seq<char>>,
    pub published_format: Option<Seq<char>>,
    pub include_selectors: Option<Seq<Seq<char>>>,
    pub exclude_selectors: Option<Seq<Seq<char>>>,
    pub normalize_whitespace: Option<bool>,
    pub strip_query_params: Option<bool>,
    pub emit_mode: Option<Seq<char>>,
    pub emit_title: Option<Seq<char>>,
    pub min_item_count_change: Option<u64>,
}

/// A `[[feeds]]` entry.
#[derive(Debug)]
pub struct RawFeed {
    pub id: String,
    pub url: String,
    pub base_poll_seconds: Option<u64>,
    pub id_prefix: Option<String>,
    pub category: Option<String>,
    pub provenance: Option<String>,
    pub tags: Option<Vec<String>>,
    pub language: Option<String>,
    pub content_type: Option<String>,
    pub cookie_path: Option<String>,
}

pub struct RawFeedView {
    pub id: Seq<char>,
    pub url: Seq<char>,
    pub d: FeedDefaultsView,
}

impl View for RawFeed {
    type V = RawFeedView;

    open spec fn view(&self) -> RawFeedView {
        RawFeedView { id: self.id@, url: self.url@, d: FeedDefaultsView {
            base_poll_seconds: self.base_poll_seconds,
            id_prefix: os(self.id_prefix),
            category: os(self.category),
            provenance: os(self.provenance),
            tags: ov(self.tags),
            language: os(self.language),
            content_type: os(self.content_type),
            cookie_path: os(self.cookie_path),
        } }
    }
}

/// A `[watch_defaults]` table or the settings of a watch profile.
#[derive(Debug)]
pub struct RawWatchDefaults {
    pub base_poll_seconds: Option<u64>,
    pub id_prefix: Option<String>,
    pub category: Option<String>,
    pub provenance: Option<String>,
    pub tags: Option<Vec<String>>,
    pub language: Option<String>,
    pub content_type: Option<String>,
    pub cookie_path: Option<String>,
    pub check_method: Option<String>,
    pub fallback_to_get: Option<bool>,
    pub detectors: Option<Vec<String>>,
    pub fetch_body_on_change: Option<bool>,
    pub max_body_bytes: Option<u64>,
    pub item_selector: Option<String>,
    pub item_identity: Option<String>,
    pub item_identity_attr: Option<String>,
    pub title_selector: Option<String>,
    pub link_selector: Option<String>,
    pub summary_selector: Option<String>,
    pub published_selector: Option<String>,
    pub published_format: Option<String>,
    pub include_selectors: Option<Vec<String>>,
    pub exclude_selectors: Option<Vec<String>>,
    pub normalize_whitespace: Option<bool>,
    pub strip_query_params: Option<bool>,
    pub emit_mode: Option<String>,
    pub emit_title: Option<String>,
    pub min_item_count_change: Option<u64>,
}

impl View for RawWatchDefaults {
    type V = WatchDefaultsView;

    open spec fn view(&self) -> WatchDefaultsView {
        WatchDefaultsView {
            base_poll_seconds: self.base_poll_seconds,
            id_prefix: os(self.id_prefix),
            category: os(self.category),
            provenance: os(self.provenance),
            tags: ov(self.tags),
            language: os(self.language),
            content_type: os(self.content_type),
            cookie_path: os(self.cookie_path),
            check_method: os(self.check_method),
            fallback_to_get: self.fallback_to_get,
            detectors: ov(self.detectors),
            fetch_body_on_change: self.fetch_body_on_change,
            max_body_bytes: self.max_body_bytes,
            item_selector: os(self.item_selector),
            item_identity: os(self.item_identity),
            item_identity_attr: os(self.item_identity_attr),
            title_selector: os(self.title_selector),
            link_selector: os(self.link_selector),
            summary_selector: os(self.summary_selector),
            published_selector: os(self.published_selector),
            published_format: os(self.published_format),
            include_selectors: ov(self.include_selectors),
            exclude_selectors: ov(self.exclude_selectors),
            normalize_whitespace: self.normalize_whitespace,
            strip_query_params: self.strip_query_params,
            emit_mode: os(self.emit_mode),
            emit_title: os(self.emit_title),
            min_item_count_change: self.min_item_count_change,
        }
    }
}

/// A `[[watches]]` entry.
#[derive(Debug)]
pub struct RawWatch {
    pub id: String,
    pub url: String,
    pub profile: Option<String>,
    pub base_poll_seconds: Option<u64>,
    pub id_prefix: Option<String>,
    pub category: Option<String>,
    pub provenance: Option<String>,
    pub tags: Option<Vec<String>>,
    pub language: Option<String>,
    pub content_type: Option<String>,
    pub cookie_path: Option<String>,
    pub check_method: Option<String>,
    pub fallback_to_get: Option<bool>,
    pub detectors: Option<Vec<String>>,
    pub fetch_body_on_change: Option<bool>,
    pub max_body_bytes: Option<u64>,
    pub item_selector: Option<String>,
    pub item_identity: Option<String>,
    pub item_identity_attr: Option<String>,
    pub title_selector: Option<String>,
    pub link_selector: Option<String>,
    pub summary_selector: Option<String>,
    pub published_selector: Option<String>,
    pub published_format: Option<String>,
    pub include_selectors: Option<Vec<String>>,
    pub exclude_selectors: Option<Vec<String>>,
    pub normalize_whitespace: Option<bool>,
    pub strip_query_params: Option<bool>,
    pub emit_mode: Option<String>,
    pub emit_title: Option<String>,
    pub min_item_count_change: Option<u64>,
}

pub struct RawWatchView {
    pub id: Seq<char>,
    pub url: Seq<char>,
    pub profile: Option<Seq<char>>,
    pub d: WatchDefaultsView,
}

impl View for RawWatch {
    type V = RawWatchView;

    open spec fn view(&self) -> RawWatchView {
        RawWatchView { id: self.id@, url: self.url@, profile: os(self.profile), d: WatchDefaultsView {
            base_poll_seconds: self.base_poll_seconds,
            id_prefix: os(self.id_prefix),
            category: os(self.category),
            provenance: os(self.provenance),
            tags: ov(self.tags),
            language: os(self.language),
            content_type: os(self.content_type),
            cookie_path: os(self.cookie_path),
            check_method: os(self.check_method),
            fallback_to_get: self.fallback_to_get,
            detectors: ov(self.detectors),
            fetch_body_on_change: self.fetch_body_on_change,
            max_body_bytes: self.max_body_bytes,
            item_selector: os(self.item_selector),
            item_identity: os(self.item_identity),
            item_identity_attr: os(self.item_identity_attr),
            title_selector: os(self.title_selector),
            link_selector: os(self.link_selector),
            summary_selector: os(self.summary_selector),
            published_selector: os(self.published_selector),
            published_format: os(self.published_format),
            include_selectors: ov(self.include_selectors),
            exclude_selectors: ov(self.exclude_selectors),
            normalize_whitespace: self.normalize_whitespace,
            strip_query_params: self.strip_query_params,
            emit_mode: os(self.emit_mode),
            emit_title: os(self.emit_title),
            min_item_count_change: self.min_item_count_change,
        } }
    }
}

/// A named `[[watch_profiles]]` entry.
#[derive(Debug)]
pub struct RawWatchProfile {
    pub name: String,
    pub defaults: RawWatchDefaults,
}

/// One feeds file: file-level feed defaults, feeds, watch defaults, watch
/// profiles and watches.
#[derive(Debug)]
pub struct RawFeedsFile {
    pub base_poll_seconds: Option<u64>,
    pub id_prefix: Option<String>,
    pub category: Option<String>,
    pub provenance: Option<String>,
    pub tags: Option<Vec<String>>,
    pub language: Option<String>,
    pub content_type: Option<String>,
    pub cookie_path: Option<String>,
    pub feeds: Vec<RawFeed>,
    pub watch_defaults: Option<RawWatchDefaults>,
    pub watch_profiles: Vec<RawWatchProfile>,
    pub watches: Vec<RawWatch>,
}

impl RawFeedsFile {
    /// The file-level feed defaults as written.
    pub open spec fn feed_fields(&self) -> FeedDefaultsView {
        FeedDefaultsView {
            base_poll_seconds: self.base_poll_seconds,
            id_prefix: os(self.id_prefix),
            category: os(self.category),
            provenance: os(self.provenance),
            tags: ov(self.tags),
            language: os(self.language),
            content_type: os(self.content_type),
            cookie_path: os(self.cookie_path),
        }
    }
}

/// A directory's `global.toml`: feed defaults and watch defaults.
#[derive(Debug)]
pub struct RawFeedDefaults {
    pub base_poll_seconds: Option<u64>,
    pub id_prefix: Option<String>,
    pub category: Option<String>,
    pub provenance: Option<String>,
    pub tags: Option<Vec<String>>,
    pub language: Option<String>,
    pub content_type: Option<String>,
    pub cookie_path: Option<String>,
    pub watch_defaults: Option<RawWatchDefaults>,
}

impl RawFeedDefaults {
    /// The feed defaults as written.
    pub open spec fn feed_fields(&self) -> FeedDefaultsView {
        FeedDefaultsView {
            base_poll_seconds: self.base_poll_seconds,
            id_prefix: os(self.id_prefix),
            category: os(self.category),
            provenance: os(self.provenance),
            tags: ov(self.tags),
            language: os(self.language),
            content_type: os(self.content_type),
            cookie_path: os(self.cookie_path),
        }
    }
}

/// A `[[categories]]` entry.
#[derive(Debug)]
pub struct RawCategoryEntry {
    pub name: String,
    pub domains: Vec<String>,
}

} // verus!
