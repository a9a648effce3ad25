//! Domain models: sources (feeds and watches) and categories, HTTP result
//! shapes, and the error taxonomy.

use vstd::prelude::*;

verus! {

/// Per-domain request limit.
#[derive(Debug, Clone)]
pub struct DomainConfig {
    pub max_concurrent_requests: usize,
}

/// A named category and the (lower-case) domains it owns.
#[derive(Debug, Clone)]
pub struct CategoryConfig {
    pub name: String,
    pub domains: Vec<String>,
}

/// A polled RSS/Atom source.
#[derive(Debug, Clone)]
pub struct FeedConfig {
    pub id: String,
    pub url: String,
    pub domain: String,
    pub category: String,
    pub base_poll_seconds: u64,
    pub provenance: Option<String>,
    pub tags: Option<Vec<String>>,
    pub language: Option<String>,
    pub content_type: Option<String>,
    pub cookie_path: Option<String>,
    pub headers_path: Option<String>,
    pub headers: Option<std::collections::HashMap<String, String>>,
}

/// A polled HTML page watched for changes.
#[derive(Debug, Clone)]
pub struct WatchConfig {
    pub id: String,
    pub url: String,
    pub domain: String,
    pub category: String,
    pub base_poll_seconds: u64,
    pub provenance: Option<String>,
    pub tags: Option<Vec<String>>,
    pub language: Option<String>,
    pub content_type: Option<String>,
    pub cookie_path: Option<String>,
    pub headers_path: Option<String>,
    pub headers: Option<std::collections::HashMap<String, String>>,
    pub check_method: WatchCheckMethod,
    pub fallback_to_get: bool,
    pub detectors: Vec<WatchDetector>,
    pub fetch_body_on_change: bool,
    pub max_body_bytes: Option<u64>,
    pub max_items_per_fetch: Option<u64>,
    pub item_selector: Option<String>,
    pub item_identity: Option<WatchItemIdentity>,
    pub item_identity_attr: Option<String>,
    pub title_selector: Option<String>,
    pub link_selector: Option<String>,
    pub summary_selector: Option<String>,
    pub published_selector: Option<String>,
    pub published_format: Option<String>,
    pub include_selectors: Option<Vec<String>>,
    pub exclude_selectors: Option<Vec<String>>,
    pub normalize_whitespace: bool,
    pub strip_query_params: bool,
    pub emit_mode: WatchEmitMode,
    pub emit_title: Option<String>,
    pub min_item_count_change: Option<u64>,
}

#[derive(Debug, Clone, Copy, PartialEq, Eq, Structural)]
pub enum WatchCheckMethod {
    Head,
    Get,
}

#[derive(Debug, Clone, Copy, PartialEq, Eq, Structural)]
pub enum WatchDetector {
    Etag,
    LastModified,
    ContentLength,
    ContentHash,
    ElementHash,
}

#[derive(Debug, Clone, Copy, PartialEq, Eq, Structural)]
pub enum WatchItemIdentity {
    Href,
    Text,
    Attr,
}

#[derive(Debug, Clone, Copy, PartialEq, Eq, Structural)]
pub enum WatchEmitMode {
    NewItemsOnly,
    AnyChange,
    Digest,
}

#[derive(Debug, Clone, Copy, PartialEq, Eq, Structural)]
pub enum AppMode {
    Dev,
    Prod,
}

#[derive(Debug, Clone)]
pub struct MetricsConfig {
    pub enabled: bool,
    pub bind: String,
}

#[derive(Debug, Clone, Copy, PartialEq, Eq, Structural)]
pub enum SqlDialect {
    Sqlite,
    Postgres,
}

#[derive(Debug, Clone)]
pub struct PostgresConfig {
    pub user: String,
    pub password: String,
    pub host: String,
    pub port: u16,
    pub database: String,
    pub schema: String,
}

/// Coarse failure classes of a request.
#[derive(Debug, Clone, Copy, PartialEq, Eq, Structural)]
pub enum ErrorKind {
    Timeout,
    DnsFailure,
    ConnectionFailure,
    Http4xx(u16),
    Http5xx(u16),
    ParseError,
    Unexpected,
}

/// Outcome of a HEAD request.
#[derive(Debug, Clone)]
pub struct HeadResult {
    pub status: Option<u16>,
    pub etag: Option<String>,
    /// epoch millis
    pub last_modified: Option<i64>,
    pub error: Option<ErrorKind>,
    pub latency_ms: u64,
    pub set_cookie_headers: Vec<String>,
}

/// Outcome of a GET request.
#[derive(Debug, Clone)]
pub struct GetResult {
    pub status: Option<u16>,
    pub body: Option<Vec<u8>>,
    pub etag: Option<String>,
    /// epoch millis
    pub last_modified: Option<i64>,
    pub error: Option<ErrorKind>,
    pub latency_ms: u64,
    pub set_cookie_headers: Vec<String>,
}

} // verus!
