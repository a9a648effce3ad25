//! What a HEAD or GET request came back with, in the terms the scheduler
//! uses: the status, validators, body, and a coarse error class.

use vstd::prelude::*;

use crate::config::error::os;
use crate::model::{ErrorKind, GetResult, HeadResult};

verus! {

/// What `DateTime::parse_from_rfc2822(raw)` gives, as epoch milliseconds.
pub uninterp spec fn datetime_rfc2822(raw: Seq<char>) -> Option<i64>;

/// Calls `chrono::DateTime::parse_from_rfc2822` and `timestamp_millis`.
#[verifier::external_body]
fn parse_rfc2822(raw: &str) -> (r: Option<i64>)
    ensures
        r == datetime_rfc2822(raw@),
{
    chrono::DateTime::parse_from_rfc2822(raw).ok().map(|dt| dt.timestamp_millis())
}

/// The error class of a response status: 4xx and 5xx are errors.
pub open spec fn status_kind(n: u16) -> Option<ErrorKind> {
    if 400 <= n < 500 {
        Some(ErrorKind::Http4xx(n))
    } else if 500 <= n < 600 {
        Some(ErrorKind::Http5xx(n))
    } else {
        None
    }
}

pub fn status_error_kind(n: u16) -> (r: Option<ErrorKind>)
    ensures
        r == status_kind(n),
{
    if 400 <= n && n < 500 {
        Some(ErrorKind::Http4xx(n))
    } else if 500 <= n && n < 600 {
        Some(ErrorKind::Http5xx(n))
    } else {
        None
    }
}

/// The error class of a request that got no response.
pub fn classify_error(is_timeout: bool, is_connect: bool) -> (r: ErrorKind)
    ensures
        r == if is_timeout {
            ErrorKind::Timeout
        } else if is_connect {
            ErrorKind::ConnectionFailure
        } else {
            ErrorKind::Unexpected
        },
{
    if is_timeout {
        ErrorKind::Timeout
    } else if is_connect {
        ErrorKind::ConnectionFailure
    } else {
        ErrorKind::Unexpected
    }
}

/// The `Last-Modified` header as epoch milliseconds, when it is an RFC 2822
/// date.
pub fn parse_last_modified(header: Option<&str>) -> (r: Option<i64>)
    ensures
        r == match header {
            Some(h) => datetime_rfc2822(h@),
            None => None,
        },
{
    match header {
        Some(h) => parse_rfc2822(h),
        None => None,
    }
}

/// The result of a HEAD that got a response.
pub fn head_result(
    status: u16,
    etag: Option<String>,
    last_modified_header: Option<&str>,
    latency_ms: u64,
    set_cookie_headers: Vec<String>,
) -> (r: HeadResult)
    ensures
        r.status == Some(status),
        os(r.etag) == os(etag),
        r.last_modified == match last_modified_header {
            Some(h) => datetime_rfc2822(h@),
            None => None,
        },
        r.error == status_kind(status),
        r.latency_ms == latency_ms,
        r.set_cookie_headers@ == set_cookie_headers@,
{
    HeadResult {
        status: Some(status),
        etag,
        last_modified: parse_last_modified(last_modified_header),
        error: status_error_kind(status),
        latency_ms,
        set_cookie_headers,
    }
}

/// The result of a GET that got a response; `body` is `None` when reading
/// it failed.
pub fn get_result(
    status: u16,
    body: Option<Vec<u8>>,
    etag: Option<String>,
    last_modified_header: Option<&str>,
    latency_ms: u64,
    set_cookie_headers: Vec<String>,
) -> (r: GetResult)
    ensures
        r.status == Some(status),
        r.body == body,
        os(r.etag) == os(etag),
        r.last_modified == match last_modified_header {
            Some(h) => datetime_rfc2822(h@),
            None => None,
        },
        r.error == status_kind(status),
        r.latency_ms == latency_ms,
        r.set_cookie_headers@ == set_cookie_headers@,
{
    GetResult {
        status: Some(status),
        body,
        etag,
        last_modified: parse_last_modified(last_modified_header),
        error: status_error_kind(status),
        latency_ms,
        set_cookie_headers,
    }
}

/// The result of a HEAD that got no response.
pub fn head_failure(is_timeout: bool, is_connect: bool, latency_ms: u64) -> (r: HeadResult)
    ensures
        r.status is None && r.etag is None && r.last_modified is None,
        r.error == Some(
            if is_timeout {
                ErrorKind::Timeout
            } else if is_connect {
                ErrorKind::ConnectionFailure
            } else {
                ErrorKind::Unexpected
            },
        ),
        r.latency_ms == latency_ms,
        r.set_cookie_headers@.len() == 0,
{
    HeadResult {
        status: None,
        etag: None,
        last_modified: None,
        error: Some(classify_error(is_timeout, is_connect)),
        latency_ms,
        set_cookie_headers: Vec::new(),
    }
}

/// The result of a GET that got no response.
pub fn get_failure(is_timeout: bool, is_connect: bool, latency_ms: u64) -> (r: GetResult)
    ensures
        r.status is None && r.body is None && r.etag is None && r.last_modified is None,
        r.error == Some(
            if is_timeout {
                ErrorKind::Timeout
            } else if is_connect {
                ErrorKind::ConnectionFailure
            } else {
                ErrorKind::Unexpected
            },
        ),
        r.latency_ms == latency_ms,
        r.set_cookie_headers@.len() == 0,
{
    GetResult {
        status: None,
        body: None,
        etag: None,
        last_modified: None,
        error: Some(classify_error(is_timeout, is_connect)),
        latency_ms,
        set_cookie_headers: Vec::new(),
    }
}

} // verus!
