//! API errors: an HTTP status, a short code and a message.

use vstd::prelude::*;

use crate::config::error::os;
use crate::text::{chars_of, string_of};

verus! {

/// The reason phrase of an HTTP status (`StatusCode::canonical_reason`).
pub uninterp spec fn http_reason(status: u16) -> Option<Seq<char>>;

/// Calls `StatusCode::from_u16` and `canonical_reason`.
#[verifier::external_body]
fn canonical_reason(status: u16) -> (r: Option<String>)
    ensures
        os(r) == http_reason(status),
{
    axum::http::StatusCode::from_u16(status).ok().and_then(|s| s.canonical_reason()).map(|s| s.to_string())
}

/// The code of a status: a fixed word for the statuses the API uses, else
/// the status's reason phrase, else `error`.
pub open spec fn status_code_text(status: u16) -> Seq<char> {
    if status == 400 {
        "bad_request"@
    } else if status == 401 {
        "unauthorized"@
    } else if status == 403 {
        "forbidden"@
    } else if status == 404 {
        "not_found"@
    } else if status == 409 {
        "conflict"@
    } else if status == 500 {
        "internal_error"@
    } else {
        match http_reason(status) {
            Some(r) => r,
            None => "error"@,
        }
    }
}

pub fn status_code_to_string(status: u16) -> (r: String)
    ensures
        r@ == status_code_text(status),
{
    let s = if status == 400 {
        "bad_request"
    } else if status == 401 {
        "unauthorized"
    } else if status == 403 {
        "forbidden"
    } else if status == 404 {
        "not_found"
    } else if status == 409 {
        "conflict"
    } else if status == 500 {
        "internal_error"
    } else {
        return match canonical_reason(status) {
            Some(r) => r,
            None => string_of(&chars_of("error")),
        };
    };
    string_of(&chars_of(s))
}

/// An API error.
#[derive(Debug)]
pub struct ServerError {
    status: u16,
    code: String,
    message: String,
}

impl ServerError {
    pub closed spec fn status_spec(&self) -> u16 {
        self.status
    }

    /// The code is always the code of the status.
    #[verifier::type_invariant]
    closed spec fn code_matches(&self) -> bool {
        self.code@ == status_code_text(self.status)
    }

    pub open spec fn code_spec(&self) -> Seq<char> {
        status_code_text(self.status_spec())
    }

    pub closed spec fn message_spec(&self) -> Seq<char> {
        self.message@
    }

    /// An error with `status`, the code of that status, and `message`.
    pub fn new(status: u16, message: &str) -> (e: Self)
        ensures
            e.status_spec() == status,
            e.code_spec() == status_code_text(status),
            e.message_spec() == message@,
    {
        ServerError { status, code: status_code_to_string(status), message: string_of(&chars_of(message)) }
    }

    pub fn status(&self) -> (r: u16)
        ensures
            r == self.status_spec(),
    {
        self.status
    }

    pub fn code(&self) -> (r: String)
        ensures
            r@ == self.code_spec(),
    {
        proof {
            use_type_invariant(self);
        }
        self.code.clone()
    }

    pub fn message(&self) -> (r: String)
        ensures
            r@ == self.message_spec(),
    {
        self.message.clone()
    }
}

/// What the service reads of a database error.
#[derive(Debug)]
pub struct DbErrorInfo {
    /// The error came from the database itself.
    pub database: bool,
    /// The database's error code, when it gave one.
    pub code: Option<String>,
    /// The error's message.
    pub text: String,
}

/// A database error whose code is `code`.
pub open spec fn has_db_code(err: DbErrorInfo, code: Seq<char>) -> bool {
    err.database && os(err.code) == Some(code)
}

fn code_is(err: &DbErrorInfo, code: &str) -> (r: bool)
    ensures
        r == has_db_code(*err, code@),
{
    if !err.database {
        return false;
    }
    match &err.code {
        Some(c) => crate::entries::name_eq(c.as_str(), code),
        None => false,
    }
}

/// A unique-constraint violation (Postgres `23505`, SQLite `2067`).
pub fn is_unique_violation(err: &DbErrorInfo) -> (r: bool)
    ensures
        r == (has_db_code(*err, "23505"@) || has_db_code(*err, "2067"@)),
{
    code_is(err, "23505") || code_is(err, "2067")
}

/// A unique violation becomes a conflict carrying `message`; any other
/// database error an internal error carrying the error's own text.
pub fn map_db_error(err: DbErrorInfo, message: &str) -> (e: ServerError)
    ensures
        (has_db_code(err, "23505"@) || has_db_code(err, "2067"@)) ==> e.status_spec() == 409
            && e.message_spec() == message@,
        !(has_db_code(err, "23505"@) || has_db_code(err, "2067"@)) ==> e.status_spec() == 500
            && e.message_spec() == err.text@,
{
    if is_unique_violation(&err) {
        return ServerError::new(409, message);
    }
    ServerError::new(500, err.text.as_str())
}

} // verus!
