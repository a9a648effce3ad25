//! The decisions of the account requests between their database calls:
//! whether a login or password change may go on, and what a missing row
//! or an untouched row answers.

use vstd::prelude::*;

use super::auth::{hash_password, password_verifies, verify_password};
use super::errors::ServerError;
use super::models::TokenResponse;
use crate::text::trim;

verus! {

/// A login with the user row found by name (id and stored hash): the user's
/// id when the password matches the hash; no row, or a mismatch, is an
/// unauthorized "invalid credentials".
pub fn login_user(found: Option<(i64, String)>, password: &str) -> (r: Result<i64, ServerError>)
    ensures
        match found {
            None => r matches Err(e) && e.status_spec() == 401 && e.message_spec() == "invalid credentials"@,
            Some((id, hash)) => if password_verifies(hash@, vstd::utf8::encode_utf8(password@)) {
                r == Ok::<i64, ServerError>(id)
            } else {
                r matches Err(e) && e.status_spec() == 401 && e.message_spec() == "invalid credentials"@
            },
        },
{
    match found {
        None => Err(ServerError::new(401, "invalid credentials")),
        Some((id, hash)) => match verify_password(hash.as_str(), password) {
            Ok(()) => Ok(id),
            Err(_) => Err(ServerError::new(401, "invalid credentials")),
        },
    }
}

/// A password change: both passwords trimmed and non-empty (else a bad
/// request), and the current one matching the stored hash (else
/// unauthorized); gives the trimmed new password to hash.
pub fn password_change(stored_hash: &str, current: &str, new_password: &str) -> (r: Result<
    String,
    ServerError,
>)
    ensures
        (trim(current@).len() == 0 || trim(new_password@).len() == 0) ==> (r matches Err(e)
            && e.status_spec() == 400 && e.message_spec() == "current_password and new_password required"@),
        (trim(current@).len() > 0 && trim(new_password@).len() > 0) ==> {
            let cur = trim(current@);
            if password_verifies(stored_hash@, vstd::utf8::encode_utf8(cur)) {
                r matches Ok(n) && n@ == trim(new_password@)
            } else {
                r matches Err(e) && e.status_spec() == 401 && e.message_spec() == "invalid credentials"@
            }
        },
{
    let cur_v = crate::text::trim_str(current);
    let new_v = crate::text::trim_str(new_password);
    if cur_v.len() == 0 || new_v.len() == 0 {
        return Err(ServerError::new(400, "current_password and new_password required"));
    }
    let cur = crate::text::string_of(&cur_v);
    match verify_password(stored_hash, cur.as_str()) {
        Ok(()) => Ok(crate::text::string_of(&new_v)),
        Err(_) => Err(ServerError::new(401, "invalid credentials")),
    }
}

/// The hash to store for a password change: the checks of
/// `password_change`, then the trimmed new password hashed; a hashing
/// error is an internal error carrying its text. A hash given back
/// verifies the trimmed new password.
pub fn password_change_hash(stored_hash: &str, current: &str, new_password: &str) -> (r: Result<
    String,
    ServerError,
>)
    ensures
        (trim(current@).len() == 0 || trim(new_password@).len() == 0) ==> (r matches Err(e)
            && e.status_spec() == 400 && e.message_spec() == "current_password and new_password required"@),
        (trim(current@).len() > 0 && trim(new_password@).len() > 0) ==> {
            if password_verifies(stored_hash@, vstd::utf8::encode_utf8(trim(current@))) {
                match r {
                    Ok(h) => password_verifies(h@, vstd::utf8::encode_utf8(trim(new_password@))),
                    Err(e) => e.status_spec() == 500 && "password hash error: "@.is_prefix_of(e.message_spec()),
                }
            } else {
                r matches Err(e) && e.status_spec() == 401 && e.message_spec() == "invalid credentials"@
            }
        },
{
    let new_plain = match password_change(stored_hash, current, new_password) {
        Ok(n) => n,
        Err(e) => return Err(e),
    };
    match hash_password(new_plain.as_str()) {
        Ok(h) => Ok(h),
        Err(m) => Err(ServerError::new(500, m.as_str())),
    }
}

/// The user of a request, from the unexpired token row found by the
/// token's hash; no such row is an unauthorized "invalid token".
pub fn token_user(found: Option<i64>) -> (r: Result<i64, ServerError>)
    ensures
        match found {
            Some(id) => r == Ok::<i64, ServerError>(id),
            None => r matches Err(e) && e.status_spec() == 401 && e.message_spec() == "invalid token"@,
        },
{
    match found {
        Some(id) => Ok(id),
        None => Err(ServerError::new(401, "invalid token")),
    }
}

/// The row a request needs, or not found with `message`.
pub fn require_row<T>(found: Option<T>, message: &str) -> (r: Result<T, ServerError>)
    ensures
        match found {
            Some(v) => r == Ok::<T, ServerError>(v),
            None => r matches Err(e) && e.status_spec() == 404 && e.message_spec() == message@,
        },
{
    match found {
        Some(v) => Ok(v),
        None => Err(ServerError::new(404, message)),
    }
}

/// A change that touched no row is not found with `message`.
pub fn require_affected(rows: u64, message: &str) -> (r: Result<(), ServerError>)
    ensures
        rows == 0 ==> (r matches Err(e) && e.status_spec() == 404 && e.message_spec() == message@),
        rows > 0 ==> r is Ok,
{
    if rows == 0 {
        return Err(ServerError::new(404, message));
    }
    Ok(())
}

/// A bearer token that expires after `ttl_seconds`.
pub fn token_response(token: String, ttl_seconds: u64) -> (r: TokenResponse)
    ensures
        r.token@ == token@,
        r.token_type@ == "bearer"@,
        r.expires_in == ttl_seconds,
{
    TokenResponse { token, token_type: "bearer".to_owned(), expires_in: ttl_seconds }
}

} // verus!
