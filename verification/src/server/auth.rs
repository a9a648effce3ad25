//! Authentication helpers: bearer tokens, token hashing and generation,
//! password hashing and checking.

use vstd::prelude::*;
use vstd::string::StringSliceAdditionalSpecFns;

use super::errors::ServerError;
use crate::hashing::{hex_lower, sha256};
use crate::text::{chars_of, slice_of, seq_eq, string_of, trim, trim_vec};

verus! {

#[verifier::external_type_specification]
#[verifier::external_body]
pub struct ExSaltString(argon2::password_hash::SaltString);

/// `hash` (a PHC string) verifies `password` under Argon2
/// (`PasswordHash::new` then `Argon2::verify_password`).
pub uninterp spec fn password_verifies(hash: Seq<char>, password: Seq<u8>) -> bool;

/// The token of an `Authorization` header: what follows `Bearer `,
/// trimmed.
pub open spec fn bearer_of(header: Option<Seq<char>>) -> Seq<char> {
    let v = match header {
        Some(h) => h,
        None => Seq::empty(),
    };
    let p = "Bearer "@;
    if v.len() >= p.len() && v.subrange(0, p.len() as int) == p {
        trim(v.subrange(p.len() as int, v.len() as int))
    } else {
        Seq::empty()
    }
}

/// The bearer token of the request's `Authorization` header (`None` when
/// the header is absent or not text); an empty token is refused.
pub fn bearer_token(authorization: Option<&str>) -> (r: Result<String, ServerError>)
    ensures
        bearer_of(crate::cookies::opt_view(authorization)).len() == 0 ==> (r matches Err(e)
            && e.status_spec() == 401 && e.message_spec() == "missing bearer token"@),
        bearer_of(crate::cookies::opt_view(authorization)).len() > 0 ==> (r matches Ok(t)
            && t@ == bearer_of(crate::cookies::opt_view(authorization))),
{
    let v = match authorization {
        Some(h) => chars_of(h),
        None => Vec::new(),
    };
    let p = chars_of("Bearer ");
    let rest = if v.len() >= p.len() && seq_eq(&slice_of(&v, 0, p.len()), &p) {
        slice_of(&v, p.len(), v.len())
    } else {
        Vec::new()
    };
    let t = trim_vec(&rest);
    proof {
        assert(rest@.len() == 0 ==> trim(rest@) =~= rest@);
    }
    if t.len() == 0 {
        return Err(ServerError::new(401, "missing bearer token"));
    }
    Ok(string_of(&t))
}

/// The SHA-256 of the token's UTF-8 bytes, in lower-case hex.
pub fn hash_token(token: &str) -> (r: String)
    ensures
        r@ == hex_lower(sha256(token.spec_bytes())),
{
    crate::hashing::sha256_hex(token.as_bytes())
}

/// Fills 32 bytes from the operating system's generator
/// (`OsRng::fill_bytes`); nothing is known of them but their number.
#[verifier::external_body]
fn random_bytes_32() -> (r: Vec<u8>)
    ensures
        r.len() == 32,
{
    let mut bytes = [0u8; 32];
    argon2::password_hash::rand_core::RngCore::fill_bytes(&mut argon2::password_hash::rand_core::OsRng, &mut bytes);
    bytes.to_vec()
}

/// A fresh token: 32 random bytes in lower-case hex.
pub fn generate_token() -> (r: String)
    ensures
        exists|b: Seq<u8>| b.len() == 32 && r@ == hex_lower(b),
{
    let b = random_bytes_32();
    let r = crate::hashing::hex_encode(b.as_slice());
    assert(b@.len() == 32 && r@ == hex_lower(b@));
    r
}

/// Generates a salt from the operating system's generator
/// (`SaltString::generate` with `OsRng`).
#[verifier::external_body]
fn new_salt() -> (r: argon2::password_hash::SaltString) {
    argon2::password_hash::SaltString::generate(&mut argon2::password_hash::rand_core::OsRng)
}

/// Calls `Argon2::hash_password` with the default parameters and writes
/// the hash as a PHC string; an error's text begins with
/// `password hash error: `. A hash it makes verifies the same password
/// (`password_verifies`), as Argon2 promises.
#[verifier::external_body]
fn argon2_hash(password: &[u8], salt: &argon2::password_hash::SaltString) -> (r: Result<String, String>)
    ensures
        r matches Ok(h) ==> password_verifies(h@, password@),
        r matches Err(m) ==> "password hash error: "@.is_prefix_of(m@),
{
    argon2::PasswordHasher::hash_password(&argon2::Argon2::default(), password, salt)
        .map(|h| h.to_string())
        .map_err(|e| format!("password hash error: {e}"))
}

/// Parses the PHC string (`PasswordHash::new`) and checks the password
/// with the default Argon2 (`verify_password`); an error's text begins
/// with `password hash parse error: ` or `password verify error: `.
#[verifier::external_body]
fn argon2_verify(hash: &str, password: &[u8]) -> (r: Result<(), String>)
    ensures
        (r is Ok) == password_verifies(hash@, password@),
        r matches Err(m) ==> "password hash parse error: "@.is_prefix_of(m@)
            || "password verify error: "@.is_prefix_of(m@),
{
    let parsed = argon2::PasswordHash::new(hash).map_err(|e| format!("password hash parse error: {e}"))?;
    argon2::PasswordVerifier::verify_password(&argon2::Argon2::default(), password, &parsed)
        .map_err(|e| format!("password verify error: {e}"))
}

/// An Argon2 hash of the password's UTF-8 bytes with a fresh random salt.
pub fn hash_password(password: &str) -> (r: Result<String, String>)
    ensures
        r matches Ok(h) ==> password_verifies(h@, password.spec_bytes()),
        r matches Err(m) ==> "password hash error: "@.is_prefix_of(m@),
{
    let salt = new_salt();
    argon2_hash(password.as_bytes(), &salt)
}

/// Whether `password` matches the Argon2 hash `hash`.
pub fn verify_password(hash: &str, password: &str) -> (r: Result<(), String>)
    ensures
        (r is Ok) == password_verifies(hash@, password.spec_bytes()),
{
    argon2_verify(hash, password.as_bytes())
}

} // verus!
