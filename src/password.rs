use vstd::prelude::*;
use argon2::password_hash::rand_core::{OsRng, RngCore};
use argon2::password_hash::SaltString;
use argon2::{Argon2, PasswordHash, PasswordHasher, PasswordVerifier};
use crate::error::ApiError;

verus! {

/// What Argon2 answers when asked whether `password` matches the PHC string
/// `hash`: `Some(true)` on a match, `Some(false)` on a mismatch, `None` when
/// `hash` cannot be used at all. The answer depends on the two texts alone:
/// the algorithm variant, its parameters and the salt are all read from
/// `hash`, and no secret key is involved.
pub uninterp spec fn argon2_verdict(hash: Seq<char>, password: Seq<char>) -> Option<bool>;

/// Relies on `OsRng::try_fill_bytes` for 16 salt bytes (the recommended salt
/// length), `SaltString::encode_b64`, `argon2::Argon2::hash_password` and
/// `PasswordHash::to_string`: the PHC string returned embeds algorithm,
/// parameters and salt, so verifying the same password against it recomputes
/// the same digest. A failing random source gives `None`, not a panic.
#[verifier::external_body]
fn argon2_hash(password: &str) -> (r: Option<String>)
    ensures
        r matches Some(h) ==> argon2_verdict(h@, password@) == Some(true),
{
    let mut bytes = [0u8; 16];
    match OsRng.try_fill_bytes(&mut bytes) {
        Err(_) => None,
        Ok(()) => {
            let salt = SaltString::encode_b64(&bytes).ok()?;
            Argon2::default().hash_password(password.as_bytes(), &salt).ok().map(|h| h.to_string())
        },
    }
}

/// Relies on `argon2::PasswordHash::new` and `Argon2::verify_password`:
/// `Err(Error::Password)` is a mismatch, any other error an unusable hash.
#[verifier::external_body]
fn argon2_verify(hash: &str, password: &str) -> (r: Option<bool>)
    ensures
        r == argon2_verdict(hash@, password@),
{
    match PasswordHash::new(hash) {
        Err(_) => None,
        Ok(parsed) => match Argon2::default().verify_password(password.as_bytes(), &parsed) {
            Ok(()) => Some(true),
            Err(argon2::password_hash::Error::Password) => Some(false),
            Err(_) => None,
        },
    }
}

/// What checking a password comes to, given the hasher's verdict.
pub open spec fn verdict_result(v: Option<bool>) -> Result<(), ApiError> {
    match v {
        Some(true) => Ok(()),
        Some(false) => Err(ApiError::Unauthorized),
        None => Err(ApiError::InternalServerError),
    }
}

/// Maps the hasher's verdict onto the error taxonomy: a mismatch is
/// `Unauthorized`, an unusable stored hash is `InternalServerError`.
pub fn check_verdict(v: Option<bool>) -> (r: Result<(), ApiError>)
    ensures
        r == verdict_result(v),
{
    match v {
        Some(true) => Ok(()),
        Some(false) => Err(ApiError::Unauthorized),
        None => Err(ApiError::InternalServerError),
    }
}

/// Derives a salted Argon2id hash of `password` with a fresh random salt.
/// Fails with `InternalServerError` only if the hasher or the random source
/// fails; a hash
/// that it returns always verifies against `password`.
pub fn hash(password: &str) -> (r: Result<String, ApiError>)
    ensures
        r matches Ok(h) ==> argon2_verdict(h@, password@) == Some(true),
        r matches Err(e) ==> e == ApiError::InternalServerError,
{
    match argon2_hash(password) {
        Some(h) => Ok(h),
        None => Err(ApiError::InternalServerError),
    }
}

/// Checks `password` against the stored `hash`: `Ok` on a match,
/// `Unauthorized` on a mismatch, `InternalServerError` for a malformed hash.
pub fn verify(hash: &str, password: &str) -> (r: Result<(), ApiError>)
    ensures
        r == verdict_result(argon2_verdict(hash@, password@)),
{
    check_verdict(argon2_verify(hash, password))
}

} // verus!
