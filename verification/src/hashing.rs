//! Secret hasher: one-way password hashing and verification with Argon2,
//! using a fresh random salt for every hash.

use vstd::prelude::*;

use crate::errors::AuthError;

verus! {

/// Names the result of password-hash verification: whether `encoded` is a
/// well-formed PHC string whose digest matches `password` under the
/// parameters and salt embedded in `encoded`. Re-derivation is deterministic,
/// so this depends on the two strings alone.
pub uninterp spec fn argon_matches(password: Seq<char>, encoded: Seq<char>) -> bool;

/// Relies on `SaltString::generate(&mut OsRng)` for a fresh random salt and
/// on `Argon2::default().hash_password` (password-hash's `PasswordHasher`):
/// on success the returned PHC string embeds algorithm, parameters, salt and
/// digest, and `verify_password` re-derives with exactly those embedded
/// parameters and compares digests, so the encoding matches its own password.
#[verifier::external_body]
fn argon2_hash(password: &str) -> (r: Option<String>)
    ensures
        r matches Some(enc) ==> argon_matches(password@, enc@),
{
    let salt = argon2::password_hash::SaltString::generate(
        &mut argon2::password_hash::rand_core::OsRng,
    );
    match argon2::PasswordHasher::hash_password(
        &argon2::Argon2::default(),
        password.as_bytes(),
        &salt,
    ) {
        Ok(h) => Some(h.to_string()),
        Err(_) => None,
    }
}

/// Relies on `PasswordHash::new` and `Argon2::default().verify_password`
/// (password-hash's `PasswordVerifier`): returns true exactly when `encoded`
/// parses as a PHC string and the digest re-derived from `password` with the
/// embedded parameters and salt equals the embedded digest.
#[verifier::external_body]
fn argon2_verify(password: &str, encoded: &str) -> (r: bool)
    ensures
        r == argon_matches(password@, encoded@),
{
    match argon2::password_hash::PasswordHash::new(encoded) {
        Ok(parsed) => argon2::PasswordVerifier::verify_password(
            &argon2::Argon2::default(),
            password.as_bytes(),
            &parsed,
        ).is_ok(),
        Err(_) => false,
    }
}

/// What `match_hash` returns: a malformed encoding and a genuine mismatch
/// both collapse into `InvalidCredentials`, so a caller cannot tell which
/// failure occurred.
pub open spec fn verify_outcome(password: Seq<char>, encoded: Seq<char>) -> Result<(), AuthError> {
    if argon_matches(password, encoded) {
        Ok(())
    } else {
        Err(AuthError::InvalidCredentials)
    }
}

/// Hashes `passwd` with a fresh random salt into a self-describing encoded
/// string. Fails only on a catastrophic hashing failure, surfaced as an
/// internal error.
pub fn get_hash(passwd: &str) -> (r: Result<String, AuthError>)
    ensures
        r matches Ok(enc) ==> argon_matches(passwd@, enc@),
        r is Err ==> r == Err::<String, AuthError>(AuthError::InternalError),
{
    match argon2_hash(passwd) {
        Some(h) => Ok(h),
        None => Err(AuthError::InternalError),
    }
}

/// Verifies `passwd` against a stored encoded hash: succeeds exactly when
/// the encoding matches the password.
pub fn match_hash(passwd: &str, saved_pass: &str) -> (r: Result<(), AuthError>)
    ensures
        r == verify_outcome(passwd@, saved_pass@),
{
    if argon2_verify(passwd, saved_pass) {
        Ok(())
    } else {
        Err(AuthError::InvalidCredentials)
    }
}

/// Law: any encoding produced for a password verifies against that password,
/// and a password that does not match is rejected as `InvalidCredentials` —
/// `get_hash` guarantees `argon_matches` of its output, and `match_hash`
/// succeeds exactly on `argon_matches`.
pub proof fn lemma_hash_verify_roundtrip(p: Seq<char>, enc: Seq<char>)
    ensures
        argon_matches(p, enc) ==> verify_outcome(p, enc) == Ok::<(), AuthError>(()),
        !argon_matches(p, enc) ==> verify_outcome(p, enc) == Err::<(), AuthError>(
            AuthError::InvalidCredentials,
        ),
{
}

} // verus!
