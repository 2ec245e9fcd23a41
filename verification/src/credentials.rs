use argon2::PasswordHasher;
use argon2::PasswordVerifier;
use vstd::prelude::*;

verus! {

/// Whether a password verifies against a password digest. The verifier
/// recomputes the hash from the salt and parameters carried inside the
/// digest text, so the outcome is a function of the two texts alone; a text
/// that is not a well-formed digest verifies nothing.
pub uninterp spec fn spec_password_verifies(password: Seq<char>, digest: Seq<char>) -> bool;

/// Relies on argon2's `PasswordHasher::hash_password` with a salt drawn
/// from the operating system's randomness: hashing may fail, and every
/// digest it does produce verifies against the password it was computed
/// from (`PasswordVerifier::verify_password` recomputes with the salt and
/// parameters the digest carries).
#[verifier::external_body]
pub fn hash_password(password: &str) -> (r: Option<String>)
    ensures
        (r matches Some(d) ==> spec_password_verifies(password@, d@)),
{
    let salt = argon2::password_hash::SaltString::generate(&mut rand_core::OsRng);
    match argon2::Argon2::default().hash_password(password.as_bytes(), &salt) {
        Ok(h) => Some(h.to_string()),
        Err(_) => None,
    }
}

/// Relies on argon2's `PasswordHash::new` and
/// `PasswordVerifier::verify_password`: the outcome depends on the password
/// and the digest text alone.
#[verifier::external_body]
pub fn verify_password(password: &str, digest: &str) -> (r: bool)
    ensures
        r == spec_password_verifies(password@, digest@),
{
    match argon2::password_hash::PasswordHash::new(digest) {
        Ok(h) => argon2::Argon2::default().verify_password(password.as_bytes(), &h).is_ok(),
        Err(_) => false,
    }
}

} // verus!
