//! The credential verifier: a salted, slow hash comparison delegated to the
//! `bcrypt` crate. No custom crypto lives here; the two wrappers below are
//! the only trusted boundary of this module.

use vstd::prelude::*;

verus! {

/// Whether a plaintext password matches a bcrypt hash string. `bcrypt::verify`
/// computes this from its two arguments alone, so the relation gets a name
/// rather than a transcription of the algorithm.
pub uninterp spec fn password_matches(password: Seq<char>, hashed: Seq<char>) -> bool;

/// Relies on `bcrypt::verify`: the outcome is a pure function of the password
/// and the hash string; a malformed hash string matches no password (the
/// crate reports it as an error, folded to `false` here).
#[verifier::external_body]
pub fn verify_password(password: &str, hashed: &str) -> (r: bool)
    ensures
        r == password_matches(password@, hashed@),
{
    bcrypt::verify(password, hashed).unwrap_or(false)
}

/// Relies on `bcrypt::hash` with the crate's default cost (a fixed, safe work
/// factor): it salts randomly, so the hash string itself gets no name, but
/// every hash it produces verifies against the hashed password — `verify`
/// re-derives the hash from the salt and cost carried inside the string.
#[verifier::external_body]
pub fn hash_password(password: &str) -> (r: Option<String>)
    ensures
        r matches Some(h) ==> password_matches(password@, h@),
{
    bcrypt::hash(password, bcrypt::DEFAULT_COST).ok()
}

} // verus!
