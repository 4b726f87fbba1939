//! Password hashing and verification.

use vstd::prelude::*;

verus! {

/// Whether bcrypt::verify accepts `password` against the salted `hash`.
/// Deterministic in the two strings: the salt and cost are read out of the
/// hash itself.
pub uninterp spec fn password_matches(password: Seq<char>, hash: Seq<char>) -> bool;

/// Relies on bcrypt::hash with the default cost: a fresh salted hash, which
/// bcrypt::verify accepts against the password it was made from.
#[verifier::external_body]
pub(crate) fn hash_password(password: &str) -> (r: Option<String>)
    ensures
        r matches Some(h) ==> password_matches(password@, h@),
{
    match bcrypt::hash(password, bcrypt::DEFAULT_COST) {
        Ok(h) => Some(h),
        Err(_) => None,
    }
}

/// Relies on bcrypt::verify, deterministic in the password and the hash; a
/// verification error (a malformed hash) counts as no match, which is how
/// `password_matches` is read.
#[verifier::external_body]
pub(crate) fn verify_password(password: &str, hash: &str) -> (r: bool)
    ensures
        r == password_matches(password@, hash@),
{
    bcrypt::verify(password, hash).unwrap_or(false)
}

} // verus!
