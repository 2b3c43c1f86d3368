//! Password hashes.

use vstd::prelude::*;

verus! {

/// Whether `bcrypt` accepts `password` for `hash`: the hash is well formed and
/// is the one that its own cost and salt give for the password.
pub uninterp spec fn password_matches(password: Seq<char>, hash: Seq<char>) -> bool;

/// A fresh hash of `password`, or nothing where hashing failed.
pub fn hash_password(password: &str) -> (hash: Option<String>)
    ensures
        hash matches Some(h) ==> password_matches(password@, h@),
{
    bcrypt_hash(password)
}

/// Whether `password` is the one that `hash` was made from.
pub fn verify_password(password: &str, hash: &str) -> (ok: bool)
    ensures
        ok == password_matches(password@, hash@),
{
    bcrypt_verify(password, hash)
}

/// `bcrypt::hash` at `bcrypt::DEFAULT_COST`. The salt is random, so the hash is
/// not determined; whatever it is, `bcrypt::verify` accepts the password for it.
#[verifier::external_body]
fn bcrypt_hash(password: &str) -> (hash: Option<String>)
    ensures
        hash matches Some(h) ==> password_matches(password@, h@),
{
    bcrypt::hash(password, bcrypt::DEFAULT_COST).ok()
}

/// `bcrypt::verify`, with a malformed hash counted as no match. The result
/// depends on the two texts alone; `password_matches` names it.
#[verifier::external_body]
fn bcrypt_verify(password: &str, hash: &str) -> (ok: bool)
    ensures
        ok == password_matches(password@, hash@),
{
    matches!(bcrypt::verify(password, hash), Ok(true))
}

} // verus!
