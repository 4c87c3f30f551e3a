//! Salted adaptive password hashes.

use vstd::prelude::*;

verus! {

/// What bcrypt's `verify` answers for `password` against the stored
/// `hash`: `None` where the hash cannot be read, else whether they match.
pub uninterp spec fn bcrypt_verdict(password: Seq<char>, hash: Seq<char>) -> Option<bool>;

/// Relies on `bcrypt::verify`, whose answer depends on the two strings alone.
#[verifier::external_body]
pub(crate) fn check_password(password: &str, hash: &str) -> (r: Option<bool>)
    ensures
        r == bcrypt_verdict(password@, hash@),
{
    bcrypt::verify(password, hash).ok()
}

/// Relies on `bcrypt::hash` at `bcrypt::DEFAULT_COST`, which draws a fresh
/// random salt: it fails only where the system gives no random bytes, and
/// `bcrypt::verify` accepts the password against the hash that it makes.
#[verifier::external_body]
pub(crate) fn hash_password(password: &str) -> (r: Option<String>)
    ensures
        r matches Some(h) ==> bcrypt_verdict(password@, h@) == Some(true),
{
    bcrypt::hash(password, bcrypt::DEFAULT_COST).ok()
}

} // verus!
