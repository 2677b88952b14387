//! Salted, cost-parameterised password hashing.
use vstd::prelude::*;

verus! {

/// What bcrypt's check of `password` against the stored `hash` gives: whether
/// they match, or `None` where the stored hash is malformed.
pub uninterp spec fn bcrypt_check(password: Seq<char>, hash: Seq<char>) -> Option<bool>;

/// The start of every stored hash: version 2b, cost 12.
pub open spec fn bcrypt_prefix() -> Seq<char> {
    seq!['$', '2', 'b', '$', '1', '2', '$']
}

/// The shape of a hash made here: 60 characters, the version and the cost
/// first, then the 22-character salt and the 31-character digest.
pub open spec fn is_stored_hash(h: Seq<char>) -> bool {
    h.len() == 60 && h.subrange(0, 7) == bcrypt_prefix()
}

/// Relies on bcrypt::hash at bcrypt::DEFAULT_COST (12): a fresh random salt,
/// the modular-crypt text `$2b$12$` + salt + digest, and a result that
/// bcrypt::verify accepts for the same password; `None` where the system's
/// random source fails.
#[verifier::external_body]
fn bcrypt_hash(password: &str) -> (r: Option<String>)
    ensures
        r matches Some(h) ==> bcrypt_check(password@, h@) == Some(true) && is_stored_hash(h@),
{
    bcrypt::hash(password, bcrypt::DEFAULT_COST).ok()
}

/// Relies on bcrypt::verify: recomputes the hash with the salt and cost that the
/// stored hash carries and compares; its error (a malformed hash) becomes `None`.
#[verifier::external_body]
fn bcrypt_verify(password: &str, hash: &str) -> (r: Option<bool>)
    ensures
        r == bcrypt_check(password@, hash@),
{
    bcrypt::verify(password, hash).ok()
}

/// Whether `password` is the one that `hash` was made from.
pub open spec fn password_matches_spec(password: Seq<char>, hash: Seq<char>) -> bool {
    bcrypt_check(password, hash) == Some(true)
}

/// Hashes a password for storage; `None` only where the random source fails.
/// The password checks against what comes back, which carries its own salt
/// and cost.
pub fn hash_password(password: &str) -> (r: Option<String>)
    ensures
        r matches Some(h) ==> password_matches_spec(password@, h@) && is_stored_hash(h@),
{
    bcrypt_hash(password)
}

/// Checks a password against a stored hash. A malformed stored hash does not
/// match any password.
pub fn password_matches(password: &str, hash: &str) -> (r: bool)
    ensures
        r == password_matches_spec(password@, hash@),
{
    match bcrypt_verify(password, hash) {
        Some(b) => b,
        None => false,
    }
}

} // verus!
