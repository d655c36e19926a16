//! Password hashing through the key-derivation crate.
//!
//! A stored credential is the salted, iterated PBKDF2 string that
//! `pbkdf2::pbkdf2_simple` produces.  The salt is drawn from the
//! system's randomness, so two hashes of one password differ; all the
//! library ever states about a stored credential is whether a given
//! password verifies against it, written `hash_matches`.

use vstd::prelude::*;

verus! {

/// Whether `pbkdf2::pbkdf2_check(password, hashed)` accepts: true
/// exactly when `hashed` is a well-formed PBKDF2 string whose digest
/// is reproduced by `password`.  The check reads only its two
/// arguments, so this is a pure function of them.
pub uninterp spec fn hash_matches(password: Seq<char>, hashed: Seq<char>) -> bool;

/// Relies on pbkdf2::pbkdf2_simple: it derives a salted PBKDF2 string
/// from the password, and pbkdf2::pbkdf2_check accepts that same
/// password against the returned string.  `None` is the case where the
/// system randomness source could not be opened or read.
#[verifier::external_body]
pub(crate) fn hash_password(password: &str, iterations: u32) -> (r: Option<String>)
    ensures
        r matches Some(h) ==> hash_matches(password@, h@),
{
    pbkdf2::pbkdf2_simple(password, iterations).ok()
}

/// Relies on pbkdf2::pbkdf2_check: it recomputes the digest of
/// `password` with the salt and iteration count carried in `hashed`
/// and compares in constant time, accepting exactly when they agree.
#[verifier::external_body]
pub(crate) fn check_password(password: &str, hashed: &str) -> (r: bool)
    ensures
        r == hash_matches(password@, hashed@),
{
    pbkdf2::pbkdf2_check(password, hashed).is_ok()
}

} // verus!
