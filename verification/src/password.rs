use vstd::prelude::*;
use crate::error::AuthError;

verus! {

/// The error type of the `bcrypt` crate, carried through and never read.
#[verifier::external_type_specification]
#[verifier::external_body]
pub struct ExBcryptError(bcrypt::BcryptError);

/// What `bcrypt::verify` returns for a password and a stored hash: the
/// verdict it reaches, or `None` where it reports an error (a hash it cannot
/// read). It depends on the two strings alone.
pub uninterp spec fn bcrypt_verdict(password: Seq<char>, hash: Seq<char>) -> Option<bool>;

/// Whether `password` is the one that `hash` was made from. A hash that
/// cannot be read matches nothing.
pub open spec fn password_matches(password: Seq<char>, hash: Seq<char>) -> bool {
    bcrypt_verdict(password, hash) == Some(true)
}

/// Calls `bcrypt::verify`. The contract only names the result.
#[verifier::external_body]
fn bcrypt_verify(password: &str, hash: &str) -> (r: Result<bool, bcrypt::BcryptError>)
    ensures
        match r {
            Ok(b) => bcrypt_verdict(password@, hash@) == Some(b),
            Err(_) => bcrypt_verdict(password@, hash@) is None,
        },
{
    bcrypt::verify(password, hash)
}

/// Calls `bcrypt::hash` at the crate's default cost. The salt is random, so
/// the hash itself is not determined; the contract claims only that a hash
/// which was handed out verifies against the password it was made from
/// (`bcrypt::verify` recomputes it with the cost and salt it reads back).
#[verifier::external_body]
fn bcrypt_hash(password: &str) -> (r: Result<String, bcrypt::BcryptError>)
    ensures
        r matches Ok(h) ==> bcrypt_verdict(password@, h@) == Some(true),
{
    bcrypt::hash(password, bcrypt::DEFAULT_COST)
}

/// Checks a password against a stored hash. A wrong password and a
/// malformed hash both give `false`; neither is an error.
pub fn verify_password(password: &str, hash: &str) -> (ok: bool)
    ensures
        ok == password_matches(password@, hash@),
{
    match bcrypt_verify(password, hash) {
        Ok(b) => b,
        Err(_) => false,
    }
}

/// Hashes a password for storage, with a fresh random salt. Every hash that
/// is returned matches the password; where the hasher fails the error is
/// `Internal`.
pub fn hash_password(password: &str) -> (r: Result<String, AuthError>)
    ensures
        match r {
            Ok(h) => password_matches(password@, h@),
            Err(e) => e == AuthError::Internal,
        },
{
    match bcrypt_hash(password) {
        Ok(h) => Ok(h),
        Err(_) => Err(AuthError::Internal),
    }
}

} // verus!
