//! Password hashing with bcrypt.
use vstd::prelude::*;
use vstd::utf8::is_ascii_chars;

verus! {

/// What `bcrypt::verify(password, hash)` answers: `Some(true)` when the password
/// matches the hash, `Some(false)` when it does not, `None` when the call fails
/// (the hash cannot be read).
pub uninterp spec fn bcrypt_verify_outcome(password: Seq<char>, hash: Seq<char>) -> Option<bool>;

/// `bcrypt::verify`. Its answer is named, not restated: the bcrypt computation is
/// left unsaid. The contract adds what the crate's source shows of its input check:
/// a hash that is not exactly 60 ASCII characters is refused with an error.
#[verifier::external_body]
pub(crate) fn verify_password(password: &str, hash: &str) -> (r: Option<bool>)
    ensures
        r == bcrypt_verify_outcome(password@, hash@),
        !(hash@.len() == 60 && is_ascii_chars(hash@)) ==> r is None,
{
    bcrypt::verify(password, hash).ok()
}

/// `bcrypt::hash(password, bcrypt::DEFAULT_COST)`. The salt is random, so no value is
/// promised, and the call may fail (when no randomness can be had). What the
/// crate's source shows of every successful result is stated: it is 60 ASCII
/// characters in the `$2b$` format with cost 12, and `bcrypt::verify` accepts the
/// same password against it.
#[verifier::external_body]
pub(crate) fn hash_password(password: &str) -> (r: Option<String>)
    ensures
        r matches Some(h) ==> {
            &&& h@.len() == 60
            &&& is_ascii_chars(h@)
            &&& h@.take(7) == "$2b$12$"@
            &&& bcrypt_verify_outcome(password@, h@) == Some(true)
        },
{
    bcrypt::hash(password, bcrypt::DEFAULT_COST).ok()
}

} // verus!
