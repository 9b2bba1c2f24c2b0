use vstd::prelude::*;
use crate::errors::ApiError;

verus! {

/// The error type of the bcrypt crate, carried through opaquely.
#[verifier::external_type_specification]
#[verifier::external_body]
pub struct ExBcryptError(bcrypt::BcryptError);

/// What `bcrypt::verify` computes for a candidate password and a stored hash
/// string: `None` when the stored hash is malformed (and verification
/// errors), otherwise `Some` of whether the password matches.  The salt and
/// the cost are both embedded in the hash string, so this is a function of
/// the two arguments alone.
pub uninterp spec fn bcrypt_check(password: Seq<char>, hashed: Seq<char>) -> Option<bool>;

/// Whether `password` matches the bcrypt hash `hashed`.
pub open spec fn bcrypt_matches(password: Seq<char>, hashed: Seq<char>) -> bool {
    bcrypt_check(password, hashed) == Some(true)
}

/// The bytes bcrypt actually hashes for a given password: the UTF-8 bytes
/// followed by one terminating zero byte, the whole kept to at most 72 bytes.
/// Passwords with the same such prefix are indistinguishable to bcrypt.
pub open spec fn bcrypt_input(password: Seq<char>) -> Seq<u8> {
    let bytes = vstd::utf8::encode_utf8(password);
    if bytes.len() >= 72 {
        bytes.take(72)
    } else {
        bytes.push(0)
    }
}

/// Relies on bcrypt::hash with bcrypt::DEFAULT_COST: on success the returned
/// hash string is well formed and matches exactly the passwords whose hashed
/// bytes (see `bcrypt_input`) equal those of the given password; hashing
/// fails only when the system's randomness source fails while drawing the
/// salt, never because of the input.
#[verifier::external_body]
fn bcrypt_hash(password: &str) -> (r: Result<String, bcrypt::BcryptError>)
    ensures
        (r matches Ok(h) ==> bcrypt_check(password@, h@) == Some(true)),
        (r matches Ok(h) ==> forall|other: Seq<char>|
            bcrypt_input(other) != bcrypt_input(password@)
                ==> bcrypt_check(other, h@) == Some(false)),
{
    bcrypt::hash(password, bcrypt::DEFAULT_COST)
}

/// Relies on bcrypt::verify: re-hashes the password with the salt and cost
/// stored in the hash string and compares, erring exactly when the hash
/// string is malformed.
#[verifier::external_body]
fn bcrypt_verify(password: &str, hashed: &str) -> (r: Result<bool, bcrypt::BcryptError>)
    ensures
        (r matches Ok(b) ==> bcrypt_check(password@, hashed@) == Some(b)),
        (r is Err ==> bcrypt_check(password@, hashed@) is None),
{
    bcrypt::verify(password, hashed)
}

/// Hashes a password with a slow, salted one-way scheme.  Fails only on an
/// internal fault (the randomness source), never because of the input.
pub fn hash_password(password: &str) -> (r: Result<String, ApiError>)
    ensures
        (r matches Ok(h) ==> bcrypt_matches(password@, h@)),
        (r matches Ok(h) ==> forall|other: Seq<char>|
            bcrypt_input(other) != bcrypt_input(password@)
                ==> bcrypt_check(other, h@) == Some(false)),
        (r matches Err(e) ==> e == ApiError::Internal),
{
    match bcrypt_hash(password) {
        Ok(h) => Ok(h),
        Err(_) => Err(ApiError::Internal),
    }
}

/// Checks a password against a stored hash.  A mismatch is a normal
/// `Ok(false)` answer; only a malformed stored hash is an error.
pub fn verify_password(password: &str, hashed: &str) -> (r: Result<bool, ApiError>)
    ensures
        (r matches Ok(b) ==> bcrypt_check(password@, hashed@) == Some(b)),
        (r is Err <==> bcrypt_check(password@, hashed@) is None),
        (r matches Err(e) ==> e == ApiError::Internal),
{
    match bcrypt_verify(password, hashed) {
        Ok(b) => Ok(b),
        Err(_) => Err(ApiError::Internal),
    }
}

} // verus!
