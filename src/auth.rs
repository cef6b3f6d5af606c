//! Password hashing and the login decision.
use vstd::prelude::*;

use argon2::password_hash::rand_core::OsRng;
use argon2::password_hash::{PasswordHash, PasswordHasher, PasswordVerifier, SaltString};
use argon2::Argon2;

use crate::error::ServiceError;

verus! {

/// Whether Argon2 (default parameters) accepts `password` against the
/// stored PHC string `phc`.
pub uninterp spec fn argon2_accepts(password: Seq<char>, phc: Seq<char>) -> bool;

/// Relies on `PasswordHash::new` and Argon2's `verify_password`: whether the
/// password hashes to the stored PHC string, with the salt and parameters
/// that the string holds; a string that does not parse is refused.
#[verifier::external_body]
fn argon2_verify(password: &str, phc: &str) -> (r: bool)
    ensures
        r == argon2_accepts(password@, phc@),
{
    match PasswordHash::new(phc) {
        Ok(hash) => Argon2::default().verify_password(password.as_bytes(), &hash).is_ok(),
        Err(_) => false,
    }
}

/// The longest password, in characters, that is hashed: at four bytes a
/// character at most, it stays within Argon2's limit of `2^32 - 1` bytes.
pub const MAX_PASSWORD_CHARS: usize = 0x3FFF_FFFF;

/// Relies on `SaltString::generate` with `OsRng` and Argon2's
/// `hash_password`: with the default parameters and a generated salt the
/// hash is always made, and verifying the same password against the PHC
/// string it returns succeeds.
#[verifier::external_body]
fn argon2_hash(password: &str) -> (r: Option<String>)
    requires
        password@.len() <= MAX_PASSWORD_CHARS,
    ensures
        r is Some,
        r is Some ==> argon2_accepts(password@, r->Some_0@),
{
    let salt = SaltString::generate(&mut OsRng);
    Argon2::default().hash_password(password.as_bytes(), &salt).ok().map(|h| h.to_string())
}

/// What the store holds of a user for logging in.
#[derive(Debug, Clone)]
pub struct UserRecord {
    pub id: i64,
    pub password_hash: String,
}

/// A user row to insert: the name and the salted password hash.
#[derive(Debug, Clone)]
pub struct NewUser {
    pub username: String,
    pub password_hash: String,
}

/// The user row to store for `username`, given the hash of the password;
/// a failed hash is a storage failure.
pub fn new_user(username: &str, password_hash: Option<String>) -> (r: Result<NewUser, ServiceError>)
    ensures
        match password_hash {
            Some(h) => r matches Ok(u) && u.username@ == username@ && u.password_hash == h,
            None => r == Err::<NewUser, ServiceError>(ServiceError::Storage),
        },
{
    match password_hash {
        Some(h) => Ok(NewUser { username: username.to_owned(), password_hash: h }),
        None => Err(ServiceError::Storage),
    }
}

/// Hashes `password` with a fresh salt and makes the user row for
/// `username`; the clear password is not kept.  A password longer than
/// `MAX_PASSWORD_CHARS` characters is refused.
pub fn register_user(username: &str, password: &str) -> (r: Result<NewUser, ServiceError>)
    ensures
        password@.len() <= MAX_PASSWORD_CHARS ==> (r matches Ok(u) && u.username@ == username@
            && argon2_accepts(password@, u.password_hash@)),
        password@.len() > MAX_PASSWORD_CHARS ==> r == Err::<NewUser, ServiceError>(
            ServiceError::PasswordTooLong,
        ),
{
    if password.unicode_len() > MAX_PASSWORD_CHARS {
        return Err(ServiceError::PasswordTooLong);
    }
    new_user(username, argon2_hash(password))
}

/// The login result: the user's id when the user exists and the password
/// was accepted; otherwise one error that does not tell which failed.
pub open spec fn login_result(id: Option<i64>, accepted: bool) -> Result<i64, ServiceError> {
    match id {
        Some(i) => if accepted {
            Ok(i)
        } else {
            Err(ServiceError::InvalidCredentials)
        },
        None => Err(ServiceError::InvalidCredentials),
    }
}

pub open spec fn record_id(record: Option<UserRecord>) -> Option<i64> {
    match record {
        Some(u) => Some(u.id),
        None => None,
    }
}

/// Decides a login from the stored record of the username, if any, and
/// whether the password was accepted against it.
pub fn login_outcome(record: &Option<UserRecord>, accepted: bool) -> (r: Result<i64, ServiceError>)
    ensures
        r == login_result(record_id(*record), accepted),
{
    match record {
        Some(u) => if accepted {
            Ok(u.id)
        } else {
            Err(ServiceError::InvalidCredentials)
        },
        None => Err(ServiceError::InvalidCredentials),
    }
}

/// Checks `password` against the stored record of the username.
pub fn login_user(record: &Option<UserRecord>, password: &str) -> (r: Result<i64, ServiceError>)
    ensures
        r == login_result(
            record_id(*record),
            record matches Some(u) && argon2_accepts(password@, u.password_hash@),
        ),
{
    let accepted = match record {
        Some(u) => argon2_verify(password, u.password_hash.as_str()),
        None => false,
    };
    login_outcome(record, accepted)
}

/// A user registered with a password logs in with that password: the
/// stored hash accepts it, so the login yields the user's id.
pub proof fn lemma_login_after_register(id: i64, password: Seq<char>, stored: Seq<char>)
    requires
        argon2_accepts(password, stored),
    ensures
        login_result(Some(id), argon2_accepts(password, stored)) == Ok::<i64, ServiceError>(id),
{
}

} // verus!
