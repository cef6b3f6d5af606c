//! The failures that a client can be told about.
use vstd::prelude::*;

use crate::text::{int_text, push_int};

verus! {

/// Why a request was refused.  Each one becomes one `ERR` line.
#[derive(Debug, Clone, Copy, PartialEq, Eq, Structural)]
pub enum ServiceError {
    /// The line is not a known command with well-formed fields.
    Malformed,
    /// The command needs a logged-in session.
    NotLoggedIn,
    /// Login or Register on a session that is already logged in.
    AlreadyLoggedIn,
    /// Unknown user or wrong password; which of the two is not told.
    InvalidCredentials,
    /// The username is taken.
    UserExists,
    /// A password too long to hash.
    PasswordTooLong,
    /// The price cache holds no price for the symbol.
    SymbolUnavailable,
    /// The user already has an alert on this symbol and direction.
    AlertExists,
    /// A sale of more shares than are held; carries the quantity held.
    InsufficientHoldings(i32),
    /// A negative trade quantity.
    InvalidQuantity,
    /// A quantity or amount that no longer fits its integer type.
    Overflow,
    /// The store failed; the cause is logged, not sent.
    Storage,
}

/// The reason sent after `ERR` for each error.
pub open spec fn reason(e: ServiceError) -> Seq<char> {
    match e {
        ServiceError::Malformed => "unrecognized command"@,
        ServiceError::NotLoggedIn => "not logged in"@,
        ServiceError::AlreadyLoggedIn => "already logged in"@,
        ServiceError::InvalidCredentials => "invalid username or password"@,
        ServiceError::UserExists => "user already exists"@,
        ServiceError::PasswordTooLong => "password too long"@,
        ServiceError::SymbolUnavailable => "symbol not available"@,
        ServiceError::AlertExists => "alert already exists"@,
        ServiceError::InsufficientHoldings(held) => "insufficient holdings, held: "@ + int_text(held as int),
        ServiceError::InvalidQuantity => "quantity must not be negative"@,
        ServiceError::Overflow => "amount out of range"@,
        ServiceError::Storage => "storage error"@,
    }
}

impl ServiceError {
    /// The text sent after `ERR`.
    pub fn message(&self) -> (r: String)
        ensures
            r@ == reason(*self),
    {
        match self {
            ServiceError::Malformed => "unrecognized command".to_owned(),
            ServiceError::NotLoggedIn => "not logged in".to_owned(),
            ServiceError::AlreadyLoggedIn => "already logged in".to_owned(),
            ServiceError::InvalidCredentials => "invalid username or password".to_owned(),
            ServiceError::UserExists => "user already exists".to_owned(),
            ServiceError::PasswordTooLong => "password too long".to_owned(),
            ServiceError::SymbolUnavailable => "symbol not available".to_owned(),
            ServiceError::AlertExists => "alert already exists".to_owned(),
            ServiceError::InsufficientHoldings(held) => {
                let mut out = "insufficient holdings, held: ".to_owned();
                push_int(&mut out, *held as i64);
                out
            },
            ServiceError::InvalidQuantity => "quantity must not be negative".to_owned(),
            ServiceError::Overflow => "amount out of range".to_owned(),
            ServiceError::Storage => "storage error".to_owned(),
        }
    }
}

} // verus!
