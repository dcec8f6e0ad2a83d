//! Authentication outcomes and password-change validation.
//!
//! Credential storage, argon2 hashing and the session middleware live
//! outside the library; what is decided here is how lookup and
//! verification results combine into an outcome, and which password
//! changes are acceptable.

use vstd::prelude::*;

verus! {

/// The authenticated user's identifier.
#[derive(Clone, Copy, Debug, PartialEq, Eq, Structural)]
pub struct UserId(pub u128);

/// A username with the password supplied for it.
pub struct Credentials {
    pub username: String,
    pub password: String,
}

/// Why authentication failed.
#[derive(Debug)]
pub enum AuthError {
    /// Unknown user or wrong password; the payload carries the underlying
    /// message.
    InvalidCredentials(String),
    /// Anything else; the payload carries the underlying message.
    UnexpectedError(String),
}

impl AuthError {
    /// The message shown for the error.
    pub fn message(&self) -> (r: String)
        ensures
            match self {
                AuthError::InvalidCredentials(_) => r@ == "Invalid credentials"@,
                AuthError::UnexpectedError(e) => r@ == e@,
            },
    {
        match self {
            AuthError::InvalidCredentials(_) => String::from_str("Invalid credentials"),
            AuthError::UnexpectedError(e) => e.clone(),
        }
    }
}

/// The decision at the heart of credential validation: only a found user
/// whose password verified is authenticated. A missing user still has a
/// dummy hash verified against — which never succeeds — so the caller
/// spends the same time either way and usernames cannot be enumerated by
/// timing; here that means a missing user yields the same error as a
/// wrong password.
pub fn credentials_outcome(looked_up: Option<UserId>, password_ok: bool) -> (r: Result<
    UserId,
    AuthError,
>)
    ensures
        match r {
            Ok(u) => looked_up == Some(u) && password_ok,
            Err(e) => e is InvalidCredentials && !(looked_up is Some && password_ok),
        },
{
    match looked_up {
        Some(user_id) => {
            if password_ok {
                Ok(user_id)
            } else {
                Err(AuthError::InvalidCredentials(String::from_str("Invalid password")))
            }
        },
        None => Err(
            AuthError::InvalidCredentials(
                String::from_str("No user with the supplied username was found"),
            ),
        ),
    }
}

/// The fewest characters a new password may have.
pub const MIN_PASSWORD_LENGTH: usize = 13;

/// The most characters a new password may have.
pub const MAX_PASSWORD_LENGTH: usize = 128;

/// Check a requested password change: the two copies must match and the
/// length must be within bounds. Returns the message to show the user
/// when the request is rejected, nothing when it passes.
pub fn validate_new_password(new_password: &str, new_password_repeat: &str) -> (r: Option<String>)
    ensures
        match r {
            None => new_password@ == new_password_repeat@ && MIN_PASSWORD_LENGTH
                <= new_password@.len() <= MAX_PASSWORD_LENGTH,
            Some(msg) => {
                if new_password@ != new_password_repeat@ {
                    msg@ == "The two passwords supplied do not match!"@
                } else {
                    !(MIN_PASSWORD_LENGTH <= new_password@.len() <= MAX_PASSWORD_LENGTH) && msg@
                        == "The new password is too short!"@
                }
            },
        },
{
    let new_owned = String::from_str(new_password);
    let repeat_owned = String::from_str(new_password_repeat);
    if !(new_owned == repeat_owned) {
        return Some(String::from_str("The two passwords supplied do not match!"));
    }
    let len = new_password.unicode_len();
    if len < MIN_PASSWORD_LENGTH || len > MAX_PASSWORD_LENGTH {
        return Some(String::from_str("The new password is too short!"));
    }
    None
}

} // verus!
