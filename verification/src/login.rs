//! The login flow's decisions: how an authentication outcome maps to a
//! login error and to the redirect the browser receives. Session storage
//! and the form itself live outside the library.

use vstd::prelude::*;

use crate::authentication::AuthError;
use crate::response::StoredResponse;
use crate::response::redirect;
use crate::response::spec_redirect;

verus! {

/// Why a login failed.
#[derive(Debug)]
pub enum LoginError {
    /// The credentials were rejected; the payload carries the underlying
    /// message.
    AuthError(String),
    /// Anything else; the payload carries the underlying message.
    UnexpectedError(String),
}

impl LoginError {
    /// The message shown in the browser for the error.
    pub fn message(&self) -> (r: String)
        ensures
            match self {
                LoginError::AuthError(_) => r@ == "You are not authorized to view this page."@,
                LoginError::UnexpectedError(e) => r@ == e@,
            },
    {
        match self {
            LoginError::AuthError(_) => String::from_str(
                "You are not authorized to view this page.",
            ),
            LoginError::UnexpectedError(e) => e.clone(),
        }
    }

    /// How an authentication failure is reported at the login form:
    /// rejected credentials become an authorization error, everything
    /// else stays unexpected.
    pub fn from_auth(e: AuthError) -> (r: LoginError)
        ensures
            match e {
                AuthError::InvalidCredentials(_) => r is AuthError,
                AuthError::UnexpectedError(_) => r is UnexpectedError,
            },
    {
        match e {
            AuthError::InvalidCredentials(m) => LoginError::AuthError(m),
            AuthError::UnexpectedError(m) => LoginError::UnexpectedError(m),
        }
    }
}

/// Where a failed login sends the browser: back to the login form.
pub fn login_redirect() -> (r: StoredResponse)
    ensures
        r@ == spec_redirect("/login"@),
{
    redirect("/login")
}

/// Where a successful login sends the browser: the admin dashboard.
pub fn successful_login_redirect() -> (r: StoredResponse)
    ensures
        r@ == spec_redirect("/admin/dashboard"@),
{
    redirect("/admin/dashboard")
}

} // verus!
