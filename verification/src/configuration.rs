//! The configuration values the verified code works with. Loading them
//! from files and environment variables happens outside the library.

use vstd::prelude::*;

verus! {

/// Where the server listens.
pub struct ApplicationSettings {
    /// Localhost in development, all interfaces in production.
    pub host: String,
    /// The server's port.
    pub port: u16,
}

/// Which configuration profile the process runs under.
#[derive(Clone, Copy, PartialEq, Eq, Structural)]
pub enum Environment {
    Local,
    Production,
}

/// What `str::to_lowercase` returns; a function of the characters alone.
pub uninterp spec fn lower_of(s: Seq<char>) -> Seq<char>;

/// Relies on `str::to_lowercase` of std, which vstd gives no
/// specification: the string's lowercase form.
#[verifier::external_body]
fn to_lowercase(s: &str) -> (r: String)
    ensures
        r@ == lower_of(s@),
{
    s.to_lowercase()
}

impl Environment {
    /// The profile's name, as it appears in configuration file names.
    pub fn as_str(&self) -> (r: &str)
        ensures
            match self {
                Environment::Local => r@ == "local"@,
                Environment::Production => r@ == "production"@,
            },
    {
        match self {
            Environment::Local => "local",
            Environment::Production => "production",
        }
    }

    /// Read a profile name, case-insensitively: accepted exactly when its
    /// lowercase form is one of the two profile names.
    pub fn try_from(value: String) -> (r: Result<Environment, String>)
        ensures
            match r {
                Ok(Environment::Local) => lower_of(value@) == "local"@,
                Ok(Environment::Production) => lower_of(value@) == "production"@,
                Err(_) => lower_of(value@) != "local"@ && lower_of(value@) != "production"@,
            },
    {
        let lowered = to_lowercase(value.as_str());
        if lowered == String::from_str("local") {
            Ok(Environment::Local)
        } else if lowered == String::from_str("production") {
            Ok(Environment::Production)
        } else {
            let mut msg = String::from_str("Invalid: ");
            msg.append(lowered.as_str());
            Err(msg)
        }
    }
}

} // verus!
