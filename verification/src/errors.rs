//! The error taxonomy shared by both fetch pipelines.

use vstd::prelude::*;

verus! {

/// Everything that can go wrong in one polling cycle.
///
/// A value of this type is only ever reported for the cycle in which it
/// arose; it never terminates the surrounding loop.
#[derive(Debug)]
pub enum Error {
    /// A credential was missing or unusable before any request was made.
    ConfigError(String),
    /// The provider rejected a request (non-success HTTP status, with the
    /// response body kept for diagnostics), or a success body lacked the
    /// required token fields.
    AuthError(String),
    /// The account has no installation to scope the climate query to.
    NotFoundError,
    /// The transport failed before a response was obtained.
    NetworkError(String),
    /// A response was obtained but did not match the expected schema.
    DecodeError(String),
}

impl Error {
    /// A short stable label for the error category, for display.
    pub fn label(&self) -> (r: &'static str)
        ensures
            self is ConfigError ==> r@ == "config error"@,
            self is AuthError ==> r@ == "auth error"@,
            self is NotFoundError ==> r@ == "not found"@,
            self is NetworkError ==> r@ == "network error"@,
            self is DecodeError ==> r@ == "decode error"@,
    {
        match self {
            Error::ConfigError(_) => "config error",
            Error::AuthError(_) => "auth error",
            Error::NotFoundError => "not found",
            Error::NetworkError(_) => "network error",
            Error::DecodeError(_) => "decode error",
        }
    }
}

} // verus!
