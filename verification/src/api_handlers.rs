//! Error taxonomy of the service's API surface and the authenticated-user
//! extraction result. The HTTP transport around these lives outside the
//! verified core.
use vstd::prelude::*;

use vstd::string::StringExecFns;

verus! {

/// A human-readable error payload.
#[derive(Debug)]
pub struct ErrorMessage {
    pub error: String,
}

/// An API error, by status class.
#[derive(Debug)]
pub enum Error {
    /// The requested resource does not exist.
    NotFound(ErrorMessage),
    /// The request was malformed or the credentials were wrong.
    BadRequest(ErrorMessage),
    /// The request lacked a valid session.
    AuthError(ErrorMessage),
    /// The service itself failed.
    ServerError(ErrorMessage),
}

impl Error {
    /// A not-found error carrying the given message.
    pub fn not_found(error: String) -> (r: Self)
        ensures
            r matches Error::NotFound(m) && m.error@ == error@,
    {
        Error::NotFound(ErrorMessage { error })
    }

    /// A server error carrying the given message.
    pub fn server_error(error: String) -> (r: Self)
        ensures
            r matches Error::ServerError(m) && m.error@ == error@,
    {
        Error::ServerError(ErrorMessage { error })
    }

    /// The API error an authentication failure maps to: a bad request naming
    /// what was invalid.
    pub fn from(value: AuthError) -> (r: Self)
        ensures
            value == AuthError::UserMissing ==> (r matches Error::BadRequest(m) && m.error@
                == "Invalid username"@),
            value == AuthError::InccorectPassword ==> (r matches Error::BadRequest(m) && m.error@
                == "Invalid password"@),
    {
        match value {
            AuthError::UserMissing => Error::BadRequest(
                ErrorMessage { error: String::from_str("Invalid username") },
            ),
            AuthError::InccorectPassword => Error::BadRequest(
                ErrorMessage { error: String::from_str("Invalid password") },
            ),
        }
    }
}

/// Why authentication failed.
#[derive(Clone, Copy, Debug, PartialEq, Eq, Structural)]
pub enum AuthError {
    /// No account with the supplied username exists.
    UserMissing,
    /// The account exists, but the supplied password does not match.
    InccorectPassword,
}

/// A request's authenticated user, extracted from a valid session.
pub struct AuthUser {
    _username: String,
}

impl AuthUser {
    /// The authenticated user of a session naming this account.
    pub fn new(username: String) -> (r: AuthUser)
        ensures
            r.username() == username@,
    {
        AuthUser { _username: username }
    }

    /// The account name the session carries.
    pub closed spec fn username(self) -> Seq<char> {
        self._username@
    }
}

/// Marker for the service's API surface; the HTTP handlers that serve it
/// live at the transport layer, outside the verified core.
pub struct Api;

} // verus!
