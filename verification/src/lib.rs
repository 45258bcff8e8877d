//! Client core for a racing-simulation web API.
//!
//! The library covers the protocol logic of the client: deriving the login
//! credential hash, framing the authentication payload, classifying the
//! login response, and resolving the two-hop redirect fetch that every
//! resource endpoint uses. The HTTP transport itself lives outside the
//! library; callers hand each response in as a status code and a body.

use vstd::prelude::*;

pub mod auth;
pub mod json;
pub mod protocol;
pub mod types;

verus! {

// vstd leaves `String::push` unspecified; its documentation says it appends
// the given character to the end of the string.
pub assume_specification[ String::push ](s: &mut String, c: char)
    ensures
        final(s)@ == old(s)@.push(c),
;

/// The transport-level detail of a failed request: the HTTP status of the
/// response, if one was received at all (a network or TLS failure yields
/// none).
#[derive(Debug, Clone, PartialEq, Eq)]
pub struct TransportError {
    pub status: Option<u16>,
}

/// Which step of a call a malformed response was seen at: the login
/// exchange, the first (redirect-envelope) hop of a fetch, or the second
/// (payload) hop.
#[derive(Debug, Clone, Copy, PartialEq, Eq, Structural)]
pub enum Hop {
    Login,
    Redirect,
    Payload,
}

/// A structured authentication rejection, decoded from the failure shape of
/// the login response body.
#[derive(Debug, Clone, PartialEq, Eq)]
pub struct UnsuccessfulAuth {
    pub authcode: i64,
    pub inactive: bool,
    pub message: String,
    pub verification_required: bool,
}

/// The success shape of the login response body: an issued auth code, the
/// numeric customer identifier, and the echoed (possibly anonymised) email.
#[derive(Debug, Clone, PartialEq, Eq)]
pub struct SuccessfulAuth {
    pub authcode: String,
    pub cust_id: i64,
    pub email: String,
}

/// The two shapes a well-formed login response body can take, decided by
/// structural field presence: the success shape is tried first, then the
/// failure shape.
#[derive(Debug, Clone, PartialEq, Eq)]
pub enum AuthResponse {
    Success(SuccessfulAuth),
    Failure(UnsuccessfulAuth),
}

/// The closed error taxonomy of the client.
///
/// Every failing call ends in exactly one of these kinds: an explicit
/// credential rejection by the server, a transport-level failure (network
/// fault or non-success HTTP status), a response body that matches neither
/// expected shape at some hop, or a failure outside those classes.
#[derive(Debug, Clone, PartialEq, Eq)]
pub enum Error {
    UnsuccessfulAuth(UnsuccessfulAuth),
    RequestError(TransportError),
    MalformedResponse(Hop),
    Unknown(String),
}

impl Error {
    /// True exactly when the error is a transport failure whose HTTP status
    /// was 401, the signal that the session has expired or was never
    /// established; callers use it to decide whether to re-authenticate.
    pub fn is_unauthorized(&self) -> (r: bool)
        ensures
            r == self.is_unauthorized_status(),
    {
        match self {
            Error::RequestError(t) => match t.status {
                Some(s) => s == 401,
                None => false,
            },
            _ => false,
        }
    }

    /// Spec-level form of [`Error::is_unauthorized`].
    pub open spec fn is_unauthorized_status(&self) -> bool {
        match self {
            Error::RequestError(t) => t.status == Some(401u16),
            _ => false,
        }
    }
}

} // verus!
