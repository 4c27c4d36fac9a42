//! The closed set of failures the library reports. Transport and JSON causes
//! are carried as plain text so the error type stays free of foreign types.

use vstd::prelude::*;

verus! {

/// Everything a call into the library can fail with.
#[derive(Debug)]
pub enum Error {
    /// A transport error while sending on a live connection.
    ServiceCallFailed(String),
    /// The connection could not be established.
    LocalConnectionFailed(String),
    /// No game session has been delivered yet.
    GameSessionIdNotSet,
    /// No termination notice has been delivered yet.
    TerminationTimeNotSet,
    /// Client-side validation rejected the request.
    BadRequest(String),
    /// A frame could not be encoded or decoded.
    InvalidJson(String),
    /// A send was attempted after the connection's intake closed.
    LocalConnectionAlreadyClosed,
    /// The gateway answered with a status code other than 200.
    RequestUnsuccessful(u16, String),
    /// No reply arrived within the service call timeout.
    RequestTimeout,
    /// A second in-flight request reused the same correlation id.
    RequestWasOverwritten,
}

impl Error {
    /// A short description, in the absence of a display implementation.
    pub fn message(&self) -> (r: &'static str)
        ensures
            self is RequestTimeout ==> r@ == "Request timeout"@,
    {
        match self {
            Error::ServiceCallFailed(_) => "Service call failed",
            Error::LocalConnectionFailed(_) => "Local connection failed",
            Error::GameSessionIdNotSet => "Game session id is not set because OnStartGameSession has not been received",
            Error::TerminationTimeNotSet => "Termination time is not set because OnProcessTerminate has not been received",
            Error::BadRequest(_) => "Bad request",
            Error::InvalidJson(_) => "Invalid JSON",
            Error::LocalConnectionAlreadyClosed => "Local connection already closed",
            Error::RequestUnsuccessful(_, _) => "Request unsuccessful",
            Error::RequestTimeout => "Request timeout",
            Error::RequestWasOverwritten => "This request was overwritten by another request with the same id",
        }
    }
}

} // verus!
