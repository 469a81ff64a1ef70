//! The errors of the router.

use crate::messages::{ErrorType, Message, Reason};
use vstd::prelude::*;

verus! {

/// What went wrong.
#[derive(Debug, PartialEq)]
pub enum ErrorKind {
    /// The socket layer failed; the text is its error's.
    WSError(String),
    /// The handshake was refused for the given reason.
    HandshakeError(Reason),
    /// A message came that the protocol does not expect here.
    UnexpectedMessage(&'static str),
    /// The connection is not, or no longer, known to the router.
    ConnectionLost,
    /// The payload is no valid JSON message; the text is the decoder's.
    JSONError(String),
    /// The payload is no valid MessagePack message; the text is the decoder's.
    MsgPackError(String),
    /// The payload is malformed.
    MalformedData,
    /// The router does not handle this verb.
    InvalidMessageType(Message),
    /// The verb does not fit the state of the session or of the router.
    InvalidState(&'static str),
    /// The peer did not answer in time.
    Timeout,
    /// A request failed; the requester is told so under the request's id.
    ErrorReason(ErrorType, u64, Reason),
}

/// An error of the router.
#[derive(Debug, PartialEq)]
pub struct Error {
    pub kind: ErrorKind,
}

impl Error {
    /// An error of the given kind.
    pub fn new(kind: ErrorKind) -> (r: Error)
        ensures
            r.kind == kind,
    {
        Error { kind }
    }

    /// The kind of the error.
    pub fn get_kind(self) -> (r: ErrorKind)
        ensures
            r == self.kind,
    {
        self.kind
    }
}

} // verus!
