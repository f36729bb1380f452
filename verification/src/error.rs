//! The errors of the library.
use vstd::prelude::*;

use crate::text::concat_str;

verus! {

/// What can go wrong when talking to Triad.
#[derive(Debug)]
pub enum Error {
    /// Neither `TRIAD_SOCKET` nor `XDG_RUNTIME_DIR` names a socket.
    MissingSocketPath,
    /// The socket path does not exist.
    SocketMissing(String),
    /// Reading or writing the socket failed; the text describes the failure.
    Io(String),
    /// A line was not valid JSON; the text describes the failure.
    Json(String),
    /// Triad answered with an error, or with a reply that lacks a part.
    Triad(String),
    /// Triad answered with a reply of another type than the one asked for.
    UnexpectedReply { expected: String, actual: String },
    /// An action payload was not a JSON object.
    InvalidActionPayload(String),
    /// The name is not one of Triad's native read requests.
    UnsupportedRequest(String),
    /// The name is not one of Triad's native event filters.
    UnsupportedEvent(String),
    /// A binding dispatch request that Triad would refuse.
    InvalidDispatchBinding(String),
    /// The socket closed before the expected line arrived.
    StreamDisconnected,
}

/// The result type of the library.
pub type Result<T> = std::result::Result<T, Error>;

impl Error {
    /// The one-line description of the error.
    pub open spec fn message(self) -> Seq<char> {
        match self {
            Error::MissingSocketPath => "TRIAD_SOCKET is not set and XDG_RUNTIME_DIR is not available"@,
            Error::SocketMissing(p) => "socket path does not exist: "@ + p@,
            Error::Io(m) => "socket io failed: "@ + m@,
            Error::Json(m) => "json parse failed: "@ + m@,
            Error::Triad(m) => "triad returned an error: "@ + m@,
            Error::UnexpectedReply { expected, actual } => "expected triad reply type "@ + expected@
                + ", got "@ + actual@,
            Error::InvalidActionPayload(m) => "invalid action payload: "@ + m@,
            Error::UnsupportedRequest(m) => "unsupported triad request: "@ + m@,
            Error::UnsupportedEvent(m) => "unsupported triad event: "@ + m@,
            Error::InvalidDispatchBinding(m) => "invalid dispatch binding: "@ + m@,
            Error::StreamDisconnected => "triad stream disconnected"@,
        }
    }

    /// The one-line description of the error, as the binary prints it.
    pub fn to_string(&self) -> (r: String)
        ensures
            r@ == self.message(),
    {
        match self {
            Error::MissingSocketPath => String::from_str(
                "TRIAD_SOCKET is not set and XDG_RUNTIME_DIR is not available",
            ),
            Error::SocketMissing(p) => concat_str("socket path does not exist: ", p.as_str()),
            Error::Io(m) => concat_str("socket io failed: ", m.as_str()),
            Error::Json(m) => concat_str("json parse failed: ", m.as_str()),
            Error::Triad(m) => concat_str("triad returned an error: ", m.as_str()),
            Error::UnexpectedReply { expected, actual } => {
                let mut s = concat_str("expected triad reply type ", expected.as_str());
                s.append(", got ");
                s.append(actual.as_str());
                s
            },
            Error::InvalidActionPayload(m) => concat_str("invalid action payload: ", m.as_str()),
            Error::UnsupportedRequest(m) => concat_str("unsupported triad request: ", m.as_str()),
            Error::UnsupportedEvent(m) => concat_str("unsupported triad event: ", m.as_str()),
            Error::InvalidDispatchBinding(m) => concat_str("invalid dispatch binding: ", m.as_str()),
            Error::StreamDisconnected => String::from_str("triad stream disconnected"),
        }
    }
}

} // verus!
