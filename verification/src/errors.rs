//! Error taxonomy of the engine.
//!
//! `ConnectError` is fatal to connection establishment, `ConnectionError` is
//! surfaced from individual operations on an established connection, and
//! `ReplyOrIdError` adds identifier exhaustion for resource-id allocation.

use vstd::prelude::*;

verus! {

/// An error that occurred while establishing the connection.
#[derive(Debug, Clone, Copy, PartialEq, Eq, Structural)]
pub enum ConnectError {
    /// The display name could not be parsed.
    DisplayParsing,
    /// An I/O failure happened while connecting.
    Io,
    /// The stream ended before the handshake was complete.
    UnexpectedEndOfStream,
    /// The requested screen index is out of range of the advertised roots.
    InvalidScreen,
    /// The server advertised a resource-id mask of zero.
    ZeroIdMask,
    /// The server refused the setup request.
    SetupFailed,
    /// The server demanded further authentication.
    SetupAuthenticate,
    /// The setup reply could not be parsed, or was incomplete.
    SetupParse,
}

/// An error that occurred on an established connection.
#[derive(Debug, Clone, Copy, PartialEq, Eq, Structural)]
pub enum ConnectionError {
    /// An error not described by the other variants.
    UnknownError,
    /// A response did not have the shape the protocol promises.
    ParseError,
    /// The request is longer than the negotiated maximum request length.
    MaximumRequestLengthExceeded,
    /// An I/O failure.
    IoError,
    /// A previous holder of the write buffer abandoned it mid-operation;
    /// the buffer contents cannot be trusted and the connection is poisoned.
    WriteBufferCorrupted,
}

/// An error surfaced from resource-identifier allocation.
#[derive(Debug, Clone, Copy, PartialEq, Eq, Structural)]
pub enum ReplyOrIdError {
    /// The id range is exhausted and could not be extended.
    IdsExhausted,
    /// An operation on the connection failed.
    Connection(ConnectionError),
}

} // verus!
