//! Errors reported by the send side.

use vstd::prelude::*;

verus! {

/// Error codes of RST_STREAM and GOAWAY frames.
#[derive(Clone, Copy, Debug, PartialEq, Eq, Structural)]
pub enum Reason {
    NoError,
    ProtocolError,
    InternalError,
    FlowControlError,
    SettingsTimeout,
    StreamClosed,
    FrameSizeError,
    RefusedStream,
    Cancel,
    CompressionError,
    ConnectError,
    EnhanceYourCalm,
    InadequateSecurity,
    Http11Required,
}

/// Misuse of the connection by the local caller. No frame was sent.
#[derive(Clone, Copy, Debug, PartialEq, Eq, Structural)]
pub enum User {
    /// The stream is closed.
    InactiveStreamId,
    /// The frame cannot be sent in the stream's state, or by this endpoint.
    UnexpectedFrameType,
    /// More data was handed over than the stream's window admits.
    FlowControlViolation,
    /// As many streams are open as the peer allows.
    Rejected,
    /// Every stream identifier of this endpoint has been used.
    OverflowedStreamId,
}

#[derive(Clone, Copy, Debug, PartialEq, Eq, Structural)]
pub enum ConnectionError {
    /// A protocol error, with the code that is reported to the peer.
    Proto(Reason),
    /// An error of the local caller.
    User(User),
}

} // verus!
