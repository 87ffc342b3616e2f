//! The failures that the codec and the handshake report.

use vstd::prelude::*;

verus! {

/// Why a decode call or a handshake failed.
#[derive(Debug, Clone, Copy, PartialEq, Eq, Structural)]
pub enum ClientError {
    /// The buffered bytes violate the framing grammar. The byte stream
    /// cannot be resynchronised afterwards.
    MalformedFrame,
    /// A well-framed unit whose command is not known for its direction, or
    /// which lacks a header that its command requires.
    UnknownOrInvalidMessage,
    /// The first reply to the connection request was not an acceptance, or
    /// the stream ended before any reply.
    HandshakeRejected,
}

} // verus!
