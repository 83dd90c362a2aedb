//! Error taxonomy of the distribution layer.
//!
//! Every fallible operation of the library reports one of these variants;
//! per-stream and per-connection failures are isolated, so an error value
//! never aborts the surrounding session loop.

use vstd::prelude::*;

verus! {

/// What went wrong in one delivery-layer operation.
#[derive(Clone, Copy, PartialEq, Eq, Structural, Debug)]
pub enum TransportError {
    /// TLS negotiation with the remote side failed.
    HandshakeFailed,
    /// The underlying connection dropped while a stream was in flight.
    SessionClosed,
    /// A new unidirectional stream could not be opened.
    StreamOpenFailed,
    /// Writing the encoded message to a stream failed.
    WriteFailed,
    /// Reading a stream to end-of-data failed.
    ReadFailed,
    /// The received bytes are not a valid encoding of the order schema.
    MalformedMessage,
    /// A gossip peer could not be reached.
    PeerUnreachable,
    /// No peer advertised itself within the discovery window.
    DiscoveryTimeout,
}

impl TransportError {
    /// Short stable label for logs and test output.
    pub fn label(&self) -> (r: &'static str)
        ensures
            r@ =~= match self {
                TransportError::HandshakeFailed => "handshake failed"@,
                TransportError::SessionClosed => "session closed"@,
                TransportError::StreamOpenFailed => "stream open failed"@,
                TransportError::WriteFailed => "write failed"@,
                TransportError::ReadFailed => "read failed"@,
                TransportError::MalformedMessage => "malformed message"@,
                TransportError::PeerUnreachable => "peer unreachable"@,
                TransportError::DiscoveryTimeout => "discovery timeout"@,
            },
    {
        match self {
            TransportError::HandshakeFailed => "handshake failed",
            TransportError::SessionClosed => "session closed",
            TransportError::StreamOpenFailed => "stream open failed",
            TransportError::WriteFailed => "write failed",
            TransportError::ReadFailed => "read failed",
            TransportError::MalformedMessage => "malformed message",
            TransportError::PeerUnreachable => "peer unreachable",
            TransportError::DiscoveryTimeout => "discovery timeout",
        }
    }
}

} // verus!
