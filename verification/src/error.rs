//! The errors of a transfer, as the caller sees them.

use crate::packet::FramingError;
use crate::signaling::ProtocolError;
use crate::stun::DiscoveryError;
use vstd::prelude::*;

verus! {

/// Why a session ended without its file, or a step of it failed.
///
/// A corrupted payload is not among these: the receiver drops it and the
/// sender's timeout repairs the loss, so it never reaches the caller.
#[derive(Debug, Clone, Copy, PartialEq, Eq, Structural)]
pub enum TransferError {
    /// A file could not be opened, read or written.
    Io,
    /// Connecting, sending or receiving failed, or timed out.
    Network,
    /// Bytes that are no packet.
    Framing(FramingError),
    /// A signaling message that is malformed or not expected.
    Protocol(ProtocolError),
    /// The server refused the relay.
    RelayRejected,
    /// The STUN answer holds no mapped address.
    AddressNotFound,
}

/// How far an error reaches.
#[derive(Debug, Clone, Copy, PartialEq, Eq, Structural)]
pub enum Severity {
    /// The session is over and the error goes to the caller.
    Abort,
    /// The error is logged and the channel goes on.
    Continue,
}

/// The transfer error that a failed discovery amounts to.
pub open spec fn discovery_error_spec(e: DiscoveryError) -> TransferError {
    match e {
        DiscoveryError::AddressNotFound => TransferError::AddressNotFound,
        _ => TransferError::Network,
    }
}

/// The transfer error that a failed discovery amounts to: a missing address
/// stays what it is, everything else is a network error.
pub fn discovery_error(e: DiscoveryError) -> (r: TransferError)
    ensures
        r == discovery_error_spec(e),
{
    match e {
        DiscoveryError::AddressNotFound => TransferError::AddressNotFound,
        _ => TransferError::Network,
    }
}

/// Whether an error ends the session: only a protocol error does not.
pub open spec fn severity_spec(e: TransferError) -> Severity {
    match e {
        TransferError::Protocol(_) => Severity::Continue,
        _ => Severity::Abort,
    }
}

/// How far an error reaches. A malformed or unexpected signaling message is
/// logged and the channel stays open; every other error ends the session.
pub fn severity(e: TransferError) -> (s: Severity)
    ensures
        s == severity_spec(e),
{
    match e {
        TransferError::Protocol(_) => Severity::Continue,
        _ => Severity::Abort,
    }
}

} // verus!
