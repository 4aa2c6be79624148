//! The ways an operation of this library can fail.
use vstd::prelude::*;

verus! {

/// Every failure is returned to the immediate caller; none is retried.
#[derive(Debug, Clone, Copy, PartialEq, Eq, Structural)]
pub enum MqttError {
    /// The broker's host and port could not be parsed.
    AddressError,
    /// The TCP connection was refused or timed out.
    ConnectError,
    /// The broker's CONNACK was malformed or refused the session.
    ProtocolError,
    /// An input exceeds the protocol's size limits.
    EncodingError,
    /// A write or read failed on an established socket.
    IoError,
    /// The operation needs a connected session.
    NotConnected,
    /// A remaining-length field ran past four bytes or past its input.
    MalformedLength,
}

} // verus!
