//! Error types for the MQTT client library.
use vstd::prelude::*;

use crate::mqtt_proto::connack::ConnAck;
use crate::mqtt_proto::DecodeError;

verus! {

/// An I/O error, carried through as it is.
#[verifier::external_type_specification]
#[verifier::external_body]
pub struct ExIoError(std::io::Error);

/// Indicates a failure in the MQTT client before any operation takes place or the state is
/// affected: the communication channels have been closed.
#[derive(Debug, Clone)]
pub struct DetachedError {}

/// Indicates that the MQTT operation did not complete successfully. It holds no reason code as
/// an enum, as it must be agnostic to the operation type.
#[derive(Debug, Clone)]
pub struct OperationFailure {
    pub reason: String,
}

impl From<String> for OperationFailure {
    fn from(value: String) -> (r: Self) {
        OperationFailure { reason: value }
    }
}

impl vstd::std_specs::convert::FromSpecImpl<String> for OperationFailure {
    open spec fn obeys_from_spec() -> bool {
        true
    }

    open spec fn from_spec(v: String) -> Self {
        OperationFailure { reason: v }
    }
}

/// Indicates a failure that occurred during the completion of an MQTT operation.
#[derive(Clone, PartialEq, Debug)]
pub enum CompletionError {
    /// Communication channels with the client have been closed.
    Detached,
    /// The operation was canceled for the reason given.
    Canceled(String),
}

/// Indicates a failure to connect to an MQTT server.
#[derive(Debug)]
pub enum ConnectError {
    Protocol(ProtocolError),
    Io(std::io::Error),
    /// The connection was rejected by the server.
    Rejected(ConnAck),
    /// Timed out waiting for the response packet.
    ResponseTimeout,
}

/// What a protocol violation was.
#[derive(Debug)]
pub enum ProtocolErrorRepr {
    /// A packet was malformed.
    MalformedPacket(DecodeError),
    /// A packet came that was not expected.
    UnexpectedPacket,
}

/// Indicates a protocol violation of the MQTT specification.
#[derive(Debug)]
pub struct ProtocolError(pub ProtocolErrorRepr);

impl From<ProtocolErrorRepr> for ProtocolError {
    fn from(value: ProtocolErrorRepr) -> (r: Self) {
        ProtocolError(value)
    }
}

impl vstd::std_specs::convert::FromSpecImpl<ProtocolErrorRepr> for ProtocolError {
    open spec fn obeys_from_spec() -> bool {
        true
    }

    open spec fn from_spec(v: ProtocolErrorRepr) -> Self {
        ProtocolError(v)
    }
}

impl From<DecodeError> for ProtocolErrorRepr {
    fn from(value: DecodeError) -> (r: Self) {
        ProtocolErrorRepr::MalformedPacket(value)
    }
}

impl vstd::std_specs::convert::FromSpecImpl<DecodeError> for ProtocolErrorRepr {
    open spec fn obeys_from_spec() -> bool {
        true
    }

    open spec fn from_spec(v: DecodeError) -> Self {
        ProtocolErrorRepr::MalformedPacket(v)
    }
}

impl From<ProtocolError> for ConnectError {
    fn from(value: ProtocolError) -> (r: Self) {
        ConnectError::Protocol(value)
    }
}

impl vstd::std_specs::convert::FromSpecImpl<ProtocolError> for ConnectError {
    open spec fn obeys_from_spec() -> bool {
        true
    }

    open spec fn from_spec(v: ProtocolError) -> Self {
        ConnectError::Protocol(v)
    }
}

impl From<std::io::Error> for ConnectError {
    fn from(value: std::io::Error) -> (r: Self) {
        ConnectError::Io(value)
    }
}

impl vstd::std_specs::convert::FromSpecImpl<std::io::Error> for ConnectError {
    open spec fn obeys_from_spec() -> bool {
        true
    }

    open spec fn from_spec(v: std::io::Error) -> Self {
        ConnectError::Io(v)
    }
}

} // verus!
