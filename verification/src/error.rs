//! Error values shared by the codec layers and the session logic.

use vstd::prelude::*;

verus! {

/// Why a frame could not be decoded or encoded, or why a session operation
/// was refused.
#[derive(Debug, Clone, Copy, PartialEq, Eq, Structural)]
pub enum S7Error {
    /// The input ends before the structure does.
    TruncatedInput,
    /// The TPKT version byte is not `0x03`, or its reserved byte is not zero.
    MalformedHeader,
    /// A declared length disagrees with the extent of what it describes.
    LengthMismatch,
    /// The COTP TPDU code is none of connection request, connection
    /// response or data.
    UnknownTpduType(u8),
    /// The code of a COTP connection parameter is not known.
    UnknownParameterCode(u8),
    /// The S7 message type byte is not known.
    InvalidMessageType(u8),
    /// The S7 function code byte is not known.
    InvalidFunctionCode(u8),
    /// The S7 parameter type byte is not known.
    InvalidParameterType(u8),
    /// The S7 protocol identifier is not `0x32`.
    InvalidProtocolId(u8),
    /// The variable specification byte of a parameter item is not known.
    InvalidVarSpec(u8),
    /// The syntax identifier of a parameter item is not known.
    InvalidSyntaxId(u8),
    /// The memory area byte of a parameter item is not known.
    InvalidArea(u8),
    /// The return code of a payload item is not known.
    InvalidReturnCode(u8),
    /// A transport size byte is not known.
    InvalidTransportSize(u8),
    /// A value cannot be written: one of its parts does not fit the wire
    /// field that carries it, or it holds parts that its kind has no place
    /// for.
    InvalidLength,
    /// Application traffic was attempted outside the established state.
    NotEstablished,
    /// The session has been closed.
    ConnectionClosed,
    /// A negotiation step was attempted before the step it depends on.
    NotConnected,
    /// A negotiation step was attempted after it had already been taken.
    AlreadyConnected,
    /// The peer answered with a frame that the current state does not await.
    UnexpectedFrame,
    /// The peer refused the proposed PDU size.
    NegotiationRejected,
}

/// The kinds of failure, by what the caller can do about them.
#[derive(Debug, Clone, Copy, PartialEq, Eq, Structural)]
pub enum ErrorKind {
    /// Received bytes are not a frame.  Nothing was read out of bounds and
    /// nothing has changed; the caller may drop the bytes and go on.
    MalformedInput,
    /// A value that was to be written violates an invariant of its type.
    InvalidValue,
    /// An operation does not fit the state of the session.  Where it made
    /// the negotiation fail, the session has to be closed and begun anew.
    ProtocolState,
}

impl S7Error {
    /// The kind of the error.
    pub open spec fn spec_kind(self) -> ErrorKind {
        match self {
            S7Error::InvalidLength => ErrorKind::InvalidValue,
            S7Error::NotEstablished => ErrorKind::ProtocolState,
            S7Error::ConnectionClosed => ErrorKind::ProtocolState,
            S7Error::NotConnected => ErrorKind::ProtocolState,
            S7Error::AlreadyConnected => ErrorKind::ProtocolState,
            S7Error::UnexpectedFrame => ErrorKind::ProtocolState,
            S7Error::NegotiationRejected => ErrorKind::ProtocolState,
            _ => ErrorKind::MalformedInput,
        }
    }

    /// The kind of the error.
    pub fn kind(&self) -> (r: ErrorKind)
        ensures
            r == self.spec_kind(),
    {
        match self {
            S7Error::InvalidLength => ErrorKind::InvalidValue,
            S7Error::NotEstablished => ErrorKind::ProtocolState,
            S7Error::ConnectionClosed => ErrorKind::ProtocolState,
            S7Error::NotConnected => ErrorKind::ProtocolState,
            S7Error::AlreadyConnected => ErrorKind::ProtocolState,
            S7Error::UnexpectedFrame => ErrorKind::ProtocolState,
            S7Error::NegotiationRejected => ErrorKind::ProtocolState,
            _ => ErrorKind::MalformedInput,
        }
    }
}

/// Whether a result, where it is a failure, is one of malformed input.
pub open spec fn fails_as_malformed<T>(r: Result<T, S7Error>) -> bool {
    r matches Err(e) ==> e.spec_kind() == ErrorKind::MalformedInput
}

/// Whether a result, where it is a failure, is one of the session's state.
pub open spec fn fails_as_state<T>(r: Result<T, S7Error>) -> bool {
    r matches Err(e) ==> e.spec_kind() == ErrorKind::ProtocolState
}

/// Why a transport operation failed.
#[derive(Debug, Clone, PartialEq, Eq)]
pub enum TransportError {
    /// The operating system reported an error; the text describes it.
    Io(String),
    /// The connection could not be made or was lost; the text says why.
    Connection(String),
    /// The transport is not connected.
    NotConnected,
    /// The transport is connected already.
    AlreadyConnected,
}

/// A failure as the client interface reports it.
#[derive(Debug, Clone, PartialEq, Eq)]
pub enum Error {
    /// The peer broke the protocol.
    Protocol(String),
    /// The connection could not be made or was lost.
    Connection(String),
    /// Received bytes could not be decoded.
    Parse(String),
}

} // verus!
