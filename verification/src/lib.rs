//! A codec for the Siemens S7 protocol stack: TPKT framing, COTP transport
//! units and S7 application messages, together with the session negotiation
//! and connection retry rules that drive a frame exchange with a PLC.
//!
//! The layers, from the outside in:
//!
//! - [`tpkt`]: the four-byte frame header with the total length;
//! - [`cotp`] and [`connection`]: connection requests and responses with
//!   their parameters, and data units;
//! - [`message`], [`header`], [`parameters`] with [`item`], and [`payload`]:
//!   the S7 message with its fixed header and its two sections;
//! - [`codes`] and [`types`]: the one-byte codes of the protocol;
//! - [`wire`]: big-endian integers and byte runs.
//!
//! Around the codec stand [`negotiation`], the state machine of the session
//! handshake, and [`retry`] and [`config`], the rules and the configuration
//! of a transport.  Nothing in this crate reads, writes or waits.
//!
//! Every decoder is a total function on bytes.  Its contract names the exact
//! result for every input: the decoded value and the unread rest, or the
//! error.  The laws that tie decoders and encoders together are stated as
//! proof functions next to them: every valid value is decoded from its own
//! bytes whatever follows them, every decoded value is valid and is written
//! as the bytes it was read from, and a frame that was cut short is never
//! accepted.

pub mod codes;
pub mod config;
pub mod connection;
pub mod cotp;
pub mod error;
pub mod header;
pub mod item;
pub mod message;
pub mod negotiation;
pub mod parameters;
pub mod payload;
pub mod retry;
pub mod tpkt;
pub mod types;
pub mod wire;

pub use codes::{Area, ParameterType, ReturnCode, SyntaxId, TransportSize, VarSpec};
pub use config::{TcpConfig, TransportConfig};
pub use connection::{COTPConnectionRequest, COTPConnectionResponse, ConnectionParameter};
pub use cotp::{COTPDataPacket, COTPPacket};
pub use error::{Error, ErrorKind, S7Error, TransportError};
pub use header::{MessageType, S7Header};
pub use message::S7Message;
pub use negotiation::{FailureReason, NegotiationState, S7Connector};
pub use item::ParameterItem;
pub use parameters::S7Parameters;
pub use payload::{PayloadItem, S7Payload};
pub use retry::{LinkState, RetryConfig, RetryDecision, RetryDelay, RetryState};
pub use tpkt::TPKTPacket;
pub use types::{AreaCode, CommunicationType, FunctionCode};
