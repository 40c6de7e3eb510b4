//! The fixed ten-byte header of an S7 message.

use vstd::prelude::*;
use vstd::std_specs::convert::TryFromSpecImpl;
use crate::error::{fails_as_malformed, S7Error};
use crate::wire::{
    lemma_u16_be_round_trip, lemma_u16_be_written, parsed, push_be_u16, read_be_u16, read_u8,
    u16_from_be, u16_to_be, Parsed,
};

verus! {

/// The kind of an S7 message.
#[derive(Debug, Clone, Copy, PartialEq, Eq, Structural)]
pub enum MessageType {
    /// A job request, sent by the client (`0x01`).
    JobRequest,
    /// An acknowledgement without data (`0x02`).
    Ack,
    /// An acknowledgement that carries data (`0x03`).
    AckData,
    /// A user data message (`0x07`).
    UserData,
}

impl MessageType {
    /// The byte that stands for this message type on the wire.
    pub open spec fn spec_code(self) -> u8 {
        match self {
            MessageType::JobRequest => 0x01,
            MessageType::Ack => 0x02,
            MessageType::AckData => 0x03,
            MessageType::UserData => 0x07,
        }
    }

    /// The message type that `value` stands for, if any.
    pub open spec fn spec_from_code(value: u8) -> Result<MessageType, S7Error> {
        if value == 0x01 {
            Ok(MessageType::JobRequest)
        } else if value == 0x02 {
            Ok(MessageType::Ack)
        } else if value == 0x03 {
            Ok(MessageType::AckData)
        } else if value == 0x07 {
            Ok(MessageType::UserData)
        } else {
            Err(S7Error::InvalidMessageType(value))
        }
    }

    /// The byte that stands for this message type on the wire.
    pub fn code(&self) -> (r: u8)
        ensures
            r == self.spec_code(),
    {
        match self {
            MessageType::JobRequest => 0x01,
            MessageType::Ack => 0x02,
            MessageType::AckData => 0x03,
            MessageType::UserData => 0x07,
        }
    }
}

impl TryFrom<u8> for MessageType {
    type Error = S7Error;

    /// Converts a code; the result is what `try_from_spec` says.
    fn try_from(value: u8) -> (r: Result<Self, S7Error>) {
        match value {
            0x01 => Ok(MessageType::JobRequest),
            0x02 => Ok(MessageType::Ack),
            0x03 => Ok(MessageType::AckData),
            0x07 => Ok(MessageType::UserData),
            _ => Err(S7Error::InvalidMessageType(value)),
        }
    }
}

impl TryFromSpecImpl<u8> for MessageType {
    open spec fn obeys_try_from_spec() -> bool {
        true
    }

    open spec fn try_from_spec(value: u8) -> Result<Self, S7Error> {
        MessageType::spec_from_code(value)
    }
}

/// The fixed header that opens every S7 message.
#[derive(Debug, Clone, Copy, PartialEq, Eq, Structural)]
pub struct S7Header {
    /// The protocol identifier, `0x32` in every valid header.
    pub protocol_id: u8,
    /// The kind of the message.
    pub message_type: MessageType,
    /// Two reserved bytes, carried as they are.
    pub reserved: u16,
    /// The reference that pairs a reply with its request.
    pub pdu_reference: u16,
    /// The length in bytes of the parameter section behind the header.
    pub parameter_length: u16,
    /// The length in bytes of the payload section behind the parameters.
    pub data_length: u16,
}

impl View for S7Header {
    type V = S7Header;

    open spec fn view(&self) -> S7Header {
        *self
    }
}

/// The protocol identifier of S7.
pub const S7_PROTOCOL_ID: u8 = 0x32;

/// The number of bytes of an S7 header.
pub const S7_HEADER_LEN: usize = 10;

impl S7Header {
    /// A header is valid when it carries the S7 protocol identifier.
    pub open spec fn wf(self) -> bool {
        self.protocol_id == S7_PROTOCOL_ID
    }

    /// The ten bytes of the header: protocol identifier, message type, then
    /// reserved, PDU reference, parameter length and data length, each as a
    /// big-endian 16-bit integer.
    pub open spec fn spec_encode(self) -> Seq<u8> {
        seq![self.protocol_id, self.message_type.spec_code()] + u16_to_be(self.reserved)
            + u16_to_be(self.pdu_reference) + u16_to_be(self.parameter_length) + u16_to_be(
            self.data_length,
        )
    }

    /// Decoding a header from the front of `input`.  Fewer than ten bytes are
    /// a truncated input; then the protocol identifier is checked, then the
    /// message type.
    pub open spec fn spec_parse(input: Seq<u8>) -> Parsed<S7Header> {
        if input.len() < S7_HEADER_LEN {
            Err(S7Error::TruncatedInput)
        } else if input[0] != S7_PROTOCOL_ID {
            Err(S7Error::InvalidProtocolId(input[0]))
        } else {
            match MessageType::spec_from_code(input[1]) {
                Err(e) => Err(e),
                Ok(message_type) => Ok(
                    (
                        input.skip(S7_HEADER_LEN as int),
                        S7Header {
                            protocol_id: input[0],
                            message_type,
                            reserved: u16_from_be(input[2], input[3]),
                            pdu_reference: u16_from_be(input[4], input[5]),
                            parameter_length: u16_from_be(input[6], input[7]),
                            data_length: u16_from_be(input[8], input[9]),
                        },
                    ),
                ),
            }
        }
    }

    /// A header of the given kind and reference that announces neither
    /// parameters nor payload.
    pub fn new(message_type: MessageType, pdu_reference: u16) -> (r: Self)
        ensures
            r == (S7Header {
                protocol_id: S7_PROTOCOL_ID,
                message_type,
                reserved: 0,
                pdu_reference,
                parameter_length: 0,
                data_length: 0,
            }),
    {
        S7Header {
            protocol_id: S7_PROTOCOL_ID,
            message_type,
            reserved: 0,
            pdu_reference,
            parameter_length: 0,
            data_length: 0,
        }
    }

    /// Decodes a header from the front of `input` and hands back the bytes
    /// behind it.
    pub fn parse(input: &[u8]) -> (r: Result<(&[u8], Self), S7Error>)
        ensures
            parsed(r) == Self::spec_parse(input@),
    {
        let (rest, protocol_id) = read_u8(input)?;
        let (rest, type_code) = read_u8(rest)?;
        let (rest, reserved) = read_be_u16(rest)?;
        let (rest, pdu_reference) = read_be_u16(rest)?;
        let (rest, parameter_length) = read_be_u16(rest)?;
        let (rest, data_length) = read_be_u16(rest)?;
        assert(rest@ =~= input@.skip(S7_HEADER_LEN as int));
        if protocol_id != S7_PROTOCOL_ID {
            return Err(S7Error::InvalidProtocolId(protocol_id));
        }
        let message_type = MessageType::try_from(type_code)?;
        Ok(
            (
                rest,
                S7Header {
                    protocol_id,
                    message_type,
                    reserved,
                    pdu_reference,
                    parameter_length,
                    data_length,
                },
            ),
        )
    }

    /// Writes the header as its ten bytes.
    pub fn encode(&self) -> (r: Vec<u8>)
        ensures
            r@ == self.spec_encode(),
    {
        let mut out: Vec<u8> = Vec::new();
        out.push(self.protocol_id);
        out.push(self.message_type.code());
        push_be_u16(&mut out, self.reserved);
        push_be_u16(&mut out, self.pdu_reference);
        push_be_u16(&mut out, self.parameter_length);
        push_be_u16(&mut out, self.data_length);
        out
    }
}

/// Every message type is recovered from its code.
pub proof fn lemma_message_type_round_trip(message_type: MessageType)
    ensures
        MessageType::spec_from_code(message_type.spec_code()) == Ok::<MessageType, S7Error>(
            message_type,
        ),
{
}

/// A byte outside the four message type codes is rejected, and the error
/// records that byte.
pub proof fn lemma_unknown_message_type_rejected(input: Seq<u8>)
    requires
        input.len() >= S7_HEADER_LEN,
        input[0] == S7_PROTOCOL_ID,
        input[1] != 0x01 && input[1] != 0x02 && input[1] != 0x03 && input[1] != 0x07,
    ensures
        S7Header::spec_parse(input) == Err::<(Seq<u8>, S7Header), S7Error>(
            S7Error::InvalidMessageType(input[1]),
        ),
{
}

/// A byte that decodes to a message type is that type's code.
pub proof fn lemma_message_type_parsed(message_type: MessageType, value: u8)
    requires
        MessageType::spec_from_code(value) == Ok::<MessageType, S7Error>(message_type),
    ensures
        message_type.spec_code() == value,
{
}

/// A header that was decoded is valid, and its bytes followed by what was
/// left are the input: no two inputs decode to the same header and rest.
pub proof fn lemma_header_decoded_valid(input: Seq<u8>)
    requires
        S7Header::spec_parse(input) is Ok,
    ensures
        S7Header::spec_parse(input)->Ok_0.1.wf(),
        S7Header::spec_parse(input)->Ok_0.1.spec_encode() + S7Header::spec_parse(input)->Ok_0.0
            == input,
{
    let (rest, header) = S7Header::spec_parse(input)->Ok_0;
    lemma_message_type_parsed(header.message_type, input[1]);
    lemma_u16_be_written(input[2], input[3]);
    lemma_u16_be_written(input[4], input[5]);
    lemma_u16_be_written(input[6], input[7]);
    lemma_u16_be_written(input[8], input[9]);
}

/// An encoded header has ten bytes.
pub proof fn lemma_header_encoded_len(header: S7Header)
    ensures
        header.spec_encode().len() == S7_HEADER_LEN,
{
}

/// Decoding the bytes of a valid header, followed by anything, gives the
/// header back and leaves what followed.
pub proof fn lemma_header_round_trip(header: S7Header, tail: Seq<u8>)
    requires
        header.wf(),
    ensures
        S7Header::spec_parse(header.spec_encode() + tail) == Ok::<(Seq<u8>, S7Header), S7Error>(
            (tail, header),
        ),
{
    let input = header.spec_encode() + tail;
    lemma_u16_be_round_trip(header.reserved);
    lemma_u16_be_round_trip(header.pdu_reference);
    lemma_u16_be_round_trip(header.parameter_length);
    lemma_u16_be_round_trip(header.data_length);
    lemma_message_type_round_trip(header.message_type);
    assert(input.skip(S7_HEADER_LEN as int) =~= tail);
}

/// Decoding a strict prefix of an encoded header reports a truncated input.
pub proof fn lemma_header_prefix_truncated(header: S7Header, len: int)
    requires
        0 <= len < header.spec_encode().len(),
    ensures
        S7Header::spec_parse(header.spec_encode().take(len)) == Err::<
            (Seq<u8>, S7Header),
            S7Error,
        >(S7Error::TruncatedInput),
{
}

/// Whatever the input, a header fails to decode only as malformed input.
pub proof fn lemma_header_fails_as_malformed(input: Seq<u8>)
    ensures
        fails_as_malformed(S7Header::spec_parse(input)),
{
}

} // verus!
