//! COTP transport units: a length byte and a TPDU code, then the body of a
//! connection request, of a connection response, or of a data unit that
//! carries one S7 message.

use vstd::prelude::*;
use crate::connection::{
    lemma_connection_decoded, lemma_connection_fails_as_malformed, lemma_connection_round_trip,
    COTPConnectionRequest, COTPConnectionResponse, ConnectionView, CONNECTION_FIXED_LEN,
};
use crate::error::{fails_as_malformed, S7Error};
use crate::message::{
    lemma_message_decoded_valid, lemma_message_fails_as_malformed, lemma_message_prefix_truncated,
    lemma_message_round_trip, S7Message, S7MessageView,
};
use crate::wire::{
    lemma_concat_assoc, lemma_concat_split, lemma_concat_take, lemma_skip_split, lemma_take_skip,
    parsed, push_bytes, read_bytes, read_u8, section_error, to_section_error, Parsed,
};

verus! {

/// The TPDU code of a connection request.
pub const TPDU_CONNECTION_REQUEST: u8 = 0xE0;

/// The TPDU code of a connection response.
pub const TPDU_CONNECTION_RESPONSE: u8 = 0xD0;

/// The TPDU code of a data unit.
pub const TPDU_DATA: u8 = 0xF0;

/// The length byte of a data unit: the code and the flags byte.
pub const DATA_HEADER_LEN: u8 = 2;

/// The bit of the flags byte that marks the end of a transmission.
pub const EOT_FLAG: u8 = 0x80;

/// The largest value of the length byte.
pub const MAX_HEADER_LEN: usize = 255;

/// A data unit as a mathematical value.
pub struct COTPDataPacketView {
    /// Whether this unit ends a transmission.
    pub eot: bool,
    /// The number of the unit, below 128.
    pub tpdu_ref: u8,
    /// The S7 message that the unit carries.
    pub data: S7MessageView,
}

impl COTPDataPacketView {
    /// A data unit can be written when its number fits seven bits and its
    /// message can be written.
    pub open spec fn encodable(self) -> bool {
        &&& self.tpdu_ref < EOT_FLAG
        &&& self.data.encodable()
    }

    /// A data unit is valid when its number fits seven bits and its message
    /// is valid.
    pub open spec fn wf(self) -> bool {
        &&& self.tpdu_ref < EOT_FLAG
        &&& self.data.wf()
    }

    /// The flags byte: the number, with the top bit set at the end of a
    /// transmission.
    pub open spec fn spec_flags(self) -> u8 {
        if self.eot {
            (self.tpdu_ref + EOT_FLAG) as u8
        } else {
            self.tpdu_ref
        }
    }

    /// The bytes of the body of a data unit: the flags byte and the message.
    pub open spec fn spec_encode(self) -> Seq<u8>
        recommends
            self.encodable(),
    {
        seq![self.spec_flags()] + self.data.spec_encode()
    }

    /// Decoding the body of a data unit from the front of `input`: the flags
    /// byte, then the message.
    pub open spec fn spec_parse(input: Seq<u8>) -> Parsed<COTPDataPacketView> {
        if input.len() < 1 {
            Err(S7Error::TruncatedInput)
        } else {
            match S7MessageView::spec_parse(input.skip(1)) {
                Err(e) => Err(e),
                Ok((rest, data)) => Ok(
                    (
                        rest,
                        COTPDataPacketView {
                            eot: input[0] >= EOT_FLAG,
                            tpdu_ref: if input[0] >= EOT_FLAG {
                                (input[0] - EOT_FLAG) as u8
                            } else {
                                input[0]
                            },
                            data,
                        },
                    ),
                ),
            }
        }
    }
}

/// The body of a COTP data unit.
#[derive(Debug, Clone, PartialEq, Eq)]
pub struct COTPDataPacket {
    /// Whether this unit ends a transmission.
    pub eot: bool,
    /// The number of the unit, below 128.
    pub tpdu_ref: u8,
    /// The S7 message that the unit carries.
    pub data: S7Message,
}

impl View for COTPDataPacket {
    type V = COTPDataPacketView;

    open spec fn view(&self) -> COTPDataPacketView {
        COTPDataPacketView { eot: self.eot, tpdu_ref: self.tpdu_ref, data: self.data@ }
    }
}

impl COTPDataPacket {
    /// Decodes the body of a data unit from the front of `input` and hands
    /// back the bytes behind it.
    pub fn parse(input: &[u8]) -> (r: Result<(&[u8], Self), S7Error>)
        ensures
            parsed(r) == COTPDataPacketView::spec_parse(input@),
    {
        let (rest, flags) = read_u8(input)?;
        let (rest, data) = S7Message::parse(rest)?;
        let eot = flags >= EOT_FLAG;
        let tpdu_ref = if eot {
            flags - EOT_FLAG
        } else {
            flags
        };
        Ok((rest, COTPDataPacket { eot, tpdu_ref, data }))
    }

    /// Whether the data unit is valid.
    pub fn is_valid(&self) -> (r: bool)
        ensures
            r == self@.wf(),
    {
        self.tpdu_ref < EOT_FLAG && self.data.is_valid()
    }

    /// Writes the body of the data unit.  A unit whose number does not fit
    /// seven bits, or whose message cannot be written, cannot be written.
    pub fn encode(&self) -> (r: Result<Vec<u8>, S7Error>)
        ensures
            match r {
                Ok(bytes) => self@.encodable() && bytes@ == self@.spec_encode(),
                Err(e) => !self@.encodable() && e == S7Error::InvalidLength,
            },
    {
        if self.tpdu_ref >= EOT_FLAG {
            return Err(S7Error::InvalidLength);
        }
        let message = self.data.encode()?;
        let mut out: Vec<u8> = Vec::new();
        if self.eot {
            out.push(self.tpdu_ref + EOT_FLAG);
        } else {
            out.push(self.tpdu_ref);
        }
        push_bytes(&mut out, message.as_slice());
        Ok(out)
    }
}

/// The body of a data unit, followed by anything, is the flags byte followed
/// by the message and what followed.
proof fn lemma_data_shape(unit: COTPDataPacketView, tail: Seq<u8>)
    ensures
        unit.spec_encode() + tail == seq![unit.spec_flags()] + (unit.data.spec_encode() + tail),
        (unit.spec_encode() + tail).len() == 1 + unit.data.spec_encode().len() + tail.len(),
        (unit.spec_encode() + tail)[0] == unit.spec_flags(),
        (unit.spec_encode() + tail).skip(1) == unit.data.spec_encode() + tail,
{
    lemma_concat_assoc(seq![unit.spec_flags()], unit.data.spec_encode(), tail);
    lemma_concat_split(seq![unit.spec_flags()], unit.data.spec_encode() + tail);
}

/// An input whose first byte holds the flags of a unit, and which goes on
/// with the unit's message, decodes to the unit.
proof fn lemma_data_step(input: Seq<u8>, rest: Seq<u8>, unit: COTPDataPacketView)
    requires
        input.len() >= 1,
        unit.tpdu_ref < EOT_FLAG,
        input[0] == unit.spec_flags(),
        S7MessageView::spec_parse(input.skip(1)) == Ok::<(Seq<u8>, S7MessageView), S7Error>(
            (rest, unit.data),
        ),
    ensures
        COTPDataPacketView::spec_parse(input) == Ok::<(Seq<u8>, COTPDataPacketView), S7Error>(
            (rest, unit),
        ),
{
}

/// An input whose message behind the flags byte is truncated is truncated.
proof fn lemma_data_truncated(input: Seq<u8>)
    requires
        input.len() >= 1 ==> S7MessageView::spec_parse(input.skip(1)) == Err::<
            (Seq<u8>, S7MessageView),
            S7Error,
        >(S7Error::TruncatedInput),
    ensures
        COTPDataPacketView::spec_parse(input) == Err::<(Seq<u8>, COTPDataPacketView), S7Error>(
            S7Error::TruncatedInput,
        ),
{
}

/// Decoding the body of a valid data unit, followed by anything, gives the
/// unit back and leaves what followed.
pub proof fn lemma_data_round_trip(unit: COTPDataPacketView, tail: Seq<u8>)
    requires
        unit.wf(),
    ensures
        COTPDataPacketView::spec_parse(unit.spec_encode() + tail) == Ok::<
            (Seq<u8>, COTPDataPacketView),
            S7Error,
        >((tail, unit)),
{
    lemma_message_round_trip(unit.data, tail);
    lemma_data_shape(unit, tail);
    lemma_data_step(unit.spec_encode() + tail, tail, unit);
}

/// Decoding a strict prefix of the body of a valid data unit reports a
/// truncated input.
pub proof fn lemma_data_prefix_truncated(unit: COTPDataPacketView, len: int)
    requires
        unit.wf(),
        0 <= len < unit.spec_encode().len(),
    ensures
        COTPDataPacketView::spec_parse(unit.spec_encode().take(len)) == Err::<
            (Seq<u8>, COTPDataPacketView),
            S7Error,
        >(S7Error::TruncatedInput),
{
    let input = unit.spec_encode().take(len);
    if len >= 1 {
        lemma_concat_take(seq![unit.spec_flags()], unit.data.spec_encode(), len);
        lemma_concat_split(seq![unit.spec_flags()], unit.data.spec_encode().take(len - 1));
        lemma_message_prefix_truncated(unit.data, len - 1);
    }
    lemma_data_truncated(input);
}

/// The flags byte of an input gives the end of transmission mark and the
/// number of the unit that the input decodes to.
proof fn lemma_data_decoded_flags(input: Seq<u8>)
    requires
        COTPDataPacketView::spec_parse(input) is Ok,
    ensures
        input.len() >= 1,
        COTPDataPacketView::spec_parse(input)->Ok_0.1.tpdu_ref < EOT_FLAG,
        COTPDataPacketView::spec_parse(input)->Ok_0.1.spec_flags() == input[0],
        S7MessageView::spec_parse(input.skip(1)) == Ok::<(Seq<u8>, S7MessageView), S7Error>(
            (
                COTPDataPacketView::spec_parse(input)->Ok_0.0,
                COTPDataPacketView::spec_parse(input)->Ok_0.1.data,
            ),
        ),
{
}

/// Where the message of a data unit, followed by what was left, is the input
/// behind the flags byte, and the flags byte is the unit's, the unit
/// followed by what was left is the input.
proof fn lemma_data_bytes(input: Seq<u8>, unit: COTPDataPacketView, rest: Seq<u8>)
    requires
        input.len() >= 1,
        unit.spec_flags() == input[0],
        unit.data.spec_encode() + rest == input.skip(1),
    ensures
        unit.spec_encode() + rest == input,
{
    lemma_data_shape(unit, rest);
    lemma_take_skip(input, 1);
}

/// The body of a data unit that was decoded is valid, and its bytes
/// followed by what was left are the input.
pub proof fn lemma_data_decoded_valid(input: Seq<u8>)
    requires
        COTPDataPacketView::spec_parse(input) is Ok,
    ensures
        COTPDataPacketView::spec_parse(input)->Ok_0.1.wf(),
        COTPDataPacketView::spec_parse(input)->Ok_0.1.spec_encode()
            + COTPDataPacketView::spec_parse(input)->Ok_0.0 == input,
{
    let (rest, unit) = COTPDataPacketView::spec_parse(input)->Ok_0;
    lemma_data_decoded_flags(input);
    lemma_message_decoded_valid(input.skip(1));
    lemma_data_bytes(input, unit, rest);
}

/// A COTP unit as a mathematical value.
pub enum COTPPacketView {
    /// A data unit.
    Data(COTPDataPacketView),
    /// A connection request.
    ConnectionRequest(ConnectionView),
    /// A connection response.
    ConnectionResponse(ConnectionView),
}

/// The unit that a connection body stands for under the TPDU code `code`.
pub open spec fn connection_unit(code: u8, connection: ConnectionView) -> COTPPacketView {
    if code == TPDU_CONNECTION_REQUEST {
        COTPPacketView::ConnectionRequest(connection)
    } else {
        COTPPacketView::ConnectionResponse(connection)
    }
}

/// The bytes of a connection unit: the length byte, the code, and the body.
pub open spec fn spec_encode_connection_unit(code: u8, connection: ConnectionView) -> Seq<u8> {
    seq![(1 + connection.spec_encode().len()) as u8, code] + connection.spec_encode()
}

/// Decoding a connection unit whose length byte and code have been read
/// from `input`.  The length byte must cover references and class.  The
/// input must hold what the length byte announces.  The body is decoded from
/// exactly those bytes.
pub open spec fn spec_parse_connection_unit(input: Seq<u8>) -> Parsed<COTPPacketView>
    recommends
        input.len() >= 2,
{
    let end = 1 + input[0];
    if input[0] < 1 + CONNECTION_FIXED_LEN {
        Err(S7Error::LengthMismatch)
    } else if input.len() < end {
        Err(S7Error::TruncatedInput)
    } else {
        match ConnectionView::spec_parse(input.subrange(2, end)) {
            Err(e) => Err(section_error(e)),
            Ok((_, connection)) => Ok((input.skip(end), connection_unit(input[1], connection))),
        }
    }
}

impl COTPPacketView {
    /// A unit can be written when its body can be written and its header
    /// fits the length byte.
    pub open spec fn encodable(self) -> bool {
        match self {
            COTPPacketView::Data(unit) => unit.encodable(),
            COTPPacketView::ConnectionRequest(connection) => 1 + connection.spec_encode().len()
                <= MAX_HEADER_LEN,
            COTPPacketView::ConnectionResponse(connection) => 1 + connection.spec_encode().len()
                <= MAX_HEADER_LEN,
        }
    }

    /// A unit is valid when it can be written and the message of a data unit
    /// is valid.
    pub open spec fn wf(self) -> bool {
        match self {
            COTPPacketView::Data(unit) => unit.wf(),
            _ => self.encodable(),
        }
    }

    /// The bytes of a unit that can be written.
    pub open spec fn spec_encode(self) -> Seq<u8>
        recommends
            self.encodable(),
    {
        match self {
            COTPPacketView::Data(unit) => seq![DATA_HEADER_LEN, TPDU_DATA] + unit.spec_encode(),
            COTPPacketView::ConnectionRequest(connection) => spec_encode_connection_unit(
                TPDU_CONNECTION_REQUEST,
                connection,
            ),
            COTPPacketView::ConnectionResponse(connection) => spec_encode_connection_unit(
                TPDU_CONNECTION_RESPONSE,
                connection,
            ),
        }
    }

    /// Decoding a unit from the front of `input`.  Length byte and code must
    /// be there.  A data unit has a length byte of two and is followed by
    /// its body.  A connection unit is decoded as
    /// [`spec_parse_connection_unit`] says.  Any other code is rejected and
    /// recorded.
    pub open spec fn spec_parse(input: Seq<u8>) -> Parsed<COTPPacketView> {
        if input.len() < 2 {
            Err(S7Error::TruncatedInput)
        } else if input[1] == TPDU_DATA {
            if input[0] != DATA_HEADER_LEN {
                Err(S7Error::LengthMismatch)
            } else {
                match COTPDataPacketView::spec_parse(input.skip(2)) {
                    Err(e) => Err(e),
                    Ok((rest, unit)) => Ok((rest, COTPPacketView::Data(unit))),
                }
            }
        } else if input[1] == TPDU_CONNECTION_REQUEST || input[1] == TPDU_CONNECTION_RESPONSE {
            spec_parse_connection_unit(input)
        } else {
            Err(S7Error::UnknownTpduType(input[1]))
        }
    }
}

/// A COTP transport unit.
#[derive(Debug, Clone, PartialEq, Eq)]
pub enum COTPPacket {
    /// A data unit.
    Data(COTPDataPacket),
    /// A connection request.
    ConnectionRequest(COTPConnectionRequest),
    /// A connection response.
    ConnectionResponse(COTPConnectionResponse),
}

impl View for COTPPacket {
    type V = COTPPacketView;

    open spec fn view(&self) -> COTPPacketView {
        match self {
            COTPPacket::Data(unit) => COTPPacketView::Data(unit@),
            COTPPacket::ConnectionRequest(request) => COTPPacketView::ConnectionRequest(request@),
            COTPPacket::ConnectionResponse(response) => COTPPacketView::ConnectionResponse(
                response@,
            ),
        }
    }
}

/// Puts length byte and code in front of a connection body.
fn frame_connection(code: u8, body: Vec<u8>) -> (r: Result<Vec<u8>, S7Error>)
    ensures
        match r {
            Ok(bytes) => 1 + body@.len() <= MAX_HEADER_LEN && bytes@ == seq![
                (1 + body@.len()) as u8,
                code,
            ] + body@,
            Err(e) => 1 + body@.len() > MAX_HEADER_LEN && e == S7Error::InvalidLength,
        },
{
    if body.len() > MAX_HEADER_LEN - 1 {
        return Err(S7Error::InvalidLength);
    }
    let mut out: Vec<u8> = Vec::new();
    out.push((1 + body.len()) as u8);
    out.push(code);
    push_bytes(&mut out, body.as_slice());
    Ok(out)
}

/// Decodes the body of a connection unit whose header was read from
/// `input`: `body` is what the header announces, `rest` what lies behind it.
fn parse_connection_body<'a>(input: &[u8], body: &[u8], rest: &'a [u8]) -> (r: Result<
    (&'a [u8], COTPPacket),
    S7Error,
>)
    requires
        input@.len() >= 2,
        input@[1] == TPDU_CONNECTION_REQUEST || input@[1] == TPDU_CONNECTION_RESPONSE,
        input@[0] >= 1 + CONNECTION_FIXED_LEN,
        input@.len() >= 1 + input@[0],
        body@ == input@.subrange(2, 1 + input@[0]),
        rest@ == input@.skip(1 + input@[0]),
    ensures
        parsed(r) == spec_parse_connection_unit(input@),
{
    if input[1] == TPDU_CONNECTION_REQUEST {
        match COTPConnectionRequest::parse(body) {
            Err(e) => Err(to_section_error(e)),
            Ok((_, request)) => Ok((rest, COTPPacket::ConnectionRequest(request))),
        }
    } else {
        match COTPConnectionResponse::parse(body) {
            Err(e) => Err(to_section_error(e)),
            Ok((_, response)) => Ok((rest, COTPPacket::ConnectionResponse(response))),
        }
    }
}

impl COTPPacket {
    /// Decodes a unit from the front of `input` and hands back the bytes
    /// behind it.
    pub fn parse(input: &[u8]) -> (r: Result<(&[u8], Self), S7Error>)
        ensures
            parsed(r) == COTPPacketView::spec_parse(input@),
    {
        let (rest, header_length) = read_u8(input)?;
        let (rest, code) = read_u8(rest)?;
        assert(rest@ =~= input@.skip(2));
        if code == TPDU_DATA {
            if header_length != DATA_HEADER_LEN {
                return Err(S7Error::LengthMismatch);
            }
            let (rest, unit) = COTPDataPacket::parse(rest)?;
            Ok((rest, COTPPacket::Data(unit)))
        } else if code == TPDU_CONNECTION_REQUEST || code == TPDU_CONNECTION_RESPONSE {
            if (header_length as usize) < 1 + CONNECTION_FIXED_LEN {
                return Err(S7Error::LengthMismatch);
            }
            let (rest, body) = read_bytes(rest, (header_length - 1) as usize)?;
            proof {
                lemma_skip_split(input@, 2, header_length - 1);
            }
            parse_connection_body(input, body, rest)
        } else {
            Err(S7Error::UnknownTpduType(code))
        }
    }

    /// Whether the unit is valid.
    pub fn is_valid(&self) -> (r: bool)
        ensures
            r == self@.wf(),
    {
        match self {
            COTPPacket::Data(unit) => unit.is_valid(),
            COTPPacket::ConnectionRequest(request) => request.encode().len() <= MAX_HEADER_LEN
                - 1,
            COTPPacket::ConnectionResponse(response) => response.encode().len() <= MAX_HEADER_LEN
                - 1,
        }
    }

    /// Writes the unit.  A unit that cannot be written is refused.
    pub fn encode(&self) -> (r: Result<Vec<u8>, S7Error>)
        ensures
            match r {
                Ok(bytes) => self@.encodable() && bytes@ == self@.spec_encode(),
                Err(e) => !self@.encodable() && e == S7Error::InvalidLength,
            },
    {
        match self {
            COTPPacket::Data(unit) => {
                let body = unit.encode()?;
                let mut out: Vec<u8> = Vec::new();
                out.push(DATA_HEADER_LEN);
                out.push(TPDU_DATA);
                push_bytes(&mut out, body.as_slice());
                Ok(out)
            },
            COTPPacket::ConnectionRequest(request) => frame_connection(
                TPDU_CONNECTION_REQUEST,
                request.encode(),
            ),
            COTPPacket::ConnectionResponse(response) => frame_connection(
                TPDU_CONNECTION_RESPONSE,
                response.encode(),
            ),
        }
    }
}

/// The bytes of a connection unit, followed by anything, are the length
/// byte, the code, the body and what followed.
proof fn lemma_connection_unit_shape(code: u8, connection: ConnectionView, tail: Seq<u8>)
    requires
        1 + connection.spec_encode().len() <= MAX_HEADER_LEN,
    ensures
        ({
            let body = connection.spec_encode();
            let input = spec_encode_connection_unit(code, connection) + tail;
            &&& input.len() == 2 + body.len() + tail.len()
            &&& input[0] == 1 + body.len()
            &&& input[1] == code
            &&& input.subrange(2, 2 + body.len() as int) == body
            &&& input.skip(2 + body.len() as int) == tail
            &&& spec_encode_connection_unit(code, connection).len() == 2 + body.len()
        }),
{
    let body = connection.spec_encode();
    let input = spec_encode_connection_unit(code, connection) + tail;
}

/// An input whose header announces a connection body, and whose bytes under
/// the header decode to the body, decodes to the connection unit.
proof fn lemma_connection_unit_step(input: Seq<u8>, connection: ConnectionView)
    requires
        input.len() >= 2,
        input[1] == TPDU_CONNECTION_REQUEST || input[1] == TPDU_CONNECTION_RESPONSE,
        input[0] >= 1 + CONNECTION_FIXED_LEN,
        input.len() >= 1 + input[0],
        ConnectionView::spec_parse(input.subrange(2, 1 + input[0])) == Ok::<
            (Seq<u8>, ConnectionView),
            S7Error,
        >((Seq::empty(), connection)),
    ensures
        COTPPacketView::spec_parse(input) == Ok::<(Seq<u8>, COTPPacketView), S7Error>(
            (input.skip(1 + input[0]), connection_unit(input[1], connection)),
        ),
{
}

/// Decoding the bytes of a connection unit, followed by anything, gives the
/// unit back and leaves what followed.
proof fn lemma_connection_unit_round_trip(code: u8, connection: ConnectionView, tail: Seq<u8>)
    requires
        code == TPDU_CONNECTION_REQUEST || code == TPDU_CONNECTION_RESPONSE,
        1 + connection.spec_encode().len() <= MAX_HEADER_LEN,
    ensures
        COTPPacketView::spec_parse(spec_encode_connection_unit(code, connection) + tail) == Ok::<
            (Seq<u8>, COTPPacketView),
            S7Error,
        >((tail, connection_unit(code, connection))),
{
    lemma_connection_round_trip(connection);
    lemma_connection_unit_shape(code, connection, tail);
    lemma_connection_unit_step(spec_encode_connection_unit(code, connection) + tail, connection);
}

/// The bytes of a data unit with its header, followed by anything, are the
/// two header bytes, the body and what followed.
proof fn lemma_data_unit_shape(data: COTPDataPacketView, tail: Seq<u8>)
    ensures
        ({
            let input = COTPPacketView::Data(data).spec_encode() + tail;
            &&& input.len() == 2 + data.spec_encode().len() + tail.len()
            &&& input[0] == DATA_HEADER_LEN
            &&& input[1] == TPDU_DATA
            &&& input.skip(2) == data.spec_encode() + tail
            &&& COTPPacketView::Data(data).spec_encode().len() == 2 + data.spec_encode().len()
        }),
{
    let input = COTPPacketView::Data(data).spec_encode() + tail;
}

/// An input with the header of a data unit decodes as its bytes behind the
/// header do.
proof fn lemma_data_unit_step(input: Seq<u8>)
    requires
        input.len() >= 2,
        input[0] == DATA_HEADER_LEN,
        input[1] == TPDU_DATA,
    ensures
        COTPPacketView::spec_parse(input) == (match COTPDataPacketView::spec_parse(
            input.skip(2),
        ) {
            Err(e) => Err::<(Seq<u8>, COTPPacketView), S7Error>(e),
            Ok((rest, unit)) => Ok((rest, COTPPacketView::Data(unit))),
        }),
{
}

/// Decoding the bytes of a valid data unit with its header, followed by
/// anything, gives the unit back and leaves what followed.
proof fn lemma_data_unit_round_trip(data: COTPDataPacketView, tail: Seq<u8>)
    requires
        data.wf(),
    ensures
        COTPPacketView::spec_parse(COTPPacketView::Data(data).spec_encode() + tail) == Ok::<
            (Seq<u8>, COTPPacketView),
            S7Error,
        >((tail, COTPPacketView::Data(data))),
{
    lemma_data_round_trip(data, tail);
    lemma_data_unit_shape(data, tail);
    lemma_data_unit_step(COTPPacketView::Data(data).spec_encode() + tail);
}

/// Decoding the bytes of a valid unit, followed by anything, gives the unit
/// back and leaves what followed.
pub proof fn lemma_unit_round_trip(unit: COTPPacketView, tail: Seq<u8>)
    requires
        unit.wf(),
    ensures
        COTPPacketView::spec_parse(unit.spec_encode() + tail) == Ok::<
            (Seq<u8>, COTPPacketView),
            S7Error,
        >((tail, unit)),
{
    match unit {
        COTPPacketView::Data(data) => {
            lemma_data_unit_round_trip(data, tail);
        },
        COTPPacketView::ConnectionRequest(connection) => {
            lemma_connection_unit_round_trip(TPDU_CONNECTION_REQUEST, connection, tail);
        },
        COTPPacketView::ConnectionResponse(connection) => {
            lemma_connection_unit_round_trip(TPDU_CONNECTION_RESPONSE, connection, tail);
        },
    }
}

/// An input that ends within the two header bytes is truncated.
proof fn lemma_truncated_in_unit_header(input: Seq<u8>)
    requires
        input.len() < 2,
    ensures
        COTPPacketView::spec_parse(input) == Err::<(Seq<u8>, COTPPacketView), S7Error>(
            S7Error::TruncatedInput,
        ),
{
}

/// An input that ends within the announced connection body is truncated.
proof fn lemma_truncated_in_connection(input: Seq<u8>)
    requires
        input.len() >= 2,
        input[1] == TPDU_CONNECTION_REQUEST || input[1] == TPDU_CONNECTION_RESPONSE,
        input[0] >= 1 + CONNECTION_FIXED_LEN,
        input.len() < 1 + input[0],
    ensures
        COTPPacketView::spec_parse(input) == Err::<(Seq<u8>, COTPPacketView), S7Error>(
            S7Error::TruncatedInput,
        ),
{
}

/// Decoding a strict prefix of the bytes of a connection unit reports a
/// truncated input.
proof fn lemma_connection_unit_prefix_truncated(code: u8, connection: ConnectionView, len: int)
    requires
        code == TPDU_CONNECTION_REQUEST || code == TPDU_CONNECTION_RESPONSE,
        1 + connection.spec_encode().len() <= MAX_HEADER_LEN,
        0 <= len < spec_encode_connection_unit(code, connection).len(),
    ensures
        COTPPacketView::spec_parse(spec_encode_connection_unit(code, connection).take(len))
            == Err::<(Seq<u8>, COTPPacketView), S7Error>(S7Error::TruncatedInput),
{
    let input = spec_encode_connection_unit(code, connection).take(len);
    lemma_connection_round_trip(connection);
    lemma_connection_unit_shape(code, connection, Seq::empty());
    if len < 2 {
        lemma_truncated_in_unit_header(input);
    } else {
        lemma_truncated_in_connection(input);
    }
}

/// Decoding a strict prefix of the bytes of a valid data unit with its
/// header reports a truncated input.
proof fn lemma_data_unit_prefix_truncated(data: COTPDataPacketView, len: int)
    requires
        data.wf(),
        0 <= len < COTPPacketView::Data(data).spec_encode().len(),
    ensures
        COTPPacketView::spec_parse(COTPPacketView::Data(data).spec_encode().take(len)) == Err::<
            (Seq<u8>, COTPPacketView),
            S7Error,
        >(S7Error::TruncatedInput),
{
    let input = COTPPacketView::Data(data).spec_encode().take(len);
    lemma_data_unit_shape(data, Seq::empty());
    if len < 2 {
        lemma_truncated_in_unit_header(input);
    } else {
        lemma_concat_take(seq![DATA_HEADER_LEN, TPDU_DATA], data.spec_encode(), len);
        lemma_concat_split(seq![DATA_HEADER_LEN, TPDU_DATA], data.spec_encode().take(len - 2));
        lemma_data_prefix_truncated(data, len - 2);
        lemma_data_unit_step(input);
    }
}

/// Decoding a strict prefix of the bytes of a valid unit reports a
/// truncated input.
pub proof fn lemma_unit_prefix_truncated(unit: COTPPacketView, len: int)
    requires
        unit.wf(),
        0 <= len < unit.spec_encode().len(),
    ensures
        COTPPacketView::spec_parse(unit.spec_encode().take(len)) == Err::<
            (Seq<u8>, COTPPacketView),
            S7Error,
        >(S7Error::TruncatedInput),
{
    match unit {
        COTPPacketView::Data(data) => {
            lemma_data_unit_prefix_truncated(data, len);
        },
        COTPPacketView::ConnectionRequest(connection) => {
            lemma_connection_unit_prefix_truncated(TPDU_CONNECTION_REQUEST, connection, len);
        },
        COTPPacketView::ConnectionResponse(connection) => {
            lemma_connection_unit_prefix_truncated(TPDU_CONNECTION_RESPONSE, connection, len);
        },
    }
}

/// What an input with the header of a connection unit decodes to, where it
/// decodes: the unit of the body under the header, and the rest behind it.
proof fn lemma_connection_unit_decoded_parts(input: Seq<u8>)
    requires
        input.len() >= 2,
        input[1] == TPDU_CONNECTION_REQUEST || input[1] == TPDU_CONNECTION_RESPONSE,
        COTPPacketView::spec_parse(input) is Ok,
    ensures
        input[0] >= 1 + CONNECTION_FIXED_LEN,
        input.len() >= 1 + input[0],
        ConnectionView::spec_parse(input.subrange(2, 1 + input[0])) is Ok,
        COTPPacketView::spec_parse(input) == Ok::<(Seq<u8>, COTPPacketView), S7Error>(
            (
                input.skip(1 + input[0]),
                connection_unit(
                    input[1],
                    ConnectionView::spec_parse(input.subrange(2, 1 + input[0]))->Ok_0.1,
                ),
            ),
        ),
{
}

/// Where the body of a connection unit is the input under the header, the
/// unit followed by the input behind the body is the input.
proof fn lemma_connection_unit_bytes(input: Seq<u8>, connection: ConnectionView)
    requires
        input.len() >= 2,
        input[1] == TPDU_CONNECTION_REQUEST || input[1] == TPDU_CONNECTION_RESPONSE,
        input[0] >= 1,
        input.len() >= 1 + input[0],
        connection.spec_encode() == input.subrange(2, 1 + input[0]),
    ensures
        connection_unit(input[1], connection).encodable(),
        connection_unit(input[1], connection).spec_encode() + input.skip(1 + input[0]) == input,
{
    let unit = connection_unit(input[1], connection);
}

/// A connection unit that was decoded can be written, and its bytes followed
/// by what was left are the input.
proof fn lemma_connection_unit_decoded(input: Seq<u8>)
    requires
        input.len() >= 2,
        input[1] == TPDU_CONNECTION_REQUEST || input[1] == TPDU_CONNECTION_RESPONSE,
        COTPPacketView::spec_parse(input) is Ok,
    ensures
        COTPPacketView::spec_parse(input)->Ok_0.1.wf(),
        COTPPacketView::spec_parse(input)->Ok_0.1.spec_encode() + COTPPacketView::spec_parse(
            input,
        )->Ok_0.0 == input,
{
    let body = input.subrange(2, 1 + input[0]);
    lemma_connection_unit_decoded_parts(input);
    lemma_connection_decoded(body);
    lemma_connection_unit_bytes(input, ConnectionView::spec_parse(body)->Ok_0.1);
}

/// Where the body of a data unit, followed by what was left, is the input
/// behind the header, the unit with its header is the whole input.
proof fn lemma_data_unit_bytes(input: Seq<u8>, data: COTPDataPacketView, rest: Seq<u8>)
    requires
        input.len() >= 2,
        input[0] == DATA_HEADER_LEN,
        input[1] == TPDU_DATA,
        data.spec_encode() + rest == input.skip(2),
    ensures
        COTPPacketView::Data(data).spec_encode() + rest == input,
{
    lemma_concat_assoc(seq![DATA_HEADER_LEN, TPDU_DATA], data.spec_encode(), rest);
    lemma_take_skip(input, 2);
}

/// A data unit with its header that was decoded is valid, and its bytes
/// followed by what was left are the input.
proof fn lemma_data_unit_decoded(input: Seq<u8>)
    requires
        input.len() >= 2,
        input[0] == DATA_HEADER_LEN,
        input[1] == TPDU_DATA,
        COTPDataPacketView::spec_parse(input.skip(2)) is Ok,
    ensures
        COTPPacketView::spec_parse(input) is Ok,
        COTPPacketView::spec_parse(input)->Ok_0.1.wf(),
        COTPPacketView::spec_parse(input)->Ok_0.1.spec_encode() + COTPPacketView::spec_parse(
            input,
        )->Ok_0.0 == input,
{
    let (rest, data) = COTPDataPacketView::spec_parse(input.skip(2))->Ok_0;
    lemma_data_unit_step(input);
    lemma_data_decoded_valid(input.skip(2));
    lemma_data_unit_bytes(input, data, rest);
}

/// What kind of unit an input decodes to, where it decodes.
proof fn lemma_unit_decoded_kind(input: Seq<u8>)
    requires
        COTPPacketView::spec_parse(input) is Ok,
    ensures
        input.len() >= 2,
        input[1] == TPDU_DATA ==> input[0] == DATA_HEADER_LEN && COTPDataPacketView::spec_parse(
            input.skip(2),
        ) is Ok,
        input[1] != TPDU_DATA ==> input[1] == TPDU_CONNECTION_REQUEST || input[1]
            == TPDU_CONNECTION_RESPONSE,
{
}

/// A unit that was decoded is valid, and its bytes followed by what was left
/// are the input, so no two inputs decode to the same unit and rest.
pub proof fn lemma_unit_decoded_valid(input: Seq<u8>)
    requires
        COTPPacketView::spec_parse(input) is Ok,
    ensures
        COTPPacketView::spec_parse(input)->Ok_0.1.wf(),
        COTPPacketView::spec_parse(input)->Ok_0.1.spec_encode() + COTPPacketView::spec_parse(
            input,
        )->Ok_0.0 == input,
{
    lemma_unit_decoded_kind(input);
    if input[1] == TPDU_DATA {
        lemma_data_unit_decoded(input);
    } else {
        lemma_connection_unit_decoded(input);
    }
}

/// An input decodes to a unit and a rest exactly when the unit is valid and
/// the input is the unit's bytes followed by the rest.
pub proof fn lemma_unit_decodes_iff(input: Seq<u8>, rest: Seq<u8>, unit: COTPPacketView)
    ensures
        COTPPacketView::spec_parse(input) == Ok::<(Seq<u8>, COTPPacketView), S7Error>(
            (rest, unit),
        ) <==> unit.wf() && input == unit.spec_encode() + rest,
{
    if COTPPacketView::spec_parse(input) == Ok::<(Seq<u8>, COTPPacketView), S7Error>(
        (rest, unit),
    ) {
        lemma_unit_decoded_valid(input);
    }
    if unit.wf() && input == unit.spec_encode() + rest {
        lemma_unit_round_trip(unit, rest);
    }
}

/// A valid unit can be written.
pub proof fn lemma_unit_encodable(unit: COTPPacketView)
    requires
        unit.wf(),
    ensures
        unit.encodable(),
{
}

/// A TPDU code outside the three known codes is rejected, and the error
/// records that code.
pub proof fn lemma_unknown_tpdu_type_rejected(input: Seq<u8>)
    requires
        input.len() >= 2,
        input[1] != TPDU_DATA && input[1] != TPDU_CONNECTION_REQUEST && input[1]
            != TPDU_CONNECTION_RESPONSE,
    ensures
        COTPPacketView::spec_parse(input) == Err::<(Seq<u8>, COTPPacketView), S7Error>(
            S7Error::UnknownTpduType(input[1]),
        ),
{
}

/// Whatever the input, a unit fails to decode only as malformed input.
pub proof fn lemma_unit_fails_as_malformed(input: Seq<u8>)
    ensures
        fails_as_malformed(COTPDataPacketView::spec_parse(input)),
        fails_as_malformed(COTPPacketView::spec_parse(input)),
{
    if input.len() >= 1 {
        lemma_message_fails_as_malformed(input.skip(1));
    }
    if input.len() >= 3 {
        lemma_message_fails_as_malformed(input.skip(2).skip(1));
    }
    if input.len() >= 2 && input.len() >= 1 + input[0] && input[0] >= 1 {
        lemma_connection_fails_as_malformed(input.subrange(2, 1 + input[0]));
    }
}

} // verus!
