//! TPKT framing: a four-byte header with version, reserved byte and total
//! length, around one COTP unit.

use vstd::prelude::*;
use crate::cotp::{
    lemma_unit_decoded_valid, lemma_unit_encodable, lemma_unit_fails_as_malformed,
    lemma_unit_round_trip, COTPPacket, COTPPacketView,
};
use crate::error::{fails_as_malformed, S7Error};
use crate::wire::{
    lemma_concat_empty, lemma_u16_be_round_trip, lemma_u16_be_written, parsed, push_be_u16,
    push_bytes, read_be_u16, read_bytes, read_u8, section_error, to_section_error, u16_from_be,
    u16_to_be, Parsed,
};

verus! {

/// The version byte of TPKT.
pub const TPKT_VERSION: u8 = 0x03;

/// The number of bytes of the TPKT header.
pub const TPKT_HEADER_LEN: usize = 4;

/// The largest total length that a frame can declare.
pub const MAX_FRAME_LEN: usize = 65535;

/// A TPKT frame as a mathematical value.
pub struct TPKTPacketView {
    /// The version byte, `0x03` in every valid frame.
    pub protocol_id: u8,
    /// The reserved byte, zero in every valid frame.
    pub reserved: u8,
    /// The total length of the frame, header included.
    pub length: u16,
    /// The COTP unit that the frame carries.
    pub payload: COTPPacketView,
}

/// Reading the total length from the header at the front of `input`.  Fewer
/// than four bytes are a truncated input.  A version byte other than `0x03`
/// or a reserved byte other than zero is a malformed header.  A total
/// length that does not cover the header is a length mismatch.
pub open spec fn spec_declared_length(input: Seq<u8>) -> Result<u16, S7Error> {
    if input.len() < TPKT_HEADER_LEN {
        Err(S7Error::TruncatedInput)
    } else if input[0] != TPKT_VERSION || input[1] != 0 {
        Err(S7Error::MalformedHeader)
    } else if u16_from_be(input[2], input[3]) < TPKT_HEADER_LEN {
        Err(S7Error::LengthMismatch)
    } else {
        Ok(u16_from_be(input[2], input[3]))
    }
}

/// The frame of total length `length` around the unit that `unit` decoded
/// from exactly the bytes between the header and the frame's end.
pub open spec fn framed(input: Seq<u8>, length: u16, unit: Parsed<COTPPacketView>) -> Parsed<
    TPKTPacketView,
> {
    match unit {
        Err(e) => Err(section_error(e)),
        Ok((rest, payload)) => if rest.len() != 0 {
            Err(S7Error::LengthMismatch)
        } else {
            Ok(
                (
                    input.skip(length as int),
                    TPKTPacketView { protocol_id: input[0], reserved: input[1], length, payload },
                ),
            )
        },
    }
}

impl TPKTPacketView {
    /// A frame can be written when its unit can be written and fits,
    /// together with the header, the length field.
    pub open spec fn encodable(self) -> bool {
        &&& self.payload.encodable()
        &&& TPKT_HEADER_LEN + self.payload.spec_encode().len() <= MAX_FRAME_LEN
    }

    /// The total length of the frame as it is written.
    pub open spec fn written_length(self) -> u16 {
        (TPKT_HEADER_LEN + self.payload.spec_encode().len()) as u16
    }

    /// A frame is valid when it can be written, its unit is valid, version
    /// and reserved byte are as TPKT fixes them, and its length is the
    /// length of the frame as it is written.
    pub open spec fn wf(self) -> bool {
        &&& self.encodable()
        &&& self.payload.wf()
        &&& self.protocol_id == TPKT_VERSION
        &&& self.reserved == 0
        &&& self.length == self.written_length()
    }

    /// The bytes of a frame that can be written: version, reserved byte,
    /// the written length, and the unit.
    pub open spec fn spec_encode(self) -> Seq<u8>
        recommends
            self.encodable(),
    {
        seq![self.protocol_id, self.reserved] + u16_to_be(self.written_length())
            + self.payload.spec_encode()
    }

    /// Decoding a frame from the front of `input`.  The header is read as
    /// [`spec_declared_length`] says.  An input that is shorter than the
    /// declared length is a length mismatch.  The unit is decoded from the
    /// bytes between the header and the declared end and must fill them
    /// exactly; what lies behind the declared end is handed back.
    pub open spec fn spec_parse(input: Seq<u8>) -> Parsed<TPKTPacketView> {
        match spec_declared_length(input) {
            Err(e) => Err(e),
            Ok(length) => if input.len() < length {
                Err(S7Error::LengthMismatch)
            } else {
                framed(
                    input,
                    length,
                    COTPPacketView::spec_parse(
                        input.subrange(TPKT_HEADER_LEN as int, length as int),
                    ),
                )
            },
        }
    }
}

/// A TPKT frame.
#[derive(Debug, Clone, PartialEq, Eq)]
pub struct TPKTPacket {
    /// The version byte, `0x03` in every valid frame.
    pub protocol_id: u8,
    /// The reserved byte, zero in every valid frame.
    pub reserved: u8,
    /// The total length of the frame, header included.
    pub length: u16,
    /// The COTP unit that the frame carries.
    pub payload: COTPPacket,
}

impl View for TPKTPacket {
    type V = TPKTPacketView;

    open spec fn view(&self) -> TPKTPacketView {
        TPKTPacketView {
            protocol_id: self.protocol_id,
            reserved: self.reserved,
            length: self.length,
            payload: self.payload@,
        }
    }
}

impl TPKTPacket {
    /// Reads the total length of a frame from its header, so that a reader
    /// of a byte stream knows where the frame ends.
    pub fn declared_length(input: &[u8]) -> (r: Result<u16, S7Error>)
        ensures
            r == spec_declared_length(input@),
    {
        let (rest, protocol_id) = read_u8(input)?;
        let (rest, reserved) = read_u8(rest)?;
        let (_, length) = read_be_u16(rest)?;
        if protocol_id != TPKT_VERSION || reserved != 0 {
            return Err(S7Error::MalformedHeader);
        }
        if (length as usize) < TPKT_HEADER_LEN {
            return Err(S7Error::LengthMismatch);
        }
        Ok(length)
    }

    /// Decodes a frame from the front of `input` and hands back the bytes
    /// behind the frame's declared end.
    pub fn parse(input: &[u8]) -> (r: Result<(&[u8], Self), S7Error>)
        ensures
            parsed(r) == TPKTPacketView::spec_parse(input@),
    {
        let length = Self::declared_length(input)?;
        let (rest, frame) = match read_bytes(input, length as usize) {
            Err(_) => {
                return Err(S7Error::LengthMismatch);
            },
            Ok(split) => split,
        };
        let (body, _) = match read_bytes(frame, TPKT_HEADER_LEN) {
            Err(e) => {
                return Err(e);
            },
            Ok((body, header)) => (body, header),
        };
        assert(body@ =~= input@.subrange(TPKT_HEADER_LEN as int, length as int));
        match COTPPacket::parse(body) {
            Err(e) => Err(to_section_error(e)),
            Ok((unread, payload)) => {
                if unread.len() != 0 {
                    return Err(S7Error::LengthMismatch);
                }
                Ok(
                    (
                        rest,
                        TPKTPacket {
                            protocol_id: TPKT_VERSION,
                            reserved: 0,
                            length,
                            payload,
                        },
                    ),
                )
            },
        }
    }

    /// The frame around `payload`, with the total length of the frame as it
    /// is written.  A unit that cannot be written, or is too long for the
    /// length field, is refused.  The frame is valid where the unit is.
    pub fn new(payload: COTPPacket) -> (r: Result<Self, S7Error>)
        ensures
            match r {
                Ok(frame) => {
                    &&& frame@.encodable()
                    &&& frame.protocol_id == TPKT_VERSION
                    &&& frame.reserved == 0
                    &&& frame.length == frame@.written_length()
                    &&& frame.payload == payload
                    &&& frame@.wf() <==> payload@.wf()
                },
                Err(e) => {
                    &&& e == S7Error::InvalidLength
                    &&& !(payload@.encodable() && TPKT_HEADER_LEN + payload@.spec_encode().len()
                        <= MAX_FRAME_LEN)
                },
            },
    {
        let unit = payload.encode()?;
        if unit.len() > MAX_FRAME_LEN - TPKT_HEADER_LEN {
            return Err(S7Error::InvalidLength);
        }
        let length: u16 = (TPKT_HEADER_LEN + unit.len()) as u16;
        Ok(TPKTPacket { protocol_id: TPKT_VERSION, reserved: 0, length, payload })
    }

    /// Whether the frame is valid.
    pub fn is_valid(&self) -> (r: bool)
        ensures
            r == self@.wf(),
    {
        if self.protocol_id != TPKT_VERSION || self.reserved != 0 || !self.payload.is_valid() {
            return false;
        }
        match self.payload.encode() {
            Err(_) => false,
            Ok(unit) => unit.len() <= MAX_FRAME_LEN - TPKT_HEADER_LEN && self.length as usize
                == TPKT_HEADER_LEN + unit.len(),
        }
    }

    /// Writes the frame.  The total length is taken from the unit as it is
    /// written, not from the stored length.  A frame whose unit cannot be
    /// written, or is too long for the length field, cannot be written.
    pub fn encode(&self) -> (r: Result<Vec<u8>, S7Error>)
        ensures
            match r {
                Ok(bytes) => self@.encodable() && bytes@ == self@.spec_encode(),
                Err(e) => !self@.encodable() && e == S7Error::InvalidLength,
            },
    {
        let unit = self.payload.encode()?;
        if unit.len() > MAX_FRAME_LEN - TPKT_HEADER_LEN {
            return Err(S7Error::InvalidLength);
        }
        let mut out: Vec<u8> = Vec::new();
        out.push(self.protocol_id);
        out.push(self.reserved);
        push_be_u16(&mut out, (TPKT_HEADER_LEN + unit.len()) as u16);
        push_bytes(&mut out, unit.as_slice());
        Ok(out)
    }
}

/// The bytes of a frame, followed by anything: the header bytes, the unit
/// between the header and the written length, and what followed behind it.
proof fn lemma_frame_shape(frame: TPKTPacketView, tail: Seq<u8>)
    requires
        TPKT_HEADER_LEN + frame.payload.spec_encode().len() <= MAX_FRAME_LEN,
    ensures
        ({
            let input = frame.spec_encode() + tail;
            let length = frame.written_length();
            &&& frame.spec_encode().len() == length
            &&& input.len() == length + tail.len()
            &&& input[0] == frame.protocol_id
            &&& input[1] == frame.reserved
            &&& u16_from_be(input[2], input[3]) == length
            &&& input.subrange(TPKT_HEADER_LEN as int, length as int) == frame.payload.spec_encode()
            &&& input.skip(length as int) == tail
        }),
{
    let input = frame.spec_encode() + tail;
    let length = frame.written_length();
    lemma_u16_be_round_trip(length);
}

/// An input with a valid header, whose bytes between the header and the
/// declared end decode to a unit and leave nothing, decodes to the frame
/// around that unit.
proof fn lemma_frame_step(input: Seq<u8>, frame: TPKTPacketView)
    requires
        input.len() >= TPKT_HEADER_LEN,
        input[0] == TPKT_VERSION,
        input[1] == 0,
        frame.protocol_id == input[0],
        frame.reserved == input[1],
        frame.length == u16_from_be(input[2], input[3]),
        TPKT_HEADER_LEN <= frame.length <= input.len(),
        COTPPacketView::spec_parse(input.subrange(TPKT_HEADER_LEN as int, frame.length as int))
            == Ok::<(Seq<u8>, COTPPacketView), S7Error>((Seq::empty(), frame.payload)),
    ensures
        TPKTPacketView::spec_parse(input) == Ok::<(Seq<u8>, TPKTPacketView), S7Error>(
            (input.skip(frame.length as int), frame),
        ),
{
}

/// Decoding the bytes of a valid frame, followed by anything, gives the
/// frame back and leaves what followed.
pub proof fn lemma_frame_round_trip(frame: TPKTPacketView, tail: Seq<u8>)
    requires
        frame.wf(),
    ensures
        TPKTPacketView::spec_parse(frame.spec_encode() + tail) == Ok::<
            (Seq<u8>, TPKTPacketView),
            S7Error,
        >((tail, frame)),
{
    lemma_unit_round_trip(frame.payload, Seq::empty());
    lemma_concat_empty(frame.payload.spec_encode());
    lemma_frame_shape(frame, tail);
    lemma_frame_step(frame.spec_encode() + tail, frame);
}

/// What an input decodes to, where it decodes: the frame around the unit
/// between the header and the declared end, and the rest behind that end.
proof fn lemma_frame_decoded_parts(input: Seq<u8>)
    requires
        TPKTPacketView::spec_parse(input) is Ok,
    ensures
        ({
            let (rest, frame) = TPKTPacketView::spec_parse(input)->Ok_0;
            &&& input.len() >= TPKT_HEADER_LEN
            &&& frame.protocol_id == TPKT_VERSION && frame.protocol_id == input[0]
            &&& frame.reserved == 0 && frame.reserved == input[1]
            &&& frame.length == u16_from_be(input[2], input[3])
            &&& TPKT_HEADER_LEN <= frame.length <= input.len()
            &&& rest == input.skip(frame.length as int)
            &&& COTPPacketView::spec_parse(
                input.subrange(TPKT_HEADER_LEN as int, frame.length as int),
            ) == Ok::<(Seq<u8>, COTPPacketView), S7Error>((Seq::empty(), frame.payload))
        }),
{
    let length = spec_declared_length(input)->Ok_0;
    let unit = COTPPacketView::spec_parse(input.subrange(TPKT_HEADER_LEN as int, length as int));
    assert(unit->Ok_0.0 =~= Seq::<u8>::empty());
}

/// Where the unit of a frame is written as the input between the header and
/// the frame's length, and the header bytes are the frame's, the frame is
/// written as the input up to its length.
proof fn lemma_frame_bytes(input: Seq<u8>, frame: TPKTPacketView)
    requires
        input.len() >= TPKT_HEADER_LEN,
        frame.protocol_id == input[0],
        frame.reserved == input[1],
        frame.length == u16_from_be(input[2], input[3]),
        TPKT_HEADER_LEN <= frame.length <= input.len(),
        frame.payload.spec_encode() == input.subrange(
            TPKT_HEADER_LEN as int,
            frame.length as int,
        ),
    ensures
        frame.length == frame.written_length(),
        TPKT_HEADER_LEN + frame.payload.spec_encode().len() <= MAX_FRAME_LEN,
        frame.spec_encode() + input.skip(frame.length as int) == input,
{
    lemma_u16_be_written(input[2], input[3]);
}

/// A frame that was decoded is valid: its length is the length of the frame
/// as it is written.  Its bytes followed by what was left are the input, so
/// no two inputs decode to the same frame and rest.
pub proof fn lemma_frame_decoded_valid(input: Seq<u8>)
    requires
        TPKTPacketView::spec_parse(input) is Ok,
    ensures
        TPKTPacketView::spec_parse(input)->Ok_0.1.wf(),
        TPKTPacketView::spec_parse(input)->Ok_0.1.spec_encode() + TPKTPacketView::spec_parse(
            input,
        )->Ok_0.0 == input,
{
    let frame = TPKTPacketView::spec_parse(input)->Ok_0.1;
    lemma_frame_decoded_parts(input);
    lemma_unit_decoded_valid(input.subrange(TPKT_HEADER_LEN as int, frame.length as int));
    lemma_concat_empty(frame.payload.spec_encode());
    lemma_unit_encodable(frame.payload);
    lemma_frame_bytes(input, frame);
}

/// An input decodes to a frame and a rest exactly when the frame is valid and
/// the input is the frame's bytes followed by the rest.
pub proof fn lemma_frame_decodes_iff(input: Seq<u8>, rest: Seq<u8>, frame: TPKTPacketView)
    ensures
        TPKTPacketView::spec_parse(input) == Ok::<(Seq<u8>, TPKTPacketView), S7Error>(
            (rest, frame),
        ) <==> frame.wf() && input == frame.spec_encode() + rest,
{
    if TPKTPacketView::spec_parse(input) == Ok::<(Seq<u8>, TPKTPacketView), S7Error>(
        (rest, frame),
    ) {
        lemma_frame_decoded_valid(input);
    }
    if frame.wf() && input == frame.spec_encode() + rest {
        lemma_frame_round_trip(frame, rest);
    }
}

/// An input that ends before its declared length is refused: as truncated
/// while the header is incomplete, and as a length mismatch once the header
/// shows that bytes are missing.
proof fn lemma_short_frame_rejected(input: Seq<u8>)
    requires
        input.len() >= TPKT_HEADER_LEN ==> input[0] == TPKT_VERSION && input[1] == 0
            && TPKT_HEADER_LEN <= u16_from_be(input[2], input[3]) && input.len() < u16_from_be(
            input[2],
            input[3],
        ),
    ensures
        TPKTPacketView::spec_parse(input) == Err::<(Seq<u8>, TPKTPacketView), S7Error>(
            if input.len() < TPKT_HEADER_LEN {
                S7Error::TruncatedInput
            } else {
                S7Error::LengthMismatch
            },
        ),
{
}

/// Decoding a strict prefix of the bytes of a valid frame fails: with a
/// truncated input while the header is incomplete, and with a length
/// mismatch once the header shows that bytes are missing.
pub proof fn lemma_frame_prefix_rejected(frame: TPKTPacketView, len: int)
    requires
        frame.wf(),
        0 <= len < frame.spec_encode().len(),
    ensures
        TPKTPacketView::spec_parse(frame.spec_encode().take(len)) == Err::<
            (Seq<u8>, TPKTPacketView),
            S7Error,
        >(
            if len < TPKT_HEADER_LEN {
                S7Error::TruncatedInput
            } else {
                S7Error::LengthMismatch
            },
        ),
{
    lemma_frame_shape(frame, Seq::empty());
    lemma_short_frame_rejected(frame.spec_encode().take(len));
}

/// Whatever the input, a frame fails to decode only as malformed input.
pub proof fn lemma_frame_fails_as_malformed(input: Seq<u8>)
    ensures
        fails_as_malformed(spec_declared_length(input)),
        fails_as_malformed(TPKTPacketView::spec_parse(input)),
{
    if spec_declared_length(input) is Ok {
        let length = spec_declared_length(input)->Ok_0;
        if length <= input.len() {
            lemma_unit_fails_as_malformed(
                input.subrange(TPKT_HEADER_LEN as int, length as int),
            );
        }
    }
}

} // verus!
