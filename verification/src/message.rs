//! The S7 application message: header, optional parameter section and
//! optional payload section.  The two length fields of the header alone
//! decide which sections are present and where they end.

use vstd::prelude::*;
use crate::codes::ParameterType;
use crate::error::{fails_as_malformed, S7Error};
use crate::header::{
    lemma_header_decoded_valid, lemma_header_encoded_len, lemma_header_fails_as_malformed,
    lemma_header_round_trip, MessageType, S7Header, S7_HEADER_LEN, S7_PROTOCOL_ID,
};
use crate::parameters::{
    lemma_parameters_first_byte,
    lemma_parameters_encoded_len, lemma_parameters_fail_as_malformed, lemma_parameters_round_trip,
    lemma_section_decoded_valid, S7Parameters, S7ParametersView,
};
use crate::payload::{
    lemma_payload_fails_as_malformed, lemma_payload_items_decoded_valid,
    lemma_payload_items_encoded_len, lemma_payload_round_trip, S7Payload, S7PayloadView,
};
use crate::wire::{
    lemma_concat_assoc, lemma_concat_empty, lemma_concat_take, lemma_take_skip, parsed, push_bytes,
    Parsed,
};

verus! {

/// An S7 message as a mathematical value.
pub struct S7MessageView {
    /// The header.
    pub header: S7Header,
    /// The parameter section, if the header announces one.
    pub parameters: Option<S7ParametersView>,
    /// The payload section, if the header announces one.
    pub payload: Option<S7PayloadView>,
}

/// Decoding the parameter section that a header announces with `length`:
/// none for a length of zero.
pub open spec fn spec_parse_announced_parameters(input: Seq<u8>, length: u16) -> Parsed<
    Option<S7ParametersView>,
> {
    if length > 0 {
        match S7ParametersView::spec_parse(input, length) {
            Err(e) => Err(e),
            Ok((rest, parameters)) => Ok((rest, Some(parameters))),
        }
    } else {
        Ok((input, None))
    }
}

/// Decoding the payload section that a header announces with `length`: none
/// for a length of zero.
pub open spec fn spec_parse_announced_payload(input: Seq<u8>, length: u16) -> Parsed<
    Option<S7PayloadView>,
> {
    if length > 0 {
        match S7PayloadView::spec_parse(input, length) {
            Err(e) => Err(e),
            Ok((rest, payload)) => Ok((rest, Some(payload))),
        }
    } else {
        Ok((input, None))
    }
}

impl S7MessageView {
    /// The bytes of the parameter section; none where there is no section.
    pub open spec fn parameter_bytes(self) -> Seq<u8> {
        match self.parameters {
            Some(parameters) => parameters.spec_encode(),
            None => Seq::empty(),
        }
    }

    /// The bytes of the payload section; none where there is no section.
    pub open spec fn payload_bytes(self) -> Seq<u8> {
        match self.payload {
            Some(payload) => payload.spec_encode(),
            None => Seq::empty(),
        }
    }

    /// A message can be written when each section that it holds is valid.
    pub open spec fn encodable(self) -> bool {
        &&& self.parameters matches Some(parameters) ==> parameters.wf()
        &&& self.payload matches Some(payload) ==> payload.wf()
    }

    /// The header that is written: the message's own, with the two length
    /// fields set to the lengths of the sections as they are written.
    pub open spec fn written_header(self) -> S7Header {
        S7Header {
            parameter_length: self.parameter_bytes().len() as u16,
            data_length: self.payload_bytes().len() as u16,
            ..self.header
        }
    }

    /// A message is valid when it can be written, its header is valid and
    /// announces the sections exactly as they are, and a payload that is
    /// present holds at least one item.
    pub open spec fn wf(self) -> bool {
        &&& self.encodable()
        &&& self.header.wf()
        &&& self.header == self.written_header()
        &&& self.payload matches Some(payload) ==> payload.items.len() > 0
    }

    /// The bytes of a message that can be written: the written header, the
    /// parameter section and the payload section.
    pub open spec fn spec_encode(self) -> Seq<u8>
        recommends
            self.encodable(),
    {
        self.written_header().spec_encode() + self.parameter_bytes() + self.payload_bytes()
    }

    /// Decoding a message from the front of `input`: the header, then the
    /// parameter section if the header's parameter length is not zero, then
    /// the payload section if its data length is not zero.
    pub open spec fn spec_parse(input: Seq<u8>) -> Parsed<S7MessageView> {
        match S7Header::spec_parse(input) {
            Err(e) => Err(e),
            Ok((rest, header)) => match spec_parse_announced_parameters(
                rest,
                header.parameter_length,
            ) {
                Err(e) => Err(e),
                Ok((rest, parameters)) => match spec_parse_announced_payload(
                    rest,
                    header.data_length,
                ) {
                    Err(e) => Err(e),
                    Ok((rest, payload)) => Ok(
                        (rest, S7MessageView { header, parameters, payload }),
                    ),
                },
            },
        }
    }
}

/// An S7 application message.
#[derive(Debug, Clone, PartialEq, Eq)]
pub struct S7Message {
    /// The header.
    pub header: S7Header,
    /// The parameter section, present exactly when the header's parameter
    /// length is not zero.
    pub parameters: Option<S7Parameters>,
    /// The payload section, present exactly when the header's data length is
    /// not zero.
    pub payload: Option<S7Payload>,
}

impl View for S7Message {
    type V = S7MessageView;

    open spec fn view(&self) -> S7MessageView {
        S7MessageView {
            header: self.header,
            parameters: match self.parameters {
                Some(parameters) => Some(parameters@),
                None => None,
            },
            payload: match self.payload {
                Some(payload) => Some(payload@),
                None => None,
            },
        }
    }
}

impl S7Message {
    /// Decodes a message from the front of `input` and hands back the bytes
    /// behind it.
    pub fn parse(input: &[u8]) -> (r: Result<(&[u8], Self), S7Error>)
        ensures
            parsed(r) == S7MessageView::spec_parse(input@),
    {
        let (rest, header) = S7Header::parse(input)?;
        let (rest, parameters) = if header.parameter_length > 0 {
            let (rest, found) = S7Parameters::parse(rest, header.parameter_length)?;
            (rest, Some(found))
        } else {
            (rest, None)
        };
        let (rest, payload) = if header.data_length > 0 {
            let (rest, found) = S7Payload::parse(rest, header.data_length)?;
            (rest, Some(found))
        } else {
            (rest, None)
        };
        Ok((rest, S7Message { header, parameters, payload }))
    }

    /// A valid message of the given kind and reference around the given
    /// sections.  The header announces the sections as they are written.  A
    /// section that is not valid, or a payload without items, is refused.
    pub fn new(
        message_type: MessageType,
        pdu_reference: u16,
        parameters: Option<S7Parameters>,
        payload: Option<S7Payload>,
    ) -> (r: Result<Self, S7Error>)
        ensures
            match r {
                Ok(message) => {
                    &&& message@.wf()
                    &&& message.header.message_type == message_type
                    &&& message.header.pdu_reference == pdu_reference
                    &&& message.header.reserved == 0
                    &&& message.parameters == parameters
                    &&& message.payload == payload
                },
                Err(e) => {
                    &&& e == S7Error::InvalidLength
                    &&& !(parameters matches Some(found) ==> found@.wf()) || !(payload matches Some(
                        found,
                    ) ==> found@.wf() && found@.items.len() > 0)
                },
            },
    {
        let parameter_length: usize = match &parameters {
            Some(found) => {
                proof {
                    if found@.wf() {
                        lemma_parameters_encoded_len(found@);
                    }
                }
                found.encode()?.len()
            },
            None => 0,
        };
        let data_length: usize = match &payload {
            Some(found) => {
                if found.items.len() == 0 {
                    return Err(S7Error::InvalidLength);
                }
                found.encode()?.len()
            },
            None => 0,
        };
        Ok(
            S7Message {
                header: S7Header {
                    protocol_id: S7_PROTOCOL_ID,
                    message_type,
                    reserved: 0,
                    pdu_reference,
                    parameter_length: parameter_length as u16,
                    data_length: data_length as u16,
                },
                parameters,
                payload,
            },
        )
    }

    /// Whether the message is valid.
    pub fn is_valid(&self) -> (r: bool)
        ensures
            r == self@.wf(),
    {
        let parameter_length: usize = match &self.parameters {
            Some(found) => {
                proof {
                    if found@.wf() {
                        lemma_parameters_encoded_len(found@);
                    }
                }
                match found.encode() {
                    Ok(bytes) => bytes.len(),
                    Err(_) => {
                        return false;
                    },
                }
            },
            None => 0,
        };
        let data_length: usize = match &self.payload {
            Some(found) => {
                if found.items.len() == 0 {
                    return false;
                }
                match found.encode() {
                    Ok(bytes) => bytes.len(),
                    Err(_) => {
                        return false;
                    },
                }
            },
            None => 0,
        };
        self.header.protocol_id == S7_PROTOCOL_ID && self.header.parameter_length as usize
            == parameter_length && self.header.data_length as usize == data_length
    }

    /// Writes the message.  The two length fields of the header are taken
    /// from the sections as they are written, not from the stored header.  A
    /// message that holds a section that is not valid cannot be written.
    pub fn encode(&self) -> (r: Result<Vec<u8>, S7Error>)
        ensures
            match r {
                Ok(bytes) => self@.encodable() && bytes@ == self@.spec_encode(),
                Err(e) => !self@.encodable() && e == S7Error::InvalidLength,
            },
    {
        let parameter_bytes = match &self.parameters {
            Some(parameters) => {
                proof {
                    if parameters@.wf() {
                        lemma_parameters_encoded_len(parameters@);
                    }
                }
                parameters.encode()?
            },
            None => Vec::new(),
        };
        let payload_bytes = match &self.payload {
            Some(payload) => payload.encode()?,
            None => Vec::new(),
        };
        let header = S7Header {
            protocol_id: self.header.protocol_id,
            message_type: self.header.message_type,
            reserved: self.header.reserved,
            pdu_reference: self.header.pdu_reference,
            parameter_length: parameter_bytes.len() as u16,
            data_length: payload_bytes.len() as u16,
        };
        let mut out = header.encode();
        push_bytes(&mut out, parameter_bytes.as_slice());
        push_bytes(&mut out, payload_bytes.as_slice());
        Ok(out)
    }
}

/// The sections of a message that can be written fit their length fields.
pub proof fn lemma_message_section_lens(message: S7MessageView)
    requires
        message.encodable(),
    ensures
        message.parameter_bytes().len() <= 65535,
        message.payload_bytes().len() <= 65535,
        message.parameters is Some ==> message.parameter_bytes().len() > 0,
        message.payload matches Some(payload) ==> (payload.items.len() > 0
            ==> message.payload_bytes().len() > 0),
        message.spec_encode().len() == S7_HEADER_LEN + message.parameter_bytes().len()
            + message.payload_bytes().len(),
{
    if message.parameters is Some {
        lemma_parameters_encoded_len(message.parameters->Some_0);
    }
    if message.payload is Some {
        lemma_payload_items_encoded_len(message.payload->Some_0.items);
    }
}

/// The bytes of a message, followed by anything, are the written header,
/// then the parameter section, then the payload section and what followed.
proof fn lemma_message_shape(message: S7MessageView, tail: Seq<u8>)
    ensures
        message.spec_encode() + tail == message.written_header().spec_encode() + (
            message.parameter_bytes() + (message.payload_bytes() + tail)),
        message.spec_encode() == message.written_header().spec_encode() + (
            message.parameter_bytes() + message.payload_bytes()),
{
    let h = message.written_header().spec_encode();
    let p = message.parameter_bytes();
    let d = message.payload_bytes();
    lemma_concat_assoc(h, p, d);
    lemma_concat_assoc(h, p + d, tail);
    lemma_concat_assoc(p, d, tail);
}

/// The header of a valid message is found again in front of its sections.
proof fn lemma_written_header_round_trip(message: S7MessageView, tail: Seq<u8>)
    requires
        message.wf(),
    ensures
        S7Header::spec_parse(message.spec_encode() + tail) == Ok::<(Seq<u8>, S7Header), S7Error>(
            (message.parameter_bytes() + (message.payload_bytes() + tail), message.header),
        ),
{
    lemma_message_shape(message, tail);
    lemma_header_round_trip(
        message.header,
        message.parameter_bytes() + (message.payload_bytes() + tail),
    );
}

/// The parameter section of a message that can be written is found again
/// under its own length.
proof fn lemma_announced_parameters_round_trip(message: S7MessageView, tail: Seq<u8>)
    requires
        message.encodable(),
    ensures
        spec_parse_announced_parameters(
            message.parameter_bytes() + tail,
            message.parameter_bytes().len() as u16,
        ) == Ok::<(Seq<u8>, Option<S7ParametersView>), S7Error>((tail, message.parameters)),
{
    match message.parameters {
        Some(parameters) => {
            lemma_parameters_encoded_len(parameters);
            lemma_parameters_round_trip(parameters, tail);
        },
        None => {
            lemma_concat_empty(tail);
        },
    }
}

/// The payload section of a valid message is found again under its own
/// length.
proof fn lemma_announced_payload_round_trip(message: S7MessageView, tail: Seq<u8>)
    requires
        message.encodable(),
        message.payload matches Some(payload) ==> payload.items.len() > 0,
    ensures
        spec_parse_announced_payload(
            message.payload_bytes() + tail,
            message.payload_bytes().len() as u16,
        ) == Ok::<(Seq<u8>, Option<S7PayloadView>), S7Error>((tail, message.payload)),
{
    match message.payload {
        Some(payload) => {
            lemma_payload_items_encoded_len(payload.items);
            lemma_payload_round_trip(payload, tail);
        },
        None => {
            lemma_concat_empty(tail);
        },
    }
}

/// The three steps of decoding a message, put together.
proof fn lemma_parse_steps(
    input: Seq<u8>,
    behind_header: Seq<u8>,
    behind_parameters: Seq<u8>,
    rest: Seq<u8>,
    message: S7MessageView,
)
    requires
        S7Header::spec_parse(input) == Ok::<(Seq<u8>, S7Header), S7Error>(
            (behind_header, message.header),
        ),
        spec_parse_announced_parameters(behind_header, message.header.parameter_length) == Ok::<
            (Seq<u8>, Option<S7ParametersView>),
            S7Error,
        >((behind_parameters, message.parameters)),
        spec_parse_announced_payload(behind_parameters, message.header.data_length) == Ok::<
            (Seq<u8>, Option<S7PayloadView>),
            S7Error,
        >((rest, message.payload)),
    ensures
        S7MessageView::spec_parse(input) == Ok::<(Seq<u8>, S7MessageView), S7Error>(
            (rest, message),
        ),
{
}

/// Decoding the bytes of a valid message, followed by anything, gives the
/// message back and leaves what followed.
pub proof fn lemma_message_round_trip(message: S7MessageView, tail: Seq<u8>)
    requires
        message.wf(),
    ensures
        S7MessageView::spec_parse(message.spec_encode() + tail) == Ok::<
            (Seq<u8>, S7MessageView),
            S7Error,
        >((tail, message)),
{
    let behind_parameters = message.payload_bytes() + tail;
    let behind_header = message.parameter_bytes() + behind_parameters;
    lemma_written_header_round_trip(message, tail);
    lemma_announced_parameters_round_trip(message, behind_parameters);
    lemma_announced_payload_round_trip(message, tail);
    lemma_parse_steps(
        message.spec_encode() + tail,
        behind_header,
        behind_parameters,
        tail,
        message,
    );
}

/// An announced parameter section that was decoded is valid, is present
/// exactly where the announced length is not zero, and its bytes followed by
/// what was left are the input.
proof fn lemma_announced_parameters_decoded_valid(input: Seq<u8>, length: u16)
    requires
        spec_parse_announced_parameters(input, length) is Ok,
    ensures
        ({
            let (rest, parameters) = spec_parse_announced_parameters(input, length)->Ok_0;
            let bytes = match parameters {
                Some(found) => found.spec_encode(),
                None => Seq::empty(),
            };
            &&& parameters is Some <==> length > 0
            &&& parameters matches Some(found) ==> found.wf()
            &&& bytes.len() == length
            &&& bytes + rest == input
        }),
{
    if length > 0 {
        lemma_section_decoded_valid(input.take(length as int));
        lemma_take_skip(input, length as int);
    } else {
        lemma_concat_empty(input);
    }
}

/// An announced payload section that was decoded is valid, is present
/// exactly where the announced length is not zero, holds an item where it is
/// present, and its bytes followed by what was left are the input.
proof fn lemma_announced_payload_decoded_valid(input: Seq<u8>, length: u16)
    requires
        spec_parse_announced_payload(input, length) is Ok,
    ensures
        ({
            let (rest, payload) = spec_parse_announced_payload(input, length)->Ok_0;
            let bytes = match payload {
                Some(found) => found.spec_encode(),
                None => Seq::empty(),
            };
            &&& payload is Some <==> length > 0
            &&& payload matches Some(found) ==> found.wf() && found.items.len() > 0
            &&& bytes.len() == length
            &&& bytes + rest == input
        }),
{
    if length > 0 {
        lemma_payload_items_decoded_valid(input.take(length as int));
        lemma_take_skip(input, length as int);
    } else {
        lemma_concat_empty(input);
    }
}

/// A message whose header and sections are valid, are written as the parts
/// of an input, and agree in the two lengths, is valid and is written as the
/// input.
proof fn lemma_message_assembled(
    input: Seq<u8>,
    behind_header: Seq<u8>,
    behind_parameters: Seq<u8>,
    rest: Seq<u8>,
    message: S7MessageView,
)
    requires
        message.header.wf(),
        message.header.spec_encode() + behind_header == input,
        message.parameters matches Some(found) ==> found.wf(),
        message.payload matches Some(found) ==> found.wf() && found.items.len() > 0,
        message.parameter_bytes().len() == message.header.parameter_length,
        message.parameter_bytes() + behind_parameters == behind_header,
        message.payload_bytes().len() == message.header.data_length,
        message.payload_bytes() + rest == behind_parameters,
    ensures
        message.wf(),
        message.spec_encode() + rest == input,
{
    lemma_message_shape(message, rest);
}

/// A message that was decoded is valid: each section is present exactly
/// where the header announces it with a length above zero, and has that
/// length.  Its bytes followed by what was left are the input, so no two
/// inputs decode to the same message and rest.
pub proof fn lemma_message_decoded_valid(input: Seq<u8>)
    requires
        S7MessageView::spec_parse(input) is Ok,
    ensures
        ({
            let (rest, message) = S7MessageView::spec_parse(input)->Ok_0;
            &&& message.wf()
            &&& message.parameters is Some <==> message.header.parameter_length > 0
            &&& message.payload is Some <==> message.header.data_length > 0
            &&& message.spec_encode() + rest == input
        }),
{
    let (behind_header, header) = S7Header::spec_parse(input)->Ok_0;
    let (behind_parameters, parameters) = spec_parse_announced_parameters(
        behind_header,
        header.parameter_length,
    )->Ok_0;
    let (rest, payload) = spec_parse_announced_payload(behind_parameters, header.data_length)->Ok_0;
    lemma_header_decoded_valid(input);
    lemma_announced_parameters_decoded_valid(behind_header, header.parameter_length);
    lemma_announced_payload_decoded_valid(behind_parameters, header.data_length);
    lemma_message_assembled(
        input,
        behind_header,
        behind_parameters,
        rest,
        S7MessageView { header, parameters, payload },
    );
}

/// An input decodes to a message and a rest exactly when the message is
/// valid and the input is the message's bytes followed by the rest.
pub proof fn lemma_message_decodes_iff(input: Seq<u8>, rest: Seq<u8>, message: S7MessageView)
    ensures
        S7MessageView::spec_parse(input) == Ok::<(Seq<u8>, S7MessageView), S7Error>(
            (rest, message),
        ) <==> message.wf() && input == message.spec_encode() + rest,
{
    if S7MessageView::spec_parse(input) == Ok::<(Seq<u8>, S7MessageView), S7Error>(
        (rest, message),
    ) {
        lemma_message_decoded_valid(input);
    }
    if message.wf() && input == message.spec_encode() + rest {
        lemma_message_round_trip(message, rest);
    }
}

/// Where the header announces parameters and the byte behind the header is
/// no parameter type, that byte is rejected and recorded, however much of
/// the announced section is there.
pub proof fn lemma_unknown_parameter_type_in_message(input: Seq<u8>)
    requires
        S7Header::spec_parse(input) is Ok,
        S7Header::spec_parse(input)->Ok_0.1.parameter_length > 0,
        input.len() > S7_HEADER_LEN,
        ParameterType::spec_from_code(input[S7_HEADER_LEN as int]) is Err,
    ensures
        S7MessageView::spec_parse(input) == Err::<(Seq<u8>, S7MessageView), S7Error>(
            S7Error::InvalidParameterType(input[S7_HEADER_LEN as int]),
        ),
{
}

/// An input that ends within the header is truncated.
proof fn lemma_truncated_in_header(input: Seq<u8>)
    requires
        input.len() < S7_HEADER_LEN,
    ensures
        S7MessageView::spec_parse(input) == Err::<(Seq<u8>, S7MessageView), S7Error>(
            S7Error::TruncatedInput,
        ),
{
}

/// An input that ends within the announced parameter section, and whose
/// section begins with a known type where it begins at all, is truncated.
proof fn lemma_truncated_in_parameters(input: Seq<u8>, behind_header: Seq<u8>, header: S7Header)
    requires
        S7Header::spec_parse(input) == Ok::<(Seq<u8>, S7Header), S7Error>(
            (behind_header, header),
        ),
        behind_header.len() < header.parameter_length,
        behind_header.len() >= 1 ==> ParameterType::spec_from_code(behind_header[0]) is Ok,
    ensures
        S7MessageView::spec_parse(input) == Err::<(Seq<u8>, S7MessageView), S7Error>(
            S7Error::TruncatedInput,
        ),
{
}

/// An input that ends within the announced payload section is truncated.
proof fn lemma_truncated_in_payload(
    input: Seq<u8>,
    behind_header: Seq<u8>,
    header: S7Header,
    behind_parameters: Seq<u8>,
    parameters: Option<S7ParametersView>,
)
    requires
        S7Header::spec_parse(input) == Ok::<(Seq<u8>, S7Header), S7Error>(
            (behind_header, header),
        ),
        spec_parse_announced_parameters(behind_header, header.parameter_length) == Ok::<
            (Seq<u8>, Option<S7ParametersView>),
            S7Error,
        >((behind_parameters, parameters)),
        behind_parameters.len() < header.data_length,
    ensures
        S7MessageView::spec_parse(input) == Err::<(Seq<u8>, S7MessageView), S7Error>(
            S7Error::TruncatedInput,
        ),
{
}

/// Decoding a strict prefix of the bytes of a valid message reports a
/// truncated input.
pub proof fn lemma_message_prefix_truncated(message: S7MessageView, len: int)
    requires
        message.wf(),
        0 <= len < message.spec_encode().len(),
    ensures
        S7MessageView::spec_parse(message.spec_encode().take(len)) == Err::<
            (Seq<u8>, S7MessageView),
            S7Error,
        >(S7Error::TruncatedInput),
{
    let h = message.header.spec_encode();
    let p = message.parameter_bytes();
    let d = message.payload_bytes();
    let input = message.spec_encode().take(len);
    lemma_message_section_lens(message);
    lemma_message_shape(message, Seq::empty());
    lemma_header_encoded_len(message.header);
    if len < S7_HEADER_LEN {
        lemma_truncated_in_header(input);
    } else {
        let behind_header = (p + d).take(len - S7_HEADER_LEN);
        lemma_concat_take(h, p + d, len);
        lemma_header_round_trip(message.header, behind_header);
        if len - S7_HEADER_LEN < p.len() {
            lemma_parameters_first_byte(message.parameters->Some_0);
            lemma_concat_take(p, d, len - S7_HEADER_LEN);
            lemma_truncated_in_parameters(input, behind_header, message.header);
        } else {
            let behind_parameters = d.take(len - S7_HEADER_LEN - p.len());
            lemma_concat_take(p, d, len - S7_HEADER_LEN);
            lemma_announced_parameters_round_trip(message, behind_parameters);
            lemma_truncated_in_payload(
                input,
                behind_header,
                message.header,
                behind_parameters,
                message.parameters,
            );
        }
    }
}

/// Whatever the input, a message fails to decode only as malformed input.
pub proof fn lemma_message_fails_as_malformed(input: Seq<u8>)
    ensures
        fails_as_malformed(S7MessageView::spec_parse(input)),
{
    lemma_header_fails_as_malformed(input);
    if S7Header::spec_parse(input) is Ok {
        let (behind_header, header) = S7Header::spec_parse(input)->Ok_0;
        lemma_parameters_fail_as_malformed(behind_header, header.parameter_length);
        let parameters = spec_parse_announced_parameters(behind_header, header.parameter_length);
        if parameters is Ok {
            lemma_payload_fails_as_malformed(parameters->Ok_0.0, header.data_length);
        }
    }
}

} // verus!
