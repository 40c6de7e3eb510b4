//! The body of a COTP connection request or response: references, class,
//! and connection parameters that describe themselves by code and length.

use vstd::prelude::*;
use crate::error::{fails_as_malformed, S7Error};
use crate::wire::{
    lemma_concat_assoc, lemma_concat_empty, lemma_first_and_others, lemma_others_of_first,
    lemma_u16_be_round_trip, lemma_u16_be_written, parsed, push_be_u16, read_be_u16, read_u8,
    u16_from_be, u16_to_be, Parsed,
};

verus! {

/// The code of the TPDU size parameter.
pub const PARAM_TPDU_SIZE: u8 = 0xC0;

/// The code of the source TSAP parameter.
pub const PARAM_SRC_TSAP: u8 = 0xC1;

/// The code of the destination TSAP parameter.
pub const PARAM_DST_TSAP: u8 = 0xC2;

/// The number of bytes in front of the parameters of a connection body.
pub const CONNECTION_FIXED_LEN: usize = 5;

/// One parameter of a COTP connection request or response.
#[derive(Debug, Clone, Copy, PartialEq, Eq, Structural)]
pub enum ConnectionParameter {
    /// The largest TPDU that the sender accepts, as a size code.
    TpduSize(u8),
    /// The transport service access point of the calling side.
    SrcTsap(u16),
    /// The transport service access point of the called side.
    DstTsap(u16),
}

impl View for ConnectionParameter {
    type V = ConnectionParameter;

    open spec fn view(&self) -> ConnectionParameter {
        *self
    }
}

impl ConnectionParameter {
    /// The bytes of the parameter: its code, the length of its value, and
    /// the value.
    pub open spec fn spec_encode(self) -> Seq<u8> {
        match self {
            ConnectionParameter::TpduSize(size) => seq![PARAM_TPDU_SIZE, 1u8, size],
            ConnectionParameter::SrcTsap(tsap) => seq![PARAM_SRC_TSAP, 2u8] + u16_to_be(tsap),
            ConnectionParameter::DstTsap(tsap) => seq![PARAM_DST_TSAP, 2u8] + u16_to_be(tsap),
        }
    }

    /// Decoding a parameter from the front of `input`.  Code and length byte
    /// must be there.  An unknown code is rejected and recorded.  A length
    /// byte that is not the length of the value that the code stands for is
    /// a length mismatch.  Then the value must be there.
    pub open spec fn spec_parse(input: Seq<u8>) -> Parsed<ConnectionParameter> {
        if input.len() < 2 {
            Err(S7Error::TruncatedInput)
        } else if input[0] == PARAM_TPDU_SIZE {
            if input[1] != 1 {
                Err(S7Error::LengthMismatch)
            } else if input.len() < 3 {
                Err(S7Error::TruncatedInput)
            } else {
                Ok((input.skip(3), ConnectionParameter::TpduSize(input[2])))
            }
        } else if input[0] == PARAM_SRC_TSAP || input[0] == PARAM_DST_TSAP {
            if input[1] != 2 {
                Err(S7Error::LengthMismatch)
            } else if input.len() < 4 {
                Err(S7Error::TruncatedInput)
            } else if input[0] == PARAM_SRC_TSAP {
                Ok((input.skip(4), ConnectionParameter::SrcTsap(u16_from_be(input[2], input[3]))))
            } else {
                Ok((input.skip(4), ConnectionParameter::DstTsap(u16_from_be(input[2], input[3]))))
            }
        } else {
            Err(S7Error::UnknownParameterCode(input[0]))
        }
    }

    /// Decodes a parameter from the front of `input` and hands back the
    /// bytes behind it.
    pub fn parse(input: &[u8]) -> (r: Result<(&[u8], Self), S7Error>)
        ensures
            parsed(r) == Self::spec_parse(input@),
    {
        let (rest, code) = read_u8(input)?;
        let (rest, length) = read_u8(rest)?;
        if code == PARAM_TPDU_SIZE {
            if length != 1 {
                return Err(S7Error::LengthMismatch);
            }
            let (rest, size) = read_u8(rest)?;
            assert(rest@ =~= input@.skip(3));
            Ok((rest, ConnectionParameter::TpduSize(size)))
        } else if code == PARAM_SRC_TSAP || code == PARAM_DST_TSAP {
            if length != 2 {
                return Err(S7Error::LengthMismatch);
            }
            let (rest, tsap) = read_be_u16(rest)?;
            assert(rest@ =~= input@.skip(4));
            if code == PARAM_SRC_TSAP {
                Ok((rest, ConnectionParameter::SrcTsap(tsap)))
            } else {
                Ok((rest, ConnectionParameter::DstTsap(tsap)))
            }
        } else {
            Err(S7Error::UnknownParameterCode(code))
        }
    }

    /// Decodes parameters from `input` until it is used up.  What is handed
    /// back as the rest is empty.
    pub fn parse_all(input: &[u8]) -> (r: Result<(&[u8], Vec<Self>), S7Error>)
        ensures
            parsed(r) == spec_parse_all(input@),
    {
        let mut parameters: Vec<ConnectionParameter> = Vec::new();
        let mut remaining = input;
        while remaining.len() > 0
            invariant
                spec_parse_all(input@) == after_parameters(
                    parameters@,
                    spec_parse_all(remaining@),
                ),
            decreases remaining.len(),
        {
            let ghost before = parameters@;
            let (rest, parameter) = Self::parse(remaining)?;
            proof {
                let next = spec_parse_all(rest@);
                if next is Ok {
                    assert(before + (seq![parameter] + next->Ok_0.1) =~= before.push(parameter)
                        + next->Ok_0.1);
                }
            }
            parameters.push(parameter);
            remaining = rest;
        }
        assert(remaining@ =~= Seq::<u8>::empty());
        Ok((remaining, parameters))
    }

    /// Appends the bytes of the parameter.
    pub fn encode_into(&self, out: &mut Vec<u8>)
        ensures
            final(out)@ == old(out)@ + self.spec_encode(),
    {
        match self {
            ConnectionParameter::TpduSize(size) => {
                out.push(PARAM_TPDU_SIZE);
                out.push(1);
                out.push(*size);
            },
            ConnectionParameter::SrcTsap(tsap) => {
                out.push(PARAM_SRC_TSAP);
                out.push(2);
                push_be_u16(out, *tsap);
            },
            ConnectionParameter::DstTsap(tsap) => {
                out.push(PARAM_DST_TSAP);
                out.push(2);
                push_be_u16(out, *tsap);
            },
        }
    }
}

/// Decoding parameters from `input` until it is used up.
pub open spec fn spec_parse_all(input: Seq<u8>) -> Parsed<Seq<ConnectionParameter>>
    decreases input.len(),
{
    if input.len() == 0 {
        Ok((Seq::empty(), Seq::empty()))
    } else {
        match ConnectionParameter::spec_parse(input) {
            Err(e) => Err(e),
            Ok((rest, parameter)) => after_parameters(seq![parameter], spec_parse_all(rest)),
        }
    }
}

/// The result of a list that begins with `parameters` and goes on as
/// `others` says.
pub open spec fn after_parameters(
    parameters: Seq<ConnectionParameter>,
    others: Parsed<Seq<ConnectionParameter>>,
) -> Parsed<Seq<ConnectionParameter>> {
    match others {
        Err(e) => Err(e),
        Ok((rest, more)) => Ok((rest, parameters + more)),
    }
}

/// The bytes of a list of parameters, one after the other.
pub open spec fn spec_encode_all(parameters: Seq<ConnectionParameter>) -> Seq<u8>
    decreases parameters.len(),
{
    if parameters.len() == 0 {
        Seq::empty()
    } else {
        parameters[0].spec_encode() + spec_encode_all(parameters.skip(1))
    }
}

/// A list that begins with `parameter` is written as the parameter's bytes
/// followed by the bytes of the other parameters.
pub proof fn lemma_encode_all_first(
    parameter: ConnectionParameter,
    others: Seq<ConnectionParameter>,
)
    ensures
        spec_encode_all(seq![parameter] + others) == parameter.spec_encode() + spec_encode_all(
            others,
        ),
{
    lemma_others_of_first(parameter, others);
}

/// Writing one more parameter behind a list appends the parameter's bytes.
pub proof fn lemma_encode_all_push(
    parameters: Seq<ConnectionParameter>,
    parameter: ConnectionParameter,
)
    ensures
        spec_encode_all(parameters.push(parameter)) == spec_encode_all(parameters)
            + parameter.spec_encode(),
    decreases parameters.len(),
{
    if parameters.len() == 0 {
        assert(parameters.push(parameter) =~= seq![parameter]
            + Seq::<ConnectionParameter>::empty());
        lemma_encode_all_first(parameter, Seq::empty());
        lemma_concat_empty(parameter.spec_encode());
    } else {
        let first = parameters[0];
        let others = parameters.skip(1);
        lemma_first_and_others(parameters);
        lemma_encode_all_push(others, parameter);
        lemma_encode_all_first(first, others.push(parameter));
        lemma_encode_all_first(first, others);
        lemma_concat_assoc(first.spec_encode(), spec_encode_all(others), parameter.spec_encode());
    }
}

/// Decoding the bytes of a parameter, followed by anything, gives the
/// parameter back and leaves what followed.
pub proof fn lemma_parameter_round_trip(parameter: ConnectionParameter, tail: Seq<u8>)
    ensures
        ConnectionParameter::spec_parse(parameter.spec_encode() + tail) == Ok::<
            (Seq<u8>, ConnectionParameter),
            S7Error,
        >((tail, parameter)),
        parameter.spec_encode().len() >= 3,
{
    let input = parameter.spec_encode() + tail;
    match parameter {
        ConnectionParameter::TpduSize(size) => {
            assert(input.skip(3) =~= tail);
        },
        ConnectionParameter::SrcTsap(tsap) => {
            lemma_u16_be_round_trip(tsap);
            assert(input.skip(4) =~= tail);
        },
        ConnectionParameter::DstTsap(tsap) => {
            lemma_u16_be_round_trip(tsap);
            assert(input.skip(4) =~= tail);
        },
    }
}

/// The bytes of a parameter that was decoded, followed by what was left,
/// are the input, and what was left is shorter than the input.
pub proof fn lemma_parameter_decoded(input: Seq<u8>)
    requires
        ConnectionParameter::spec_parse(input) is Ok,
    ensures
        ConnectionParameter::spec_parse(input)->Ok_0.1.spec_encode()
            + ConnectionParameter::spec_parse(input)->Ok_0.0 == input,
        ConnectionParameter::spec_parse(input)->Ok_0.0.len() < input.len(),
{
    let (rest, parameter) = ConnectionParameter::spec_parse(input)->Ok_0;
    if input[0] != PARAM_TPDU_SIZE {
        lemma_u16_be_written(input[2], input[3]);
    }
}

/// An input that begins with a parameter and goes on with parameters to its
/// end decodes to the parameter followed by those parameters.
proof fn lemma_parse_all_step(
    input: Seq<u8>,
    behind: Seq<u8>,
    parameter: ConnectionParameter,
    others: Seq<ConnectionParameter>,
)
    requires
        input.len() > 0,
        ConnectionParameter::spec_parse(input) == Ok::<(Seq<u8>, ConnectionParameter), S7Error>(
            (behind, parameter),
        ),
        spec_parse_all(behind) == Ok::<(Seq<u8>, Seq<ConnectionParameter>), S7Error>(
            (Seq::empty(), others),
        ),
    ensures
        spec_parse_all(input) == Ok::<(Seq<u8>, Seq<ConnectionParameter>), S7Error>(
            (Seq::empty(), seq![parameter] + others),
        ),
{
}

/// Decoding the bytes of a list of parameters gives the list back.
pub proof fn lemma_parse_all_round_trip(parameters: Seq<ConnectionParameter>)
    ensures
        spec_parse_all(spec_encode_all(parameters)) == Ok::<
            (Seq<u8>, Seq<ConnectionParameter>),
            S7Error,
        >((Seq::empty(), parameters)),
    decreases parameters.len(),
{
    if parameters.len() == 0 {
        assert(parameters =~= Seq::<ConnectionParameter>::empty());
    } else {
        let first = parameters[0];
        let others = parameters.skip(1);
        let behind = spec_encode_all(others);
        lemma_first_and_others(parameters);
        lemma_parameter_round_trip(first, behind);
        lemma_parse_all_round_trip(others);
        lemma_parse_all_step(first.spec_encode() + behind, behind, first, others);
    }
}

/// The bytes of a list of parameters that was decoded are the input.
pub proof fn lemma_parse_all_decoded(input: Seq<u8>)
    requires
        spec_parse_all(input) is Ok,
    ensures
        spec_parse_all(input)->Ok_0.0 == Seq::<u8>::empty(),
        spec_encode_all(spec_parse_all(input)->Ok_0.1) == input,
    decreases input.len(),
{
    if input.len() > 0 {
        let (behind, parameter) = ConnectionParameter::spec_parse(input)->Ok_0;
        let others = spec_parse_all(behind)->Ok_0.1;
        lemma_parameter_decoded(input);
        lemma_parse_all_decoded(behind);
        lemma_encode_all_first(parameter, others);
    }
}

/// A code outside the three parameter codes is rejected, and the error
/// records that code.
pub proof fn lemma_unknown_parameter_code_rejected(input: Seq<u8>)
    requires
        input.len() >= 2,
        input[0] != PARAM_TPDU_SIZE && input[0] != PARAM_SRC_TSAP && input[0] != PARAM_DST_TSAP,
    ensures
        ConnectionParameter::spec_parse(input) == Err::<(Seq<u8>, ConnectionParameter), S7Error>(
            S7Error::UnknownParameterCode(input[0]),
        ),
        spec_parse_all(input) == Err::<(Seq<u8>, Seq<ConnectionParameter>), S7Error>(
            S7Error::UnknownParameterCode(input[0]),
        ),
{
}

/// The body of a connection request or response as a mathematical value.
pub struct ConnectionView {
    /// The reference of the called side.
    pub dst_ref: u16,
    /// The reference of the calling side.
    pub src_ref: u16,
    /// The protocol class and its options.
    pub class: u8,
    /// The connection parameters, in their order.
    pub parameters: Seq<ConnectionParameter>,
}

impl ConnectionView {
    /// The bytes of the body: the two references, the class, and the
    /// parameters.
    pub open spec fn spec_encode(self) -> Seq<u8> {
        u16_to_be(self.dst_ref) + u16_to_be(self.src_ref) + seq![self.class] + spec_encode_all(
            self.parameters,
        )
    }

    /// Decoding a body from all of `input`: five bytes of references and
    /// class, then parameters until the input is used up.
    pub open spec fn spec_parse(input: Seq<u8>) -> Parsed<ConnectionView> {
        if input.len() < CONNECTION_FIXED_LEN {
            Err(S7Error::TruncatedInput)
        } else {
            match spec_parse_all(input.skip(CONNECTION_FIXED_LEN as int)) {
                Err(e) => Err(e),
                Ok((rest, parameters)) => Ok(
                    (
                        rest,
                        ConnectionView {
                            dst_ref: u16_from_be(input[0], input[1]),
                            src_ref: u16_from_be(input[2], input[3]),
                            class: input[4],
                            parameters,
                        },
                    ),
                ),
            }
        }
    }
}

/// Decoding the bytes of a connection body gives the body back and leaves
/// nothing.
pub proof fn lemma_connection_round_trip(connection: ConnectionView)
    ensures
        ConnectionView::spec_parse(connection.spec_encode()) == Ok::<
            (Seq<u8>, ConnectionView),
            S7Error,
        >((Seq::empty(), connection)),
        connection.spec_encode().len() == CONNECTION_FIXED_LEN + spec_encode_all(
            connection.parameters,
        ).len(),
{
    let input = connection.spec_encode();
    lemma_u16_be_round_trip(connection.dst_ref);
    lemma_u16_be_round_trip(connection.src_ref);
    assert(input.skip(CONNECTION_FIXED_LEN as int) =~= spec_encode_all(connection.parameters));
    lemma_parse_all_round_trip(connection.parameters);
}

/// The bytes of a connection body that was decoded are the input, and
/// nothing is left.
pub proof fn lemma_connection_decoded(input: Seq<u8>)
    requires
        ConnectionView::spec_parse(input) is Ok,
    ensures
        ConnectionView::spec_parse(input)->Ok_0.0 == Seq::<u8>::empty(),
        ConnectionView::spec_parse(input)->Ok_0.1.spec_encode() == input,
{
    let connection = ConnectionView::spec_parse(input)->Ok_0.1;
    lemma_parse_all_decoded(input.skip(CONNECTION_FIXED_LEN as int));
    lemma_u16_be_written(input[0], input[1]);
    lemma_u16_be_written(input[2], input[3]);
}

/// The body of a COTP connection request.
#[derive(Debug, Clone, PartialEq, Eq)]
pub struct COTPConnectionRequest {
    /// The reference of the called side.
    pub dst_ref: u16,
    /// The reference of the calling side.
    pub src_ref: u16,
    /// The protocol class and its options.
    pub class: u8,
    /// The connection parameters, in their order.
    pub parameters: Vec<ConnectionParameter>,
}

/// The body of a COTP connection response.
#[derive(Debug, Clone, PartialEq, Eq)]
pub struct COTPConnectionResponse {
    /// The reference of the called side.
    pub dst_ref: u16,
    /// The reference of the calling side.
    pub src_ref: u16,
    /// The protocol class and its options.
    pub class: u8,
    /// The connection parameters, in their order.
    pub parameters: Vec<ConnectionParameter>,
}

impl View for COTPConnectionRequest {
    type V = ConnectionView;

    open spec fn view(&self) -> ConnectionView {
        ConnectionView {
            dst_ref: self.dst_ref,
            src_ref: self.src_ref,
            class: self.class,
            parameters: self.parameters@,
        }
    }
}

impl View for COTPConnectionResponse {
    type V = ConnectionView;

    open spec fn view(&self) -> ConnectionView {
        ConnectionView {
            dst_ref: self.dst_ref,
            src_ref: self.src_ref,
            class: self.class,
            parameters: self.parameters@,
        }
    }
}

/// Writes a connection body.
fn encode_connection(
    dst_ref: u16,
    src_ref: u16,
    class: u8,
    parameters: &Vec<ConnectionParameter>,
) -> (r: Vec<u8>)
    ensures
        r@ == (ConnectionView { dst_ref, src_ref, class, parameters: parameters@ }).spec_encode(),
{
    let mut out: Vec<u8> = Vec::new();
    push_be_u16(&mut out, dst_ref);
    push_be_u16(&mut out, src_ref);
    out.push(class);
    let ghost head = out@;
    let mut index: usize = 0;
    while index < parameters.len()
        invariant
            index <= parameters.len(),
            out@ == head + spec_encode_all(parameters@.take(index as int)),
        decreases parameters.len() - index,
    {
        let parameter = &parameters[index];
        proof {
            let before = parameters@.take(index as int);
            assert(parameters@.take(index + 1) =~= before.push(*parameter));
            lemma_encode_all_push(before, *parameter);
        }
        parameter.encode_into(&mut out);
        index = index + 1;
    }
    assert(parameters@.take(index as int) =~= parameters@);
    out
}

impl COTPConnectionRequest {
    /// Decodes the body of a connection request from all of `input`.  What
    /// is handed back as the rest is empty.
    pub fn parse(input: &[u8]) -> (r: Result<(&[u8], Self), S7Error>)
        ensures
            parsed(r) == ConnectionView::spec_parse(input@),
    {
        let (rest, dst_ref) = read_be_u16(input)?;
        let (rest, src_ref) = read_be_u16(rest)?;
        let (rest, class) = read_u8(rest)?;
        assert(rest@ =~= input@.skip(CONNECTION_FIXED_LEN as int));
        let (rest, parameters) = ConnectionParameter::parse_all(rest)?;
        Ok((rest, COTPConnectionRequest { dst_ref, src_ref, class, parameters }))
    }

    /// Writes the body of the connection request.
    pub fn encode(&self) -> (r: Vec<u8>)
        ensures
            r@ == self@.spec_encode(),
    {
        encode_connection(self.dst_ref, self.src_ref, self.class, &self.parameters)
    }
}

impl COTPConnectionResponse {
    /// Decodes the body of a connection response from all of `input`.  What
    /// is handed back as the rest is empty.
    pub fn parse(input: &[u8]) -> (r: Result<(&[u8], Self), S7Error>)
        ensures
            parsed(r) == ConnectionView::spec_parse(input@),
    {
        let (rest, dst_ref) = read_be_u16(input)?;
        let (rest, src_ref) = read_be_u16(rest)?;
        let (rest, class) = read_u8(rest)?;
        assert(rest@ =~= input@.skip(CONNECTION_FIXED_LEN as int));
        let (rest, parameters) = ConnectionParameter::parse_all(rest)?;
        Ok((rest, COTPConnectionResponse { dst_ref, src_ref, class, parameters }))
    }

    /// Writes the body of the connection response.
    pub fn encode(&self) -> (r: Vec<u8>)
        ensures
            r@ == self@.spec_encode(),
    {
        encode_connection(self.dst_ref, self.src_ref, self.class, &self.parameters)
    }
}

/// Whatever the input, connection parameters fail to decode only as
/// malformed input.
pub proof fn lemma_parse_all_fails_as_malformed(input: Seq<u8>)
    ensures
        fails_as_malformed(ConnectionParameter::spec_parse(input)),
        fails_as_malformed(spec_parse_all(input)),
    decreases input.len(),
{
    if input.len() > 0 && ConnectionParameter::spec_parse(input) is Ok {
        lemma_parameter_decoded(input);
        lemma_parse_all_fails_as_malformed(ConnectionParameter::spec_parse(input)->Ok_0.0);
    }
}

/// Whatever the input, a connection body fails to decode only as malformed
/// input.
pub proof fn lemma_connection_fails_as_malformed(input: Seq<u8>)
    ensures
        fails_as_malformed(ConnectionView::spec_parse(input)),
{
    if input.len() >= CONNECTION_FIXED_LEN {
        lemma_parse_all_fails_as_malformed(input.skip(CONNECTION_FIXED_LEN as int));
    }
}

} // verus!
