//! The parameter section of an S7 message: a parameter type, followed for
//! variable access by a counted list of address items and for every other
//! type by bytes that are carried as they are.

use vstd::prelude::*;
use crate::codes::ParameterType;
use crate::error::{fails_as_malformed, S7Error};
use crate::item::{
    after_items, items_wf, lemma_encode_items_push, lemma_items_decoded_valid,
    lemma_items_encoded_len, lemma_items_fail_as_malformed, lemma_items_round_trip,
    spec_encode_items, spec_parse_items, ParameterItem, PARAMETER_ITEM_LEN,
};
use crate::wire::{
    lemma_concat_empty, lemma_concat_split, lemma_take_skip, lemma_u16_be_round_trip, parsed,
    push_be_u16, push_bytes, read_bytes, read_u8, spec_take, u16_from_be, u16_to_be, viewed, Parsed,
};

verus! {

/// The section of an item-carrying type whose items decode as `items` says.
pub open spec fn section_of(parameter_type: ParameterType, items: Parsed<Seq<ParameterItem>>)
    -> Result<S7ParametersView, S7Error> {
    match items {
        Err(e) => Err(e),
        Ok((_, items)) => Ok(S7ParametersView { parameter_type, items, data: Seq::empty() }),
    }
}

/// A parameter section as a mathematical value.
pub struct S7ParametersView {
    /// The parameter type.
    pub parameter_type: ParameterType,
    /// The address items of a read or write; empty for every other type.
    pub items: Seq<ParameterItem>,
    /// The bytes behind the type byte of every type but read and write;
    /// empty for those two.
    pub data: Seq<u8>,
}

/// The largest length that a section can declare.
pub const MAX_SECTION_LEN: usize = 65535;

/// The largest number of items that a section can count.
pub const MAX_ITEM_COUNT: usize = 255;

impl ParameterType {
    /// Read and write carry a counted list of items.
    pub open spec fn spec_has_items(self) -> bool {
        self == ParameterType::ReadVar || self == ParameterType::WriteVar
    }

    /// Read and write carry a counted list of items.
    pub fn has_items(&self) -> (r: bool)
        ensures
            r == self.spec_has_items(),
    {
        match self {
            ParameterType::ReadVar => true,
            ParameterType::WriteVar => true,
            _ => false,
        }
    }
}

impl S7ParametersView {
    /// A section is valid when it holds only what its type has a place for,
    /// its items are valid, and its count and length fit their fields.
    pub open spec fn wf(self) -> bool {
        if self.parameter_type.spec_has_items() {
            &&& self.data.len() == 0
            &&& self.items.len() <= MAX_ITEM_COUNT
            &&& items_wf(self.items)
        } else {
            &&& self.items.len() == 0
            &&& 1 + self.data.len() <= MAX_SECTION_LEN
        }
    }

    /// The bytes of a valid section: the type byte, then for read and write
    /// the item count and the items, for every other type the carried bytes.
    pub open spec fn spec_encode(self) -> Seq<u8>
        recommends
            self.wf(),
    {
        if self.parameter_type.spec_has_items() {
            seq![self.parameter_type.spec_code(), self.items.len() as u8] + spec_encode_items(
                self.items,
            )
        } else {
            seq![self.parameter_type.spec_code()] + self.data
        }
    }

    /// Decoding a section from all of `section`.  The section must hold a
    /// known type byte.  For read and write it must hold a count and exactly
    /// eleven bytes for each counted item, and each item must decode.  Where
    /// the section's length does not fit, that is a length mismatch.
    pub open spec fn spec_parse_section(section: Seq<u8>) -> Result<S7ParametersView, S7Error> {
        if section.len() < 1 {
            Err(S7Error::LengthMismatch)
        } else {
            match ParameterType::spec_from_code(section[0]) {
                Err(e) => Err(e),
                Ok(parameter_type) => if parameter_type.spec_has_items() {
                    if section.len() < 2 || section.len() != 2 + PARAMETER_ITEM_LEN
                        * section[1] {
                        Err(S7Error::LengthMismatch)
                    } else {
                        section_of(
                            parameter_type,
                            spec_parse_items(section.skip(2), section[1] as nat),
                        )
                    }
                } else {
                    Ok(
                        S7ParametersView {
                            parameter_type,
                            items: Seq::empty(),
                            data: section.skip(1),
                        },
                    )
                },
            }
        }
    }

    /// Decoding a section of `length` bytes from the front of `input`.  The
    /// type byte is tested before anything else: where the input holds a
    /// first byte and that byte is no parameter type, it is rejected and
    /// recorded, whatever `length` is.  Then an input shorter than `length`
    /// is truncated; otherwise the first `length` bytes are the section and
    /// the rest is handed back.
    pub open spec fn spec_parse(input: Seq<u8>, length: u16) -> Parsed<S7ParametersView> {
        if input.len() >= 1 && ParameterType::spec_from_code(input[0]) is Err {
            Err(S7Error::InvalidParameterType(input[0]))
        } else {
            match spec_take(input, length as nat) {
                Err(e) => Err(e),
                Ok((rest, section)) => match Self::spec_parse_section(section) {
                    Err(e) => Err(e),
                    Ok(parameters) => Ok((rest, parameters)),
                },
            }
        }
    }
}

/// The parameter section of an S7 message.
#[derive(Debug, Clone, PartialEq, Eq)]
pub struct S7Parameters {
    /// The parameter type.
    pub parameter_type: ParameterType,
    /// The address items of a read or write; empty for every other type.
    pub items: Vec<ParameterItem>,
    /// The bytes behind the type byte of every type but read and write;
    /// empty for those two.
    pub data: Vec<u8>,
}

impl View for S7Parameters {
    type V = S7ParametersView;

    open spec fn view(&self) -> S7ParametersView {
        S7ParametersView {
            parameter_type: self.parameter_type,
            items: self.items@,
            data: self.data@,
        }
    }
}

/// The number of bytes behind the type byte of a setup section: a reserved
/// byte, the two job queue limits and the PDU size.
pub const SETUP_DATA_LEN: usize = 7;

impl S7ParametersView {
    /// The bytes behind the type byte of a setup section.
    pub open spec fn spec_setup_data(max_amq_calling: u16, max_amq_called: u16, pdu_size: u16)
        -> Seq<u8> {
        seq![0u8] + u16_to_be(max_amq_calling) + u16_to_be(max_amq_called) + u16_to_be(pdu_size)
    }

    /// The setup section that carries the given job queue limits and PDU
    /// size.
    pub open spec fn spec_setup(max_amq_calling: u16, max_amq_called: u16, pdu_size: u16)
        -> S7ParametersView {
        S7ParametersView {
            parameter_type: ParameterType::Setup,
            items: Seq::empty(),
            data: Self::spec_setup_data(max_amq_calling, max_amq_called, pdu_size),
        }
    }

    /// The PDU size that a setup section carries: the last two of its seven
    /// bytes behind the type byte.  A section of another type or another
    /// length carries none.
    pub open spec fn spec_pdu_size(self) -> Option<u16> {
        if self.parameter_type == ParameterType::Setup && self.data.len() == SETUP_DATA_LEN {
            Some(u16_from_be(self.data[5], self.data[6]))
        } else {
            None
        }
    }
}

/// A setup section is valid and carries the PDU size that it was made with.
pub proof fn lemma_setup_carries_pdu_size(max_amq_calling: u16, max_amq_called: u16, pdu_size: u16)
    ensures
        S7ParametersView::spec_setup(max_amq_calling, max_amq_called, pdu_size).wf(),
        S7ParametersView::spec_setup(max_amq_calling, max_amq_called, pdu_size).spec_pdu_size()
            == Some(pdu_size),
        S7ParametersView::spec_setup(max_amq_calling, max_amq_called, pdu_size).spec_encode().len()
            == 1 + SETUP_DATA_LEN,
{
    lemma_u16_be_round_trip(pdu_size);
}

impl S7Parameters {
    /// The setup section that carries the given job queue limits and PDU
    /// size.
    pub fn setup(max_amq_calling: u16, max_amq_called: u16, pdu_size: u16) -> (r: Self)
        ensures
            r@ == S7ParametersView::spec_setup(max_amq_calling, max_amq_called, pdu_size),
    {
        let mut data: Vec<u8> = Vec::new();
        data.push(0);
        push_be_u16(&mut data, max_amq_calling);
        push_be_u16(&mut data, max_amq_called);
        push_be_u16(&mut data, pdu_size);
        let r = S7Parameters { parameter_type: ParameterType::Setup, items: Vec::new(), data };
        r
    }

    /// The PDU size that a setup section carries, if this is one.
    pub fn pdu_size(&self) -> (r: Option<u16>)
        ensures
            r == self@.spec_pdu_size(),
    {
        match self.parameter_type {
            ParameterType::Setup => {
                if self.data.len() == SETUP_DATA_LEN {
                    let hi: u16 = self.data[5] as u16;
                    let lo: u16 = self.data[6] as u16;
                    Some(hi * 256 + lo)
                } else {
                    None
                }
            },
            _ => None,
        }
    }

    /// Decodes a section from all of `section`.
    pub fn parse_section(section: &[u8]) -> (r: Result<Self, S7Error>)
        ensures
            viewed(r) == S7ParametersView::spec_parse_section(section@),
    {
        if section.len() < 1 {
            return Err(S7Error::LengthMismatch);
        }
        let (body, type_code) = read_u8(section)?;
        let parameter_type = ParameterType::try_from(type_code)?;
        if !parameter_type.has_items() {
            let data = vstd::slice::slice_to_vec(body);
            return Ok(S7Parameters { parameter_type, items: Vec::new(), data });
        }
        if body.len() < 1 {
            return Err(S7Error::LengthMismatch);
        }
        let (body, count) = read_u8(body)?;
        assert(body@ =~= section@.skip(2));
        if body.len() != PARAMETER_ITEM_LEN * (count as usize) {
            return Err(S7Error::LengthMismatch);
        }
        let mut items: Vec<ParameterItem> = Vec::new();
        let mut remaining = body;
        let mut done: u8 = 0;
        while done < count
            invariant
                done <= count,
                S7ParametersView::spec_parse_section(section@) == section_of(
                    parameter_type,
                    spec_parse_items(body@, count as nat),
                ),
                spec_parse_items(body@, count as nat) == after_items(
                    items@,
                    spec_parse_items(remaining@, (count - done) as nat),
                ),
            decreases count - done,
        {
            let ghost before = items@;
            let (rest, item) = ParameterItem::parse(remaining)?;
            items.push(item);
            remaining = rest;
            done = done + 1;
            proof {
                let next = spec_parse_items(rest@, (count - done) as nat);
                if next is Ok {
                    assert(before + (seq![item] + next->Ok_0.1) =~= before.push(item)
                        + next->Ok_0.1);
                }
            }
        }
        Ok(S7Parameters { parameter_type, items, data: Vec::new() })
    }

    /// Writes the section.  A section that is not valid cannot be written.
    pub fn encode(&self) -> (r: Result<Vec<u8>, S7Error>)
        ensures
            match r {
                Ok(bytes) => self@.wf() && bytes@ == self@.spec_encode(),
                Err(e) => !self@.wf() && e == S7Error::InvalidLength,
            },
    {
        let mut out: Vec<u8> = Vec::new();
        out.push(self.parameter_type.code());
        if !self.parameter_type.has_items() {
            if self.items.len() != 0 || self.data.len() > MAX_SECTION_LEN - 1 {
                return Err(S7Error::InvalidLength);
            }
            push_bytes(&mut out, self.data.as_slice());
            return Ok(out);
        }
        if self.data.len() != 0 || self.items.len() > MAX_ITEM_COUNT {
            return Err(S7Error::InvalidLength);
        }
        out.push(self.items.len() as u8);
        let ghost head = out@;
        let mut index: usize = 0;
        while index < self.items.len()
            invariant
                index <= self.items.len(),
                out@ == head + spec_encode_items(self.items@.take(index as int)),
                items_wf(self.items@.take(index as int)),
            decreases self.items.len() - index,
        {
            let item = &self.items[index];
            match item.encode() {
                Err(e) => {
                    return Err(e);
                },
                Ok(bytes) => {
                    push_bytes(&mut out, bytes.as_slice());
                },
            }
            proof {
                let before = self.items@.take(index as int);
                assert(self.items@.take(index + 1) =~= before.push(*item));
                lemma_encode_items_push(before, *item);
            }
            index = index + 1;
        }
        assert(self.items@.take(index as int) =~= self.items@);
        Ok(out)
    }

    /// Decodes a section of `length` bytes from the front of `input` and
    /// hands back the bytes behind it.  The type byte is tested first: a
    /// first byte that is no parameter type is rejected and recorded,
    /// whatever `length` is.
    pub fn parse(input: &[u8], length: u16) -> (r: Result<(&[u8], Self), S7Error>)
        ensures
            parsed(r) == S7ParametersView::spec_parse(input@, length),
    {
        match read_u8(input) {
            Ok((_, type_code)) => {
                let _ = ParameterType::try_from(type_code)?;
            },
            Err(_) => {},
        }
        let (rest, section) = read_bytes(input, length as usize)?;
        let parameters = Self::parse_section(section)?;
        Ok((rest, parameters))
    }
}

/// The bytes of a valid section are at least one and fit a 16-bit length.
pub proof fn lemma_parameters_encoded_len(parameters: S7ParametersView)
    requires
        parameters.wf(),
    ensures
        1 <= parameters.spec_encode().len() <= MAX_SECTION_LEN,
{
    lemma_items_encoded_len(parameters.items);
}

/// A valid section begins with the code of its type, which is a known code.
pub proof fn lemma_parameters_first_byte(parameters: S7ParametersView)
    requires
        parameters.wf(),
    ensures
        parameters.spec_encode().len() >= 1,
        ParameterType::spec_from_code(parameters.spec_encode()[0]) == Ok::<
            ParameterType,
            S7Error,
        >(parameters.parameter_type),
{
    parameters.parameter_type.lemma_code_round_trip();
}

/// Decoding all the bytes of a valid section gives the section back.
pub proof fn lemma_section_round_trip(parameters: S7ParametersView)
    requires
        parameters.wf(),
    ensures
        S7ParametersView::spec_parse_section(parameters.spec_encode()) == Ok::<
            S7ParametersView,
            S7Error,
        >(parameters),
{
    let section = parameters.spec_encode();
    parameters.parameter_type.lemma_code_round_trip();
    if parameters.parameter_type.spec_has_items() {
        let items = spec_encode_items(parameters.items);
        lemma_items_encoded_len(parameters.items);
        lemma_concat_empty(items);
        lemma_concat_split(seq![section[0], section[1]], items);
        lemma_items_round_trip(parameters.items, Seq::empty());
        assert(parameters.data =~= Seq::<u8>::empty());
    } else {
        lemma_concat_split(seq![section[0]], parameters.data);
        assert(parameters.items =~= Seq::<ParameterItem>::empty());
    }
}

/// Decoding the bytes of a valid section under its own length, followed by
/// anything, gives the section back and leaves what followed.
pub proof fn lemma_parameters_round_trip(parameters: S7ParametersView, tail: Seq<u8>)
    requires
        parameters.wf(),
    ensures
        S7ParametersView::spec_parse(
            parameters.spec_encode() + tail,
            parameters.spec_encode().len() as u16,
        ) == Ok::<(Seq<u8>, S7ParametersView), S7Error>((tail, parameters)),
{
    lemma_parameters_encoded_len(parameters);
    lemma_parameters_first_byte(parameters);
    lemma_concat_split(parameters.spec_encode(), tail);
    lemma_section_round_trip(parameters);
}

/// Decoding a strict prefix of an encoded section under the section's length
/// reports a truncated input.
pub proof fn lemma_parameters_prefix_truncated(parameters: S7ParametersView, len: int)
    requires
        parameters.wf(),
        0 <= len < parameters.spec_encode().len(),
    ensures
        S7ParametersView::spec_parse(
            parameters.spec_encode().take(len),
            parameters.spec_encode().len() as u16,
        ) == Err::<(Seq<u8>, S7ParametersView), S7Error>(S7Error::TruncatedInput),
{
    lemma_parameters_encoded_len(parameters);
    lemma_parameters_first_byte(parameters);
}

/// A section that decodes takes exactly its declared length from the input,
/// whatever follows it.
pub proof fn lemma_parameters_consume_declared_length(input: Seq<u8>, length: u16)
    requires
        S7ParametersView::spec_parse(input, length) is Ok,
    ensures
        length <= input.len(),
        S7ParametersView::spec_parse(input, length)->Ok_0.0 == input.skip(length as int),
        S7ParametersView::spec_parse_section(input.take(length as int)) == Ok::<
            S7ParametersView,
            S7Error,
        >(S7ParametersView::spec_parse(input, length)->Ok_0.1),
{
}

/// A section that was decoded is valid, and its bytes are the section.
pub proof fn lemma_section_decoded_valid(section: Seq<u8>)
    requires
        section.len() <= MAX_SECTION_LEN,
        S7ParametersView::spec_parse_section(section) is Ok,
    ensures
        S7ParametersView::spec_parse_section(section)->Ok_0.wf(),
        S7ParametersView::spec_parse_section(section)->Ok_0.spec_encode() == section,
{
    let parameters = S7ParametersView::spec_parse_section(section)->Ok_0;
    parameters.parameter_type.lemma_code_parsed(section[0]);
    if parameters.parameter_type.spec_has_items() {
        lemma_items_decoded_valid(section.skip(2), section[1] as nat);
        lemma_items_encoded_len(parameters.items);
        lemma_concat_empty(spec_encode_items(parameters.items));
        lemma_take_skip(section, 2);
    } else {
        lemma_take_skip(section, 1);
    }
}

/// A first byte outside the six parameter type codes is rejected, and the
/// error records that byte, whatever the declared length is and however
/// much input there is behind the byte.
pub proof fn lemma_unknown_parameter_type_rejected(input: Seq<u8>, length: u16)
    requires
        input.len() >= 1,
        ParameterType::spec_from_code(input[0]) is Err,
    ensures
        S7ParametersView::spec_parse(input, length) == Err::<
            (Seq<u8>, S7ParametersView),
            S7Error,
        >(S7Error::InvalidParameterType(input[0])),
{
}

/// Whatever the input and the declared length, a parameter section fails to
/// decode only as malformed input.
pub proof fn lemma_parameters_fail_as_malformed(input: Seq<u8>, length: u16)
    ensures
        fails_as_malformed(S7ParametersView::spec_parse_section(input)),
        fails_as_malformed(S7ParametersView::spec_parse(input, length)),
{
    if input.len() >= 2 {
        lemma_items_fail_as_malformed(input.skip(2), input[1] as nat);
    }
    let section = input.take(length as int);
    if length <= input.len() && section.len() >= 2 {
        lemma_items_fail_as_malformed(section.skip(2), section[1] as nat);
    }
}

} // verus!
