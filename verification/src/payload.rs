//! The payload section of an S7 message: data items, one after the other,
//! that fill the section exactly.

use vstd::prelude::*;
use crate::codes::{ReturnCode, TransportSize};
use crate::error::{fails_as_malformed, S7Error};
use crate::wire::{
    lemma_concat_empty, lemma_concat_split, lemma_first_and_others, lemma_others_of_first,
    lemma_take_next, lemma_u16_be_round_trip, lemma_u16_be_written, parsed, push_be_u16, push_bytes,
    read_be_u16, read_bytes, read_u8, section_error, spec_take, to_section_error, u16_from_be,
    u16_to_be, Parsed,
};

verus! {

/// The number of bytes in front of the data of a payload item.
pub const PAYLOAD_ITEM_HEADER_LEN: usize = 4;

/// The largest number of data bytes that an item can declare, and the
/// largest length that a payload section can have.
pub const MAX_DATA_LEN: usize = 65535;

/// A payload item as a mathematical value.
pub struct PayloadItemView {
    /// The outcome that the item reports.
    pub return_code: ReturnCode,
    /// The unit in which the data is carried.
    pub transport_size: TransportSize,
    /// The data bytes.
    pub data: Seq<u8>,
}

impl PayloadItemView {
    /// An item is valid when the length of its data fits 16 bits.
    pub open spec fn wf(self) -> bool {
        self.data.len() <= MAX_DATA_LEN
    }

    /// The bytes of a valid item: return code, transport size, the length of
    /// the data as a big-endian 16-bit integer, and the data.
    pub open spec fn spec_encode(self) -> Seq<u8>
        recommends
            self.wf(),
    {
        seq![self.return_code.spec_code(), self.transport_size.spec_code()] + u16_to_be(
            self.data.len() as u16,
        ) + self.data
    }

    /// Decoding an item from the front of `input`.  Fewer than four bytes
    /// are a truncated input; then the return code and the transport size
    /// are checked, in that order; then the declared number of data bytes
    /// must be there.
    pub open spec fn spec_parse(input: Seq<u8>) -> Parsed<PayloadItemView> {
        if input.len() < PAYLOAD_ITEM_HEADER_LEN {
            Err(S7Error::TruncatedInput)
        } else {
            match ReturnCode::spec_from_code(input[0]) {
                Err(e) => Err(e),
                Ok(return_code) => match TransportSize::spec_from_code(input[1]) {
                    Err(e) => Err(e),
                    Ok(transport_size) => {
                        let end = PAYLOAD_ITEM_HEADER_LEN + u16_from_be(input[2], input[3]);
                        if input.len() < end {
                            Err(S7Error::TruncatedInput)
                        } else {
                            Ok(
                                (
                                    input.skip(end),
                                    PayloadItemView {
                                        return_code,
                                        transport_size,
                                        data: input.subrange(PAYLOAD_ITEM_HEADER_LEN as int, end),
                                    },
                                ),
                            )
                        }
                    },
                },
            }
        }
    }
}

/// The bytes of a list of valid items, one after the other.
pub open spec fn spec_encode_payload_items(items: Seq<PayloadItemView>) -> Seq<u8>
    decreases items.len(),
{
    if items.len() == 0 {
        Seq::empty()
    } else {
        items[0].spec_encode() + spec_encode_payload_items(items.skip(1))
    }
}

/// Decoding items from `section` until it is used up.  An item that would
/// run past the end of the section is a length mismatch.
pub open spec fn spec_parse_payload_items(section: Seq<u8>) -> Result<
    Seq<PayloadItemView>,
    S7Error,
>
    decreases section.len(),
{
    if section.len() == 0 {
        Ok(Seq::empty())
    } else {
        match PayloadItemView::spec_parse(section) {
            Err(e) => Err(section_error(e)),
            Ok((rest, item)) => after_payload_items(seq![item], spec_parse_payload_items(rest)),
        }
    }
}

/// The result of a list that begins with `items` and goes on as `others`
/// says.
pub open spec fn after_payload_items(
    items: Seq<PayloadItemView>,
    others: Result<Seq<PayloadItemView>, S7Error>,
) -> Result<Seq<PayloadItemView>, S7Error> {
    match others {
        Err(e) => Err(e),
        Ok(more) => Ok(items + more),
    }
}

/// Every item of the list is valid.
pub open spec fn payload_items_wf(items: Seq<PayloadItemView>) -> bool {
    forall|i: int| 0 <= i < items.len() ==> (#[trigger] items[i]).wf()
}

/// A payload section as a mathematical value.
pub struct S7PayloadView {
    /// The items of the section, in their order.
    pub items: Seq<PayloadItemView>,
}

impl S7PayloadView {
    /// A payload is valid when its items are valid and their bytes together
    /// fit a 16-bit length.
    pub open spec fn wf(self) -> bool {
        &&& payload_items_wf(self.items)
        &&& spec_encode_payload_items(self.items).len() <= MAX_DATA_LEN
    }

    /// The bytes of a valid payload: its items, one after the other.
    pub open spec fn spec_encode(self) -> Seq<u8>
        recommends
            self.wf(),
    {
        spec_encode_payload_items(self.items)
    }

    /// Decoding a section of `length` bytes from the front of `input`.  An
    /// input shorter than `length` is truncated; otherwise the first `length`
    /// bytes must hold items that fill them exactly, and the rest is handed
    /// back.
    pub open spec fn spec_parse(input: Seq<u8>, length: u16) -> Parsed<S7PayloadView> {
        match spec_take(input, length as nat) {
            Err(e) => Err(e),
            Ok((rest, section)) => match spec_parse_payload_items(section) {
                Err(e) => Err(e),
                Ok(items) => Ok((rest, S7PayloadView { items })),
            },
        }
    }
}

/// One data item of a reply or of a write request.
#[derive(Debug, Clone, PartialEq, Eq)]
pub struct PayloadItem {
    /// The outcome that the item reports.
    pub return_code: ReturnCode,
    /// The unit in which the data is carried.
    pub transport_size: TransportSize,
    /// The data bytes.
    pub data: Vec<u8>,
}

impl View for PayloadItem {
    type V = PayloadItemView;

    open spec fn view(&self) -> PayloadItemView {
        PayloadItemView {
            return_code: self.return_code,
            transport_size: self.transport_size,
            data: self.data@,
        }
    }
}

/// The payload section of an S7 message.
#[derive(Debug, Clone, PartialEq, Eq)]
pub struct S7Payload {
    /// The items of the section, in their order.
    pub items: Vec<PayloadItem>,
}

/// The items of a vector as mathematical values.
pub open spec fn payload_item_views(items: Seq<PayloadItem>) -> Seq<PayloadItemView> {
    items.map_values(|item: PayloadItem| item@)
}

impl View for S7Payload {
    type V = S7PayloadView;

    open spec fn view(&self) -> S7PayloadView {
        S7PayloadView { items: payload_item_views(self.items@) }
    }
}

impl PayloadItem {
    /// Decodes an item from the front of `input`, copies its data out of the
    /// input, and hands back the bytes behind it.
    pub fn parse(input: &[u8]) -> (r: Result<(&[u8], Self), S7Error>)
        ensures
            parsed(r) == PayloadItemView::spec_parse(input@),
    {
        let (rest, return_code_byte) = read_u8(input)?;
        let (rest, size_code) = read_u8(rest)?;
        let (rest, length) = read_be_u16(rest)?;
        let return_code = ReturnCode::try_from(return_code_byte)?;
        let transport_size = TransportSize::try_from(size_code)?;
        let (rest, taken) = read_bytes(rest, length as usize)?;
        assert(rest@ =~= input@.skip(PAYLOAD_ITEM_HEADER_LEN + length));
        assert(taken@ =~= input@.subrange(
            PAYLOAD_ITEM_HEADER_LEN as int,
            PAYLOAD_ITEM_HEADER_LEN + length,
        ));
        let data = vstd::slice::slice_to_vec(taken);
        Ok((rest, PayloadItem { return_code, transport_size, data }))
    }

    /// Writes the item.  An item whose data is longer than 65535 bytes
    /// cannot be written.
    pub fn encode(&self) -> (r: Result<Vec<u8>, S7Error>)
        ensures
            match r {
                Ok(bytes) => self@.wf() && bytes@ == self@.spec_encode(),
                Err(e) => !self@.wf() && e == S7Error::InvalidLength,
            },
    {
        if self.data.len() > MAX_DATA_LEN {
            return Err(S7Error::InvalidLength);
        }
        let mut out: Vec<u8> = Vec::new();
        out.push(self.return_code.code());
        out.push(self.transport_size.code());
        push_be_u16(&mut out, self.data.len() as u16);
        push_bytes(&mut out, self.data.as_slice());
        Ok(out)
    }
}

impl S7Payload {
    /// Decodes the items that fill `section`.
    pub fn parse_section(section: &[u8]) -> (r: Result<Self, S7Error>)
        ensures
            match r {
                Ok(payload) => spec_parse_payload_items(section@) == Ok::<
                    Seq<PayloadItemView>,
                    S7Error,
                >(payload@.items),
                Err(e) => spec_parse_payload_items(section@) == Err::<
                    Seq<PayloadItemView>,
                    S7Error,
                >(e),
            },
    {
        let mut items: Vec<PayloadItem> = Vec::new();
        let mut remaining = section;
        proof {
            lemma_after_nothing(spec_parse_payload_items(section@));
            lemma_views_of_nothing();
        }
        while remaining.len() > 0
            invariant
                spec_parse_payload_items(section@) == after_payload_items(
                    payload_item_views(items@),
                    spec_parse_payload_items(remaining@),
                ),
            decreases remaining.len(),
        {
            match PayloadItem::parse(remaining) {
                Err(e) => {
                    return Err(to_section_error(e));
                },
                Ok((rest, item)) => {
                    proof {
                        lemma_views_push(items@, item);
                        lemma_after_one_more(
                            payload_item_views(items@),
                            item@,
                            spec_parse_payload_items(rest@),
                        );
                    }
                    items.push(item);
                    remaining = rest;
                },
            }
        }
        proof {
            lemma_concat_empty(payload_item_views(items@));
        }
        Ok(S7Payload { items })
    }

    /// Decodes a section of `length` bytes from the front of `input` and
    /// hands back the bytes behind it.
    pub fn parse(input: &[u8], length: u16) -> (r: Result<(&[u8], Self), S7Error>)
        ensures
            parsed(r) == S7PayloadView::spec_parse(input@, length),
    {
        let (rest, section) = read_bytes(input, length as usize)?;
        let payload = Self::parse_section(section)?;
        Ok((rest, payload))
    }

    /// Writes the payload.  A payload that is not valid cannot be written.
    pub fn encode(&self) -> (r: Result<Vec<u8>, S7Error>)
        ensures
            match r {
                Ok(bytes) => self@.wf() && bytes@ == self@.spec_encode(),
                Err(e) => !self@.wf() && e == S7Error::InvalidLength,
            },
    {
        let mut out: Vec<u8> = Vec::new();
        let mut index: usize = 0;
        let ghost all = payload_item_views(self.items@);
        proof {
            lemma_first_items(all, 0);
        }
        while index < self.items.len()
            invariant
                index <= self.items.len(),
                all == payload_item_views(self.items@),
                out@ == spec_encode_payload_items(all.take(index as int)),
                payload_items_wf(all.take(index as int)),
                out@.len() <= MAX_DATA_LEN,
            decreases self.items.len() - index,
        {
            let item = &self.items[index];
            proof {
                lemma_first_items(all, index as int + 1);
                lemma_encode_prefix_len(all, index as int + 1);
            }
            match item.encode() {
                Err(e) => {
                    return Err(e);
                },
                Ok(bytes) => {
                    if bytes.len() > MAX_DATA_LEN - out.len() {
                        return Err(S7Error::InvalidLength);
                    }
                    push_bytes(&mut out, bytes.as_slice());
                },
            }
            index = index + 1;
        }
        proof {
            lemma_first_items(all, index as int);
        }
        Ok(out)
    }
}

/// A list that goes on behind nothing is the list.
proof fn lemma_after_nothing(others: Result<Seq<PayloadItemView>, S7Error>)
    ensures
        after_payload_items(Seq::empty(), others) == others,
{
    if others is Ok {
        lemma_concat_empty(others->Ok_0);
    }
}

/// A list that goes on behind `items` with `item` and then as `others` says
/// goes on behind `items` and `item` as `others` says.
proof fn lemma_after_one_more(
    items: Seq<PayloadItemView>,
    item: PayloadItemView,
    others: Result<Seq<PayloadItemView>, S7Error>,
)
    ensures
        after_payload_items(items, after_payload_items(seq![item], others)) == after_payload_items(
            items.push(item),
            others,
        ),
{
    if others is Ok {
        assert(items + (seq![item] + others->Ok_0) =~= items.push(item) + others->Ok_0);
    }
}

/// No items have no views.
proof fn lemma_views_of_nothing()
    ensures
        payload_item_views(Seq::<PayloadItem>::empty()) == Seq::<PayloadItemView>::empty(),
{
}

/// The views of a list with one more item are the views of the list and the
/// view of the item.
proof fn lemma_views_push(items: Seq<PayloadItem>, item: PayloadItem)
    ensures
        payload_item_views(items.push(item)) == payload_item_views(items).push(item@),
{
}

/// What holds of the first `count` items of a list: none of them where
/// `count` is zero, all of the list where `count` is its length, and one
/// more than the first `count - 1` otherwise, written behind them and valid
/// with them.
proof fn lemma_first_items(items: Seq<PayloadItemView>, count: int)
    requires
        0 <= count <= items.len(),
    ensures
        count == 0 ==> spec_encode_payload_items(items.take(count)) == Seq::<u8>::empty()
            && payload_items_wf(items.take(count)),
        count == items.len() ==> items.take(count) == items,
        count > 0 ==> spec_encode_payload_items(items.take(count)) == spec_encode_payload_items(
            items.take(count - 1),
        ) + items[count - 1].spec_encode(),
        count > 0 && payload_items_wf(items.take(count - 1)) && items[count - 1].wf()
            ==> payload_items_wf(items.take(count)),
        count > 0 && !items[count - 1].wf() ==> !payload_items_wf(items),
{
    if count > 0 {
        let before = items.take(count - 1);
        let last = items[count - 1];
        lemma_take_next(items, count - 1);
        lemma_encode_payload_items_push(before, last);
        if payload_items_wf(before) && last.wf() {
            assert forall|i: int| 0 <= i < count implies (#[trigger] items.take(count)[i]).wf() by {
                if i < count - 1 {
                    assert(before[i].wf());
                }
            }
        }
    }
}

/// The bytes of an item are its data and four more.
pub proof fn lemma_payload_item_encoded_len(item: PayloadItemView)
    ensures
        item.spec_encode().len() == PAYLOAD_ITEM_HEADER_LEN + item.data.len(),
{
}

/// A list that begins with `item` is written as the item's bytes followed by
/// the bytes of the other items, and is valid where the item and the others
/// are.
pub proof fn lemma_encode_payload_items_first(item: PayloadItemView, others: Seq<PayloadItemView>)
    ensures
        spec_encode_payload_items(seq![item] + others) == item.spec_encode()
            + spec_encode_payload_items(others),
        payload_items_wf(others) && item.wf() ==> payload_items_wf(seq![item] + others),
{
    let items = seq![item] + others;
    lemma_others_of_first(item, others);
    if payload_items_wf(others) && item.wf() {
        assert forall|i: int| 0 <= i < items.len() implies (#[trigger] items[i]).wf() by {
            if i > 0 {
                assert(others[i - 1].wf());
            }
        }
    }
}

/// Writing one more item behind a list appends the item's bytes.
pub proof fn lemma_encode_payload_items_push(items: Seq<PayloadItemView>, item: PayloadItemView)
    ensures
        spec_encode_payload_items(items.push(item)) == spec_encode_payload_items(items)
            + item.spec_encode(),
    decreases items.len(),
{
    if items.len() == 0 {
        assert(items.push(item) =~= seq![item] + Seq::<PayloadItemView>::empty());
        lemma_encode_payload_items_first(item, Seq::empty());
        lemma_concat_empty(item.spec_encode());
    } else {
        let first = items[0];
        let others = items.skip(1);
        lemma_first_and_others(items);
        lemma_encode_payload_items_push(others, item);
        lemma_encode_payload_items_first(first, others.push(item));
        lemma_encode_payload_items_first(first, others);
        crate::wire::lemma_concat_assoc(
            first.spec_encode(),
            spec_encode_payload_items(others),
            item.spec_encode(),
        );
    }
}

/// A list of items takes at least four bytes for each item.
pub proof fn lemma_payload_items_encoded_len(items: Seq<PayloadItemView>)
    ensures
        spec_encode_payload_items(items).len() >= PAYLOAD_ITEM_HEADER_LEN * items.len(),
    decreases items.len(),
{
    if items.len() > 0 {
        lemma_payload_items_encoded_len(items.skip(1));
    }
}

/// The bytes of the first `count` items are no more than the bytes of the
/// whole list.
pub proof fn lemma_encode_prefix_len(items: Seq<PayloadItemView>, count: int)
    requires
        0 <= count <= items.len(),
    ensures
        spec_encode_payload_items(items.take(count)).len() <= spec_encode_payload_items(
            items,
        ).len(),
    decreases items.len(),
{
    if count > 0 {
        lemma_encode_prefix_len(items.skip(1), count - 1);
        assert(items.take(count).skip(1) =~= items.skip(1).take(count - 1));
    }
}

/// Decoding the bytes of a valid item, followed by anything, gives the item
/// back and leaves what followed.
pub proof fn lemma_payload_item_round_trip(item: PayloadItemView, tail: Seq<u8>)
    requires
        item.wf(),
    ensures
        PayloadItemView::spec_parse(item.spec_encode() + tail) == Ok::<
            (Seq<u8>, PayloadItemView),
            S7Error,
        >((tail, item)),
{
    let input = item.spec_encode() + tail;
    let end = PAYLOAD_ITEM_HEADER_LEN + item.data.len();
    lemma_u16_be_round_trip(item.data.len() as u16);
    item.return_code.lemma_code_round_trip();
    item.transport_size.lemma_code_round_trip();
    assert(input.skip(end as int) =~= tail);
    assert(input.subrange(PAYLOAD_ITEM_HEADER_LEN as int, end as int) =~= item.data);
}

/// An item that was decoded is valid, its bytes followed by what was left
/// are the input, and what was left is shorter than the input.
pub proof fn lemma_payload_item_decoded_valid(input: Seq<u8>)
    requires
        PayloadItemView::spec_parse(input) is Ok,
    ensures
        PayloadItemView::spec_parse(input)->Ok_0.1.wf(),
        PayloadItemView::spec_parse(input)->Ok_0.1.spec_encode() + PayloadItemView::spec_parse(
            input,
        )->Ok_0.0 == input,
        PayloadItemView::spec_parse(input)->Ok_0.0.len() < input.len(),
{
    let (rest, item) = PayloadItemView::spec_parse(input)->Ok_0;
    item.return_code.lemma_code_parsed(input[0]);
    item.transport_size.lemma_code_parsed(input[1]);
    lemma_u16_be_written(input[2], input[3]);
}

/// Decoding a strict prefix of an encoded item reports a truncated input.
pub proof fn lemma_payload_item_prefix_truncated(item: PayloadItemView, len: int)
    requires
        item.wf(),
        0 <= len < item.spec_encode().len(),
    ensures
        PayloadItemView::spec_parse(item.spec_encode().take(len)) == Err::<
            (Seq<u8>, PayloadItemView),
            S7Error,
        >(S7Error::TruncatedInput),
{
    lemma_u16_be_round_trip(item.data.len() as u16);
    item.return_code.lemma_code_round_trip();
    item.transport_size.lemma_code_round_trip();
}

/// A section that begins with an item and goes on with items decodes to the
/// item followed by those items.
proof fn lemma_payload_items_step(
    section: Seq<u8>,
    rest: Seq<u8>,
    item: PayloadItemView,
    others: Seq<PayloadItemView>,
)
    requires
        section.len() > 0,
        PayloadItemView::spec_parse(section) == Ok::<(Seq<u8>, PayloadItemView), S7Error>(
            (rest, item),
        ),
        spec_parse_payload_items(rest) == Ok::<Seq<PayloadItemView>, S7Error>(others),
    ensures
        spec_parse_payload_items(section) == Ok::<Seq<PayloadItemView>, S7Error>(
            seq![item] + others,
        ),
{
}

/// Decoding the bytes of a list of valid items gives the list back.
pub proof fn lemma_payload_items_round_trip(items: Seq<PayloadItemView>)
    requires
        payload_items_wf(items),
    ensures
        spec_parse_payload_items(spec_encode_payload_items(items)) == Ok::<
            Seq<PayloadItemView>,
            S7Error,
        >(items),
    decreases items.len(),
{
    if items.len() == 0 {
        assert(items =~= Seq::<PayloadItemView>::empty());
    } else {
        let first = items[0];
        let others = items.skip(1);
        let behind = spec_encode_payload_items(others);
        lemma_first_and_others(items);
        assert forall|i: int| 0 <= i < others.len() implies (#[trigger] others[i]).wf() by {
            assert(items[i + 1].wf());
        }
        lemma_payload_item_round_trip(first, behind);
        lemma_payload_items_round_trip(others);
        lemma_payload_items_step(first.spec_encode() + behind, behind, first, others);
    }
}

/// Items that were decoded are valid, and their bytes are the section.
pub proof fn lemma_payload_items_decoded_valid(section: Seq<u8>)
    requires
        spec_parse_payload_items(section) is Ok,
    ensures
        spec_encode_payload_items(spec_parse_payload_items(section)->Ok_0) == section,
        payload_items_wf(spec_parse_payload_items(section)->Ok_0),
        section.len() > 0 ==> spec_parse_payload_items(section)->Ok_0.len() > 0,
    decreases section.len(),
{
    if section.len() > 0 {
        let (rest, item) = PayloadItemView::spec_parse(section)->Ok_0;
        let others = spec_parse_payload_items(rest)->Ok_0;
        lemma_payload_item_decoded_valid(section);
        lemma_payload_items_decoded_valid(rest);
        lemma_encode_payload_items_first(item, others);
    }
}

/// Decoding the bytes of a valid payload under their own length, followed
/// by anything, gives the payload back and leaves what followed.
pub proof fn lemma_payload_round_trip(payload: S7PayloadView, tail: Seq<u8>)
    requires
        payload.wf(),
    ensures
        S7PayloadView::spec_parse(
            payload.spec_encode() + tail,
            payload.spec_encode().len() as u16,
        ) == Ok::<(Seq<u8>, S7PayloadView), S7Error>((tail, payload)),
{
    lemma_concat_split(payload.spec_encode(), tail);
    lemma_payload_items_round_trip(payload.items);
}

/// A payload that decodes takes exactly its declared length from the input,
/// whatever follows it, and is written as exactly those bytes.
pub proof fn lemma_payload_consumes_declared_length(input: Seq<u8>, length: u16)
    requires
        S7PayloadView::spec_parse(input, length) is Ok,
    ensures
        length <= input.len(),
        S7PayloadView::spec_parse(input, length)->Ok_0.0 == input.skip(length as int),
        S7PayloadView::spec_parse(input, length)->Ok_0.1.wf(),
        S7PayloadView::spec_parse(input, length)->Ok_0.1.spec_encode() == input.take(
            length as int,
        ),
{
    lemma_payload_items_decoded_valid(input.take(length as int));
}

/// Decoding a strict prefix of an encoded payload under the payload's length
/// reports a truncated input.
pub proof fn lemma_payload_prefix_truncated(payload: S7PayloadView, len: int)
    requires
        payload.wf(),
        0 <= len < payload.spec_encode().len(),
    ensures
        S7PayloadView::spec_parse(
            payload.spec_encode().take(len),
            payload.spec_encode().len() as u16,
        ) == Err::<(Seq<u8>, S7PayloadView), S7Error>(S7Error::TruncatedInput),
{
}

/// Whatever the input, a payload item fails to decode only as malformed
/// input.
pub proof fn lemma_payload_item_fails_as_malformed(input: Seq<u8>)
    ensures
        fails_as_malformed(PayloadItemView::spec_parse(input)),
{
}

/// Whatever the section, payload items fail to decode only as malformed
/// input.
pub proof fn lemma_payload_items_fail_as_malformed(section: Seq<u8>)
    ensures
        fails_as_malformed(spec_parse_payload_items(section)),
    decreases section.len(),
{
    if section.len() > 0 {
        lemma_payload_item_fails_as_malformed(section);
        if PayloadItemView::spec_parse(section) is Ok {
            lemma_payload_item_decoded_valid(section);
            lemma_payload_items_fail_as_malformed(PayloadItemView::spec_parse(section)->Ok_0.0);
        }
    }
}

/// Whatever the input and the declared length, a payload section fails to
/// decode only as malformed input.
pub proof fn lemma_payload_fails_as_malformed(input: Seq<u8>, length: u16)
    ensures
        fails_as_malformed(S7PayloadView::spec_parse(input, length)),
{
    if length <= input.len() {
        lemma_payload_items_fail_as_malformed(input.take(length as int));
    }
}

} // verus!
