//! The address items of a read or write request: eleven bytes each, one
//! after the other.

use vstd::prelude::*;
use crate::codes::{Area, SyntaxId, TransportSize, VarSpec};
use crate::error::{fails_as_malformed, S7Error};
use crate::wire::{
    lemma_concat_assoc, lemma_concat_empty, lemma_first_and_others, lemma_others_of_first,
    lemma_u16_be_round_trip, lemma_u16_be_written, lemma_u32_be_round_trip, lemma_u32_be_written,
    parsed, push_be_u16, push_be_u32, read_be_u16, read_be_u32, read_u8, u16_from_be, u16_to_be,
    u32_from_be, u32_to_be, Parsed,
};

verus! {

/// The number of bytes of one parameter item on the wire.
pub const PARAMETER_ITEM_LEN: usize = 11;

/// One variable address of a read or write request.
#[derive(Debug, Clone, Copy, PartialEq, Eq, Structural)]
pub struct ParameterItem {
    /// The variable specification.
    pub var_spec: VarSpec,
    /// The length byte of the address specification, carried as it is.
    pub addr_length: u8,
    /// The addressing syntax.
    pub syntax_id: SyntaxId,
    /// The memory area.
    pub area: Area,
    /// The data block number; it has a meaning in the data block area only.
    pub db_number: u16,
    /// The start address.
    pub start_addr: u32,
    /// The number of bits that one unit of the item's transport size spans:
    /// 1, 8, 16 or 32.
    pub length: u16,
}

impl View for ParameterItem {
    type V = ParameterItem;

    open spec fn view(&self) -> ParameterItem {
        *self
    }
}

impl ParameterItem {
    /// An item is valid when its length is the width of a transport size.
    pub open spec fn wf(self) -> bool {
        TransportSize::spec_from_bits(self.length) is Some
    }

    /// The transport size that the item's length stands for.
    pub open spec fn spec_transport_size(self) -> TransportSize
        recommends
            self.wf(),
    {
        TransportSize::spec_from_bits(self.length).unwrap()
    }

    /// The eleven bytes of a valid item: variable specification, address
    /// length, syntax identifier, transport size, data block number, area
    /// and start address.
    pub open spec fn spec_encode(self) -> Seq<u8>
        recommends
            self.wf(),
    {
        seq![
            self.var_spec.spec_code(),
            self.addr_length,
            self.syntax_id.spec_code(),
            self.spec_transport_size().spec_code(),
        ] + u16_to_be(self.db_number) + seq![self.area.spec_code()] + u32_to_be(self.start_addr)
    }

    /// Decoding an item from the front of `input`.  Fewer than eleven bytes
    /// are a truncated input; then the variable specification, the syntax
    /// identifier, the transport size and the area are checked, in that
    /// order.
    pub open spec fn spec_parse(input: Seq<u8>) -> Parsed<ParameterItem> {
        if input.len() < PARAMETER_ITEM_LEN {
            Err(S7Error::TruncatedInput)
        } else {
            match VarSpec::spec_from_code(input[0]) {
                Err(e) => Err(e),
                Ok(var_spec) => match SyntaxId::spec_from_code(input[2]) {
                    Err(e) => Err(e),
                    Ok(syntax_id) => match TransportSize::spec_from_code(input[3]) {
                        Err(e) => Err(e),
                        Ok(transport_size) => match Area::spec_from_code(input[6]) {
                            Err(e) => Err(e),
                            Ok(area) => Ok(
                                (
                                    input.skip(PARAMETER_ITEM_LEN as int),
                                    ParameterItem {
                                        var_spec,
                                        addr_length: input[1],
                                        syntax_id,
                                        area,
                                        db_number: u16_from_be(input[4], input[5]),
                                        start_addr: u32_from_be(
                                            input[7],
                                            input[8],
                                            input[9],
                                            input[10],
                                        ),
                                        length: transport_size.spec_bits(),
                                    },
                                ),
                            ),
                        },
                    },
                },
            }
        }
    }

    /// An item that addresses units of `transport_size`.
    pub fn new(
        var_spec: VarSpec,
        addr_length: u8,
        syntax_id: SyntaxId,
        transport_size: TransportSize,
        area: Area,
        db_number: u16,
        start_addr: u32,
    ) -> (r: Self)
        ensures
            r == (ParameterItem {
                var_spec,
                addr_length,
                syntax_id,
                area,
                db_number,
                start_addr,
                length: transport_size.spec_bits(),
            }),
            r.wf(),
            r.spec_transport_size() == transport_size,
    {
        ParameterItem {
            var_spec,
            addr_length,
            syntax_id,
            area,
            db_number,
            start_addr,
            length: transport_size.bits(),
        }
    }

    /// The transport size that the item's length stands for, if it is valid.
    pub fn transport_size(&self) -> (r: Option<TransportSize>)
        ensures
            r == TransportSize::spec_from_bits(self.length),
    {
        TransportSize::from_bits(self.length)
    }

    /// Decodes an item from the front of `input` and hands back the bytes
    /// behind it.
    pub fn parse(input: &[u8]) -> (r: Result<(&[u8], Self), S7Error>)
        ensures
            parsed(r) == Self::spec_parse(input@),
    {
        let (rest, var_spec_code) = read_u8(input)?;
        let (rest, addr_length) = read_u8(rest)?;
        let (rest, syntax_code) = read_u8(rest)?;
        let (rest, size_code) = read_u8(rest)?;
        let (rest, db_number) = read_be_u16(rest)?;
        let (rest, area_code) = read_u8(rest)?;
        let (rest, start_addr) = read_be_u32(rest)?;
        assert(rest@ =~= input@.skip(PARAMETER_ITEM_LEN as int));
        let var_spec = VarSpec::try_from(var_spec_code)?;
        let syntax_id = SyntaxId::try_from(syntax_code)?;
        let transport_size = TransportSize::try_from(size_code)?;
        let area = Area::try_from(area_code)?;
        Ok(
            (
                rest,
                ParameterItem {
                    var_spec,
                    addr_length,
                    syntax_id,
                    area,
                    db_number,
                    start_addr,
                    length: transport_size.bits(),
                },
            ),
        )
    }

    /// Writes the item as its eleven bytes.  An item whose length is no
    /// transport size's width cannot be written.
    pub fn encode(&self) -> (r: Result<Vec<u8>, S7Error>)
        ensures
            match r {
                Ok(bytes) => self.wf() && bytes@ == self.spec_encode(),
                Err(e) => !self.wf() && e == S7Error::InvalidLength,
            },
    {
        match TransportSize::from_bits(self.length) {
            None => Err(S7Error::InvalidLength),
            Some(transport_size) => {
                let mut out: Vec<u8> = Vec::new();
                out.push(self.var_spec.code());
                out.push(self.addr_length);
                out.push(self.syntax_id.code());
                out.push(transport_size.code());
                push_be_u16(&mut out, self.db_number);
                out.push(self.area.code());
                push_be_u32(&mut out, self.start_addr);
                Ok(out)
            },
        }
    }
}

/// An encoded item has eleven bytes.
pub proof fn lemma_item_encoded_len(item: ParameterItem)
    ensures
        item.spec_encode().len() == PARAMETER_ITEM_LEN,
{
}

/// Decoding the bytes of a valid item, followed by anything, gives the item
/// back and leaves what followed.
pub proof fn lemma_item_round_trip(item: ParameterItem, tail: Seq<u8>)
    requires
        item.wf(),
    ensures
        ParameterItem::spec_parse(item.spec_encode() + tail) == Ok::<
            (Seq<u8>, ParameterItem),
            S7Error,
        >((tail, item)),
{
    let input = item.spec_encode() + tail;
    lemma_u16_be_round_trip(item.db_number);
    lemma_u32_be_round_trip(item.start_addr);
    item.var_spec.lemma_code_round_trip();
    item.syntax_id.lemma_code_round_trip();
    item.area.lemma_code_round_trip();
    item.spec_transport_size().lemma_code_round_trip();
    assert(input.skip(PARAMETER_ITEM_LEN as int) =~= tail);
}

/// An item that was decoded is valid, and its bytes followed by what was
/// left are the input.
pub proof fn lemma_item_decoded_valid(input: Seq<u8>)
    requires
        ParameterItem::spec_parse(input) is Ok,
    ensures
        ParameterItem::spec_parse(input)->Ok_0.1.wf(),
        ParameterItem::spec_parse(input)->Ok_0.1.spec_encode() + ParameterItem::spec_parse(
            input,
        )->Ok_0.0 == input,
{
    let (rest, item) = ParameterItem::spec_parse(input)->Ok_0;
    let transport_size = TransportSize::spec_from_code(input[3])->Ok_0;
    item.var_spec.lemma_code_parsed(input[0]);
    item.syntax_id.lemma_code_parsed(input[2]);
    transport_size.lemma_code_parsed(input[3]);
    transport_size.lemma_bits_round_trip();
    item.area.lemma_code_parsed(input[6]);
    lemma_u16_be_written(input[4], input[5]);
    lemma_u32_be_written(input[7], input[8], input[9], input[10]);
}

/// Decoding a strict prefix of an encoded item reports a truncated input.
pub proof fn lemma_item_prefix_truncated(item: ParameterItem, len: int)
    requires
        0 <= len < item.spec_encode().len(),
    ensures
        ParameterItem::spec_parse(item.spec_encode().take(len)) == Err::<
            (Seq<u8>, ParameterItem),
            S7Error,
        >(S7Error::TruncatedInput),
{
}

/// The bytes of a list of valid items, one after the other.
pub open spec fn spec_encode_items(items: Seq<ParameterItem>) -> Seq<u8>
    decreases items.len(),
{
    if items.len() == 0 {
        Seq::empty()
    } else {
        items[0].spec_encode() + spec_encode_items(items.skip(1))
    }
}

/// Decoding `count` items, one after the other, from the front of `input`.
pub open spec fn spec_parse_items(input: Seq<u8>, count: nat) -> Parsed<Seq<ParameterItem>>
    decreases count,
{
    if count == 0 {
        Ok((input, Seq::empty()))
    } else {
        match ParameterItem::spec_parse(input) {
            Err(e) => Err(e),
            Ok((rest, item)) => after_item(item, spec_parse_items(rest, (count - 1) as nat)),
        }
    }
}

/// The result of a list whose first item is `item` and whose other items
/// decode as `others` says.
pub open spec fn after_item(item: ParameterItem, others: Parsed<Seq<ParameterItem>>) -> Parsed<
    Seq<ParameterItem>,
> {
    match others {
        Err(e) => Err(e),
        Ok((rest, items)) => Ok((rest, seq![item] + items)),
    }
}

/// The result of a list that begins with `items` and goes on as `others`
/// says.
pub open spec fn after_items(items: Seq<ParameterItem>, others: Parsed<Seq<ParameterItem>>)
    -> Parsed<Seq<ParameterItem>> {
    match others {
        Err(e) => Err(e),
        Ok((rest, more)) => Ok((rest, items + more)),
    }
}

/// Every item of the list is valid.
pub open spec fn items_wf(items: Seq<ParameterItem>) -> bool {
    forall|i: int| 0 <= i < items.len() ==> (#[trigger] items[i]).wf()
}

/// A list of items takes eleven bytes for each item.
pub proof fn lemma_items_encoded_len(items: Seq<ParameterItem>)
    ensures
        spec_encode_items(items).len() == PARAMETER_ITEM_LEN * items.len(),
    decreases items.len(),
{
    if items.len() > 0 {
        lemma_items_encoded_len(items.skip(1));
    }
}

/// A list that begins with `item` is written as the item's bytes followed by
/// the bytes of the other items, and is valid where the item and the others
/// are.
pub proof fn lemma_encode_items_first(item: ParameterItem, others: Seq<ParameterItem>)
    ensures
        spec_encode_items(seq![item] + others) == item.spec_encode() + spec_encode_items(others),
        items_wf(others) && item.wf() ==> items_wf(seq![item] + others),
{
    let items = seq![item] + others;
    lemma_others_of_first(item, others);
    if items_wf(others) && item.wf() {
        assert forall|i: int| 0 <= i < items.len() implies (#[trigger] items[i]).wf() by {
            if i > 0 {
                assert(others[i - 1].wf());
            }
        }
    }
}

/// The others of a valid list that is not empty are valid, and so is its
/// first item.
pub proof fn lemma_items_wf_others(items: Seq<ParameterItem>)
    requires
        items.len() > 0,
        items_wf(items),
    ensures
        items[0].wf(),
        items_wf(items.skip(1)),
{
    let others = items.skip(1);
    assert forall|i: int| 0 <= i < others.len() implies (#[trigger] others[i]).wf() by {
        assert(items[i + 1].wf());
    }
}

/// Writing one more item behind a list appends the item's bytes.
pub proof fn lemma_encode_items_push(items: Seq<ParameterItem>, item: ParameterItem)
    ensures
        spec_encode_items(items.push(item)) == spec_encode_items(items) + item.spec_encode(),
    decreases items.len(),
{
    if items.len() == 0 {
        assert(items.push(item) =~= seq![item] + Seq::<ParameterItem>::empty());
        lemma_encode_items_first(item, Seq::empty());
        lemma_concat_empty(item.spec_encode());
    } else {
        let first = items[0];
        let others = items.skip(1);
        lemma_first_and_others(items);
        lemma_encode_items_push(others, item);
        lemma_encode_items_first(first, others.push(item));
        lemma_encode_items_first(first, others);
        lemma_concat_assoc(first.spec_encode(), spec_encode_items(others), item.spec_encode());
    }
}

/// An input that begins with an item and goes on with `count - 1` items
/// decodes to the item followed by those items.
proof fn lemma_items_step(
    input: Seq<u8>,
    behind: Seq<u8>,
    rest: Seq<u8>,
    item: ParameterItem,
    others: Seq<ParameterItem>,
    count: nat,
)
    requires
        count > 0,
        ParameterItem::spec_parse(input) == Ok::<(Seq<u8>, ParameterItem), S7Error>(
            (behind, item),
        ),
        spec_parse_items(behind, (count - 1) as nat) == Ok::<
            (Seq<u8>, Seq<ParameterItem>),
            S7Error,
        >((rest, others)),
    ensures
        spec_parse_items(input, count) == Ok::<(Seq<u8>, Seq<ParameterItem>), S7Error>(
            (rest, seq![item] + others),
        ),
{
}

/// Decoding the bytes of a list of valid items, followed by anything, gives
/// the list back and leaves what followed.
pub proof fn lemma_items_round_trip(items: Seq<ParameterItem>, tail: Seq<u8>)
    requires
        items_wf(items),
    ensures
        spec_parse_items(spec_encode_items(items) + tail, items.len()) == Ok::<
            (Seq<u8>, Seq<ParameterItem>),
            S7Error,
        >((tail, items)),
    decreases items.len(),
{
    if items.len() == 0 {
        lemma_concat_empty(tail);
        assert(items =~= Seq::<ParameterItem>::empty());
    } else {
        let first = items[0];
        let others = items.skip(1);
        let behind = spec_encode_items(others) + tail;
        lemma_first_and_others(items);
        lemma_items_wf_others(items);
        lemma_concat_assoc(first.spec_encode(), spec_encode_items(others), tail);
        lemma_item_round_trip(first, behind);
        lemma_items_round_trip(others, tail);
        lemma_items_step(first.spec_encode() + behind, behind, tail, first, others, items.len());
    }
}

/// Items that were decoded are valid, and their bytes followed by what was
/// left are the input.
pub proof fn lemma_items_decoded_valid(input: Seq<u8>, count: nat)
    requires
        spec_parse_items(input, count) is Ok,
    ensures
        spec_parse_items(input, count)->Ok_0.1.len() == count,
        items_wf(spec_parse_items(input, count)->Ok_0.1),
        spec_encode_items(spec_parse_items(input, count)->Ok_0.1) + spec_parse_items(
            input,
            count,
        )->Ok_0.0 == input,
    decreases count,
{
    if count == 0 {
        lemma_concat_empty(input);
    } else {
        let (behind, item) = ParameterItem::spec_parse(input)->Ok_0;
        let (rest, others) = spec_parse_items(behind, (count - 1) as nat)->Ok_0;
        lemma_item_decoded_valid(input);
        lemma_items_decoded_valid(behind, (count - 1) as nat);
        lemma_encode_items_first(item, others);
        lemma_concat_assoc(item.spec_encode(), spec_encode_items(others), rest);
    }
}

/// Whatever the input, an item fails to decode only as malformed input.
pub proof fn lemma_item_fails_as_malformed(input: Seq<u8>)
    ensures
        fails_as_malformed(ParameterItem::spec_parse(input)),
{
}

/// Whatever the input, items fail to decode only as malformed input.
pub proof fn lemma_items_fail_as_malformed(input: Seq<u8>, count: nat)
    ensures
        fails_as_malformed(spec_parse_items(input, count)),
    decreases count,
{
    if count > 0 {
        lemma_item_fails_as_malformed(input);
        if ParameterItem::spec_parse(input) is Ok {
            lemma_items_fail_as_malformed(
                ParameterItem::spec_parse(input)->Ok_0.0,
                (count - 1) as nat,
            );
        }
    }
}

} // verus!
