//! Big-endian primitives of the wire format, and the facts about joined byte
//! sequences that the laws of the codec rest on.
//!
//! The readers are `nom`'s complete parsers; each is called through one
//! function whose contract restates what `nom` documents for byte slices.

use vstd::prelude::*;
use crate::error::S7Error;

verus! {

/// What a decoder yields on a byte sequence: the unread rest together with
/// the decoded value, or the reason for rejecting the input.
pub type Parsed<V> = Result<(Seq<u8>, V), S7Error>;

/// The mathematical reading of an executable decoder's result.
pub open spec fn parsed<T: View>(r: Result<(&[u8], T), S7Error>) -> Parsed<T::V> {
    match r {
        Ok((rest, value)) => Ok((rest@, value@)),
        Err(e) => Err(e),
    }
}

/// The mathematical reading of an executable result that carries no rest.
pub open spec fn viewed<T: View>(r: Result<T, S7Error>) -> Result<T::V, S7Error> {
    match r {
        Ok(value) => Ok(value@),
        Err(e) => Err(e),
    }
}

/// Inside a section whose length was declared, an item that runs past the
/// section's end shows that the declared length is wrong.
pub open spec fn section_error(e: S7Error) -> S7Error {
    if e == S7Error::TruncatedInput {
        S7Error::LengthMismatch
    } else {
        e
    }
}

/// See [`section_error`].
pub fn to_section_error(e: S7Error) -> (r: S7Error)
    ensures
        r == section_error(e),
{
    match e {
        S7Error::TruncatedInput => S7Error::LengthMismatch,
        other => other,
    }
}

/// The 16-bit value whose big-endian bytes are `hi`, `lo`.
pub open spec fn u16_from_be(hi: u8, lo: u8) -> u16 {
    (hi as int * 256 + lo as int) as u16
}

/// The 32-bit value whose big-endian bytes are `b0`, `b1`, `b2`, `b3`.
pub open spec fn u32_from_be(b0: u8, b1: u8, b2: u8, b3: u8) -> u32 {
    (b0 as int * 16777216 + b1 as int * 65536 + b2 as int * 256 + b3 as int) as u32
}

/// The two big-endian bytes of `v`.
pub open spec fn u16_to_be(v: u16) -> Seq<u8> {
    seq![(v / 256) as u8, (v % 256) as u8]
}

/// The four big-endian bytes of `v`.
pub open spec fn u32_to_be(v: u32) -> Seq<u8> {
    seq![
        (v / 16777216) as u8,
        ((v / 65536) % 256) as u8,
        ((v / 256) % 256) as u8,
        (v % 256) as u8,
    ]
}

/// Reading one byte.
pub open spec fn spec_u8(input: Seq<u8>) -> Parsed<u8> {
    if input.len() < 1 {
        Err(S7Error::TruncatedInput)
    } else {
        Ok((input.skip(1), input[0]))
    }
}

/// Reading a big-endian 16-bit integer.
pub open spec fn spec_be_u16(input: Seq<u8>) -> Parsed<u16> {
    if input.len() < 2 {
        Err(S7Error::TruncatedInput)
    } else {
        Ok((input.skip(2), u16_from_be(input[0], input[1])))
    }
}

/// Reading a big-endian 32-bit integer.
pub open spec fn spec_be_u32(input: Seq<u8>) -> Parsed<u32> {
    if input.len() < 4 {
        Err(S7Error::TruncatedInput)
    } else {
        Ok((input.skip(4), u32_from_be(input[0], input[1], input[2], input[3])))
    }
}

/// Splitting off the first `count` bytes.
pub open spec fn spec_take(input: Seq<u8>, count: nat) -> Parsed<Seq<u8>> {
    if input.len() < count {
        Err(S7Error::TruncatedInput)
    } else {
        Ok((input.skip(count as int), input.take(count as int)))
    }
}

/// Calls `nom::number::complete::be_u8` on a byte slice.  Trusted: on an
/// empty slice `nom` reports an error, otherwise it yields the first byte
/// and the slice behind it.
#[verifier::external_body]
fn nom_be_u8(input: &[u8]) -> (r: Option<(&[u8], u8)>)
    ensures
        match r {
            Some((rest, value)) => input@.len() >= 1 && rest@ == input@.skip(1) && value
                == input@[0],
            None => input@.len() < 1,
        },
{
    nom::number::complete::be_u8::<&[u8], nom::error::Error<&[u8]>>(input).ok()
}

/// Calls `nom::number::complete::be_u16` on a byte slice.  Trusted: with
/// fewer than two bytes `nom` reports an error, otherwise it yields the
/// first two bytes read as a big-endian integer and the slice behind them.
#[verifier::external_body]
fn nom_be_u16(input: &[u8]) -> (r: Option<(&[u8], u16)>)
    ensures
        match r {
            Some((rest, value)) => input@.len() >= 2 && rest@ == input@.skip(2) && value
                == u16_from_be(input@[0], input@[1]),
            None => input@.len() < 2,
        },
{
    nom::number::complete::be_u16::<&[u8], nom::error::Error<&[u8]>>(input).ok()
}

/// Calls `nom::number::complete::be_u32` on a byte slice.  Trusted: with
/// fewer than four bytes `nom` reports an error, otherwise it yields the
/// first four bytes read as a big-endian integer and the slice behind them.
#[verifier::external_body]
fn nom_be_u32(input: &[u8]) -> (r: Option<(&[u8], u32)>)
    ensures
        match r {
            Some((rest, value)) => input@.len() >= 4 && rest@ == input@.skip(4) && value
                == u32_from_be(input@[0], input@[1], input@[2], input@[3]),
            None => input@.len() < 4,
        },
{
    nom::number::complete::be_u32::<&[u8], nom::error::Error<&[u8]>>(input).ok()
}

/// Calls `nom::bytes::complete::take` on a byte slice.  Trusted: when the
/// slice is shorter than `count`, `nom` reports an error, otherwise it
/// splits the slice at `count` and yields the rest and the prefix.
#[verifier::external_body]
fn nom_take(input: &[u8], count: usize) -> (r: Option<(&[u8], &[u8])>)
    ensures
        match r {
            Some((rest, taken)) => input@.len() >= count && rest@ == input@.skip(count as int)
                && taken@ == input@.take(count as int),
            None => input@.len() < count,
        },
{
    nom::bytes::complete::take::<usize, &[u8], nom::error::Error<&[u8]>>(count)(input).ok()
}

/// Reads one byte.
pub fn read_u8(input: &[u8]) -> (r: Result<(&[u8], u8), S7Error>)
    ensures
        parsed(r) == spec_u8(input@),
{
    match nom_be_u8(input) {
        Some(found) => Ok(found),
        None => Err(S7Error::TruncatedInput),
    }
}

/// Reads a big-endian 16-bit integer.
pub fn read_be_u16(input: &[u8]) -> (r: Result<(&[u8], u16), S7Error>)
    ensures
        parsed(r) == spec_be_u16(input@),
{
    match nom_be_u16(input) {
        Some(found) => Ok(found),
        None => Err(S7Error::TruncatedInput),
    }
}

/// Reads a big-endian 32-bit integer.
pub fn read_be_u32(input: &[u8]) -> (r: Result<(&[u8], u32), S7Error>)
    ensures
        parsed(r) == spec_be_u32(input@),
{
    match nom_be_u32(input) {
        Some(found) => Ok(found),
        None => Err(S7Error::TruncatedInput),
    }
}

/// Splits off the first `count` bytes.
pub fn read_bytes(input: &[u8], count: usize) -> (r: Result<
    (&[u8], &[u8]),
    S7Error,
>)
    ensures
        parsed(r) == spec_take(input@, count as nat),
{
    match nom_take(input, count) {
        Some(found) => Ok(found),
        None => Err(S7Error::TruncatedInput),
    }
}

/// Appends the two big-endian bytes of `value`.
pub fn push_be_u16(out: &mut Vec<u8>, value: u16)
    ensures
        final(out)@ == old(out)@ + u16_to_be(value),
{
    out.push((value / 256) as u8);
    out.push((value % 256) as u8);
}

/// Appends the four big-endian bytes of `value`.
pub fn push_be_u32(out: &mut Vec<u8>, value: u32)
    ensures
        final(out)@ == old(out)@ + u32_to_be(value),
{
    out.push((value / 16777216) as u8);
    out.push(((value / 65536) % 256) as u8);
    out.push(((value / 256) % 256) as u8);
    out.push((value % 256) as u8);
}

/// Appends `bytes`.
pub fn push_bytes(out: &mut Vec<u8>, bytes: &[u8])
    ensures
        final(out)@ == old(out)@ + bytes@,
{
    out.extend_from_slice(bytes);
    assert(out@ =~= old(out)@ + bytes@);
}

/// A sequence followed by another splits again where the first one ends.
pub proof fn lemma_concat_split<T>(head: Seq<T>, tail: Seq<T>)
    ensures
        (head + tail).len() == head.len() + tail.len(),
        (head + tail).take(head.len() as int) == head,
        (head + tail).skip(head.len() as int) == tail,
{
}

/// Putting three sequences one after the other does not depend on which two
/// are joined first.
pub proof fn lemma_concat_assoc<T>(first: Seq<T>, second: Seq<T>, third: Seq<T>)
    ensures
        (first + second) + third == first + (second + third),
{
}

/// Nothing in front of or behind a sequence leaves the sequence as it is.
pub proof fn lemma_concat_empty<T>(s: Seq<T>)
    ensures
        s + Seq::<T>::empty() == s,
        Seq::<T>::empty() + s == s,
{
}

/// A prefix of two joined sequences lies within the first one, or is the
/// first one followed by a prefix of the second.
pub proof fn lemma_concat_take<T>(head: Seq<T>, tail: Seq<T>, len: int)
    requires
        0 <= len <= head.len() + tail.len(),
    ensures
        len <= head.len() ==> (head + tail).take(len) == head.take(len),
        len >= head.len() ==> (head + tail).take(len) == head + tail.take(len - head.len()),
{
}

/// A sequence is its first `len` elements followed by the others.
pub proof fn lemma_take_skip<T>(s: Seq<T>, len: int)
    requires
        0 <= len <= s.len(),
    ensures
        s.take(len) + s.skip(len) == s,
        s.take(len).len() == len,
        s.skip(len).len() == s.len() - len,
{
}

/// Splitting what lies behind the first `start` elements splits the whole
/// sequence `start` elements further on.
pub proof fn lemma_skip_split<T>(s: Seq<T>, start: int, count: int)
    requires
        0 <= start,
        0 <= count,
        start + count <= s.len(),
    ensures
        s.skip(start).take(count) == s.subrange(start, start + count),
        s.skip(start).skip(count) == s.skip(start + count),
{
}

/// A sequence that is not empty is its first element followed by the others.
pub proof fn lemma_first_and_others<T>(s: Seq<T>)
    requires
        s.len() > 0,
    ensures
        seq![s[0]] + s.skip(1) == s,
        s.skip(1).len() == s.len() - 1,
        forall|i: int| 0 <= i < s.len() - 1 ==> #[trigger] s.skip(1)[i] == s[i + 1],
{
}

/// The others of a sequence that begins with `first` are what follows it.
pub proof fn lemma_others_of_first<T>(first: T, others: Seq<T>)
    ensures
        (seq![first] + others).len() == others.len() + 1,
        (seq![first] + others)[0] == first,
        (seq![first] + others).skip(1) == others,
{
}

/// The first `count + 1` elements of a sequence are its first `count`
/// elements and the one behind them.
pub proof fn lemma_take_next<T>(s: Seq<T>, count: int)
    requires
        0 <= count < s.len(),
    ensures
        s.take(count + 1) == s.take(count).push(s[count]),
{
}

/// Reading back the big-endian bytes of a 16-bit value gives the value.
pub proof fn lemma_u16_be_round_trip(value: u16)
    ensures
        u16_to_be(value).len() == 2,
        u16_from_be(u16_to_be(value)[0], u16_to_be(value)[1]) == value,
{
}

/// Writing the value of two big-endian bytes gives the two bytes.
pub proof fn lemma_u16_be_written(hi: u8, lo: u8)
    ensures
        u16_to_be(u16_from_be(hi, lo)) == seq![hi, lo],
{
}

/// Writing the value of four big-endian bytes gives the four bytes.
pub proof fn lemma_u32_be_written(b0: u8, b1: u8, b2: u8, b3: u8)
    ensures
        u32_to_be(u32_from_be(b0, b1, b2, b3)) == seq![b0, b1, b2, b3],
{
    let value = u32_from_be(b0, b1, b2, b3);
    assert(value / 16777216 == b0 as u32 && (value / 65536) % 256 == b1 as u32 && (value / 256)
        % 256 == b2 as u32 && value % 256 == b3 as u32) by (bit_vector)
        requires
            value as int == b0 as u32 * 16777216 + b1 as u32 * 65536 + b2 as u32 * 256
                + b3 as u32,
    ;
}

/// Reading back the big-endian bytes of a 32-bit value gives the value.
pub proof fn lemma_u32_be_round_trip(value: u32)
    ensures
        u32_to_be(value).len() == 4,
        u32_from_be(
            u32_to_be(value)[0],
            u32_to_be(value)[1],
            u32_to_be(value)[2],
            u32_to_be(value)[3],
        ) == value,
{
    let b0 = value / 16777216;
    let b1 = (value / 65536) % 256;
    let b2 = (value / 256) % 256;
    let b3 = value % 256;
    assert(value as int == b0 * 16777216 + b1 * 65536 + b2 * 256 + b3 && b0 < 256) by (bit_vector)
        requires
            b0 == value / 16777216,
            b1 == (value / 65536) % 256,
            b2 == (value / 256) % 256,
            b3 == value % 256,
    ;
}

} // verus!
