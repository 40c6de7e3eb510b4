use plc4rs::error::S7Error;
use plc4rs::wire::{
    push_be_u16, push_be_u32, push_bytes, read_be_u16, read_be_u32, read_bytes, read_u8,
    to_section_error,
};

#[test]
fn read_u8_takes_the_first_byte() {
    let input = [0xABu8, 0xCD, 0xEF];
    let (rest, value) = read_u8(&input).unwrap();
    assert_eq!(value, 0xAB);
    assert_eq!(rest, &[0xCD, 0xEF]);
}

#[test]
fn read_u8_of_nothing_is_truncated() {
    let input: [u8; 0] = [];
    assert_eq!(read_u8(&input), Err(S7Error::TruncatedInput));
}

#[test]
fn read_be_u16_is_big_endian() {
    let input = [0x12u8, 0x34, 0x56];
    let (rest, value) = read_be_u16(&input).unwrap();
    assert_eq!(value, 0x1234);
    assert_eq!(rest, &[0x56]);
}

#[test]
fn read_be_u16_of_one_byte_is_truncated() {
    assert_eq!(read_be_u16(&[0x12]), Err(S7Error::TruncatedInput));
}

#[test]
fn read_be_u32_is_big_endian() {
    let input = [0x01u8, 0x02, 0x03, 0x04, 0x05];
    let (rest, value) = read_be_u32(&input).unwrap();
    assert_eq!(value, 0x0102_0304);
    assert_eq!(rest, &[0x05]);
}

#[test]
fn read_be_u32_of_three_bytes_is_truncated() {
    assert_eq!(read_be_u32(&[1, 2, 3]), Err(S7Error::TruncatedInput));
}

#[test]
fn read_bytes_splits_at_the_count() {
    let input = [1u8, 2, 3, 4, 5];
    let (rest, taken) = read_bytes(&input, 2).unwrap();
    assert_eq!(taken, &[1, 2]);
    assert_eq!(rest, &[3, 4, 5]);
}

#[test]
fn read_bytes_of_everything_leaves_nothing() {
    let input = [1u8, 2, 3];
    let (rest, taken) = read_bytes(&input, 3).unwrap();
    assert_eq!(taken, &[1, 2, 3]);
    assert!(rest.is_empty());
}

#[test]
fn read_bytes_of_nothing_takes_nothing() {
    let input = [1u8, 2, 3];
    let (rest, taken) = read_bytes(&input, 0).unwrap();
    assert!(taken.is_empty());
    assert_eq!(rest, &[1, 2, 3]);
}

#[test]
fn read_bytes_beyond_the_end_is_truncated() {
    assert_eq!(read_bytes(&[1, 2, 3], 4), Err(S7Error::TruncatedInput));
}

#[test]
fn writers_append_big_endian_bytes() {
    let mut out = vec![0xFFu8];
    push_be_u16(&mut out, 0x1234);
    push_be_u32(&mut out, 0xA1B2_C3D4);
    push_bytes(&mut out, &[7, 8]);
    assert_eq!(out, vec![0xFF, 0x12, 0x34, 0xA1, 0xB2, 0xC3, 0xD4, 7, 8]);
}

#[test]
fn written_integers_are_read_back() {
    for value in [0u16, 1, 255, 256, 0x1234, u16::MAX] {
        let mut out = Vec::new();
        push_be_u16(&mut out, value);
        assert_eq!(read_be_u16(&out).unwrap().1, value);
    }
    for value in [0u32, 1, 0x0102_0304, u32::MAX] {
        let mut out = Vec::new();
        push_be_u32(&mut out, value);
        assert_eq!(read_be_u32(&out).unwrap().1, value);
    }
}

#[test]
fn an_overrun_inside_a_section_is_a_length_mismatch() {
    assert_eq!(to_section_error(S7Error::TruncatedInput), S7Error::LengthMismatch);
    assert_eq!(to_section_error(S7Error::InvalidArea(9)), S7Error::InvalidArea(9));
}
