use plc4rs::codes::{Area, ParameterType, ReturnCode, SyntaxId, TransportSize, VarSpec};
use plc4rs::connection::{COTPConnectionRequest, COTPConnectionResponse, ConnectionParameter};
use plc4rs::cotp::{COTPDataPacket, COTPPacket};
use plc4rs::error::S7Error;
use plc4rs::header::{MessageType, S7Header};
use plc4rs::message::S7Message;
use plc4rs::item::ParameterItem;
use plc4rs::parameters::S7Parameters;
use plc4rs::payload::{PayloadItem, S7Payload};
use plc4rs::tpkt::TPKTPacket;

fn sample_item() -> ParameterItem {
    ParameterItem::new(
        VarSpec::Byte,
        0x0A,
        SyntaxId::S7Any,
        TransportSize::Word,
        Area::DataBlocks,
        7,
        0x0000_0120,
    )
}

fn read_message() -> S7Message {
    S7Message {
        header: S7Header {
            protocol_id: 0x32,
            message_type: MessageType::JobRequest,
            reserved: 0,
            pdu_reference: 0x0102,
            parameter_length: 24,
            data_length: 0,
        },
        parameters: Some(S7Parameters {
            parameter_type: ParameterType::ReadVar,
            items: vec![sample_item(), sample_item()],
            data: vec![],
        }),
        payload: None,
    }
}

fn reply_message() -> S7Message {
    S7Message {
        header: S7Header {
            protocol_id: 0x32,
            message_type: MessageType::AckData,
            reserved: 0,
            pdu_reference: 0x0102,
            parameter_length: 2,
            data_length: 11,
        },
        parameters: Some(S7Parameters {
            parameter_type: ParameterType::ReadVar,
            items: vec![],
            data: vec![],
        }),
        payload: Some(S7Payload {
            items: vec![
                PayloadItem {
                    return_code: ReturnCode::Success,
                    transport_size: TransportSize::Word,
                    data: vec![0x12, 0x34],
                },
                PayloadItem {
                    return_code: ReturnCode::OutOfRange,
                    transport_size: TransportSize::Byte,
                    data: vec![0x7F],
                },
            ],
        }),
    }
}

fn data_frame(message: S7Message, length: u16) -> TPKTPacket {
    TPKTPacket {
        protocol_id: 0x03,
        reserved: 0,
        length,
        payload: COTPPacket::Data(COTPDataPacket { eot: true, tpdu_ref: 5, data: message }),
    }
}

#[test]
fn test_tpkt_packet_parse() {
    let input = &[
        0x03, 0x00, 0x00, 0x1A, // TPKT header
        0x02, 0xF0, 0x80, // COTP header
        0x32, 0x01, 0x00, 0x00, // S7 header start
        0x00, 0x01, 0x00, 0x08, 0x00, 0x00, // S7 header end
    ];

    // The header is well formed and announces 26 bytes; only 17 are there,
    // so the frame as a whole is refused.
    assert_eq!(input[0], 0x03);
    assert_eq!(TPKTPacket::declared_length(input), Ok(26));
    assert_eq!(TPKTPacket::parse(input), Err(S7Error::LengthMismatch));
}

#[test]
fn test_s7_message_parse() {
    let input = &[
        0x32, 0x01, 0x00, 0x00, 0x01, 0x02, 0x00, 0x0D, 0x00, 0x00, // header
        0x04, 0x01, // read, one item
        0x02, 0x0A, 0x10, 0x04, 0x00, 0x07, 0x84, 0x00, 0x00, 0x01, 0x20, // item
        0xEE, // not part of the message
    ];
    let (remaining, message) = S7Message::parse(input).unwrap();
    assert_eq!(remaining, &[0xEE]);
    assert_eq!(message.header.message_type, MessageType::JobRequest);
    assert_eq!(message.header.pdu_reference, 0x0102);
    assert_eq!(message.header.parameter_length, 13);
    assert_eq!(message.header.data_length, 0);
    let parameters = message.parameters.unwrap();
    assert_eq!(parameters.parameter_type, ParameterType::ReadVar);
    assert_eq!(parameters.items, vec![sample_item()]);
    assert!(parameters.data.is_empty());
    assert!(message.payload.is_none());
}

#[test]
fn test_connection_request_parse() {
    let input = &[
        0x00, 0x0C, // Destination Reference
        0x00, 0x10, // Source Reference
        0x00, // Class
        0xC1, 0x02, 0x01, 0x00, // Source TSAP
        0xC2, 0x02, 0x01, 0x02, // Destination TSAP
    ];

    let (remaining, request) = COTPConnectionRequest::parse(input).unwrap();
    assert_eq!(request.dst_ref, 12);
    assert_eq!(request.src_ref, 16);
    assert_eq!(request.class, 0);
    assert!(remaining.is_empty());
    assert_eq!(
        request.parameters,
        vec![ConnectionParameter::SrcTsap(0x0100), ConnectionParameter::DstTsap(0x0102)]
    );
}

#[test]
fn test_s7_payload_parse() {
    let input = &[
        0x00, // Return code (Success)
        0x04, // Transport size (Word)
        0x00, 0x02, // Length
        0x12, 0x34, // Data
    ];

    let (remaining, payload) = S7Payload::parse(input, 6).unwrap();
    assert_eq!(payload.items.len(), 1);
    assert_eq!(payload.items[0].data, vec![0x12, 0x34]);
    assert!(remaining.is_empty());
    assert_eq!(payload.items[0].return_code, ReturnCode::Success);
    assert_eq!(payload.items[0].transport_size, TransportSize::Word);
}

#[test]
fn test_parameter_item_parse() {
    let input = &[
        0x02, // VarSpec (Byte)
        0x0A, // Length
        0x10, // Syntax ID (S7Any)
        0x02, // Transport size
        0x00, 0x01, // DB number
        0x84, // Area (DataBlocks)
        0x00, 0x00, 0x00, 0x00, // Start address
    ];

    let (remaining, item) = ParameterItem::parse(input).unwrap();
    assert_eq!(item.addr_length, 10);
    assert_eq!(item.db_number, 1);
    assert!(remaining.is_empty());
    assert_eq!(item.var_spec, VarSpec::Byte);
    assert_eq!(item.syntax_id, SyntaxId::S7Any);
    assert_eq!(item.area, Area::DataBlocks);
    assert_eq!(item.start_addr, 0);
    assert_eq!(item.length, 8);
    assert_eq!(item.transport_size(), Some(TransportSize::Byte));
}

#[test]
fn test_s7_header_creation() {
    let header = S7Header::new(MessageType::JobRequest, 1);
    assert_eq!(header.protocol_id, 0x32);
    assert_eq!(header.pdu_reference, 1);
    assert_eq!(header.reserved, 0);
    assert_eq!(header.parameter_length, 0);
    assert_eq!(header.data_length, 0);
}

#[test]
fn test_message_type_values() {
    assert_eq!(MessageType::JobRequest.code(), 0x01);
    assert_eq!(MessageType::Ack.code(), 0x02);
    assert_eq!(MessageType::AckData.code(), 0x03);
    assert_eq!(MessageType::UserData.code(), 0x07);
}

#[test]
fn test_s7_header_parsing() {
    let test_data = &[
        0x32, // protocol_id
        0x01, // message_type (Job)
        0x00, 0x00, // reserved
        0x00, 0x01, // pdu_reference
        0x00, 0x00, // parameter_length
        0x00, 0x00, // data_length
    ];

    let (remaining, header) = S7Header::parse(test_data).unwrap();
    assert!(remaining.is_empty());
    assert_eq!(header.protocol_id, 0x32);
    assert_eq!(header.pdu_reference, 1);
    assert!(matches!(header.message_type, MessageType::JobRequest));
}

#[test]
fn data_frame_example_decodes() {
    // A frame of 17 bytes: TPKT header, a COTP data unit that ends a
    // transmission, and an S7 job header without sections.
    let input = &[
        0x03, 0x00, 0x00, 0x11, 0x02, 0xF0, 0x80, 0x32, 0x01, 0x00, 0x00, 0x00, 0x01, 0x00, 0x00,
        0x00, 0x00,
    ];
    let (remaining, frame) = TPKTPacket::parse(input).unwrap();
    assert!(remaining.is_empty());
    assert_eq!(frame.protocol_id, 0x03);
    assert_eq!(frame.reserved, 0);
    assert_eq!(frame.length, 17);
    match frame.payload {
        COTPPacket::Data(unit) => {
            assert!(unit.eot);
            assert_eq!(unit.tpdu_ref, 0);
            assert_eq!(unit.data.header.message_type, MessageType::JobRequest);
            assert_eq!(unit.data.header.pdu_reference, 1);
            assert_eq!(unit.data.header.parameter_length, 0);
            assert_eq!(unit.data.header.data_length, 0);
            assert!(unit.data.parameters.is_none());
            assert!(unit.data.payload.is_none());
        }
        other => panic!("not a data unit: {:?}", other),
    }
}

#[test]
fn data_frame_that_announces_22_of_17_bytes_is_refused() {
    let input = &[
        0x03, 0x00, 0x00, 0x16, 0x02, 0xF0, 0x80, 0x32, 0x01, 0x00, 0x00, 0x00, 0x01, 0x00, 0x00,
        0x00, 0x00,
    ];
    assert_eq!(TPKTPacket::declared_length(input), Ok(22));
    assert_eq!(TPKTPacket::parse(input), Err(S7Error::LengthMismatch));
}

#[test]
fn header_encodes_to_its_ten_bytes() {
    let header = S7Header {
        protocol_id: 0x32,
        message_type: MessageType::UserData,
        reserved: 0xA1B2,
        pdu_reference: 0x0102,
        parameter_length: 0x0304,
        data_length: 0x0506,
    };
    assert_eq!(
        header.encode(),
        vec![0x32, 0x07, 0xA1, 0xB2, 0x01, 0x02, 0x03, 0x04, 0x05, 0x06]
    );
    assert_eq!(S7Header::parse(&header.encode()), Ok((&[][..], header)));
}

#[test]
fn parameter_item_encodes_to_its_eleven_bytes() {
    let bytes = sample_item().encode().unwrap();
    assert_eq!(bytes, vec![0x02, 0x0A, 0x10, 0x04, 0x00, 0x07, 0x84, 0x00, 0x00, 0x01, 0x20]);
    assert_eq!(ParameterItem::parse(&bytes), Ok((&[][..], sample_item())));
}

#[test]
fn parameter_item_length_is_the_width_of_its_transport_size() {
    let widths = [
        (TransportSize::Bit, 0x01u8, 1u16),
        (TransportSize::Byte, 0x02, 8),
        (TransportSize::Word, 0x04, 16),
        (TransportSize::DWord, 0x06, 32),
    ];
    for (size, code, bits) in widths {
        let item = ParameterItem::new(VarSpec::Bit, 10, SyntaxId::S7Any, size, Area::Flags, 0, 3);
        assert_eq!(item.length, bits);
        assert_eq!(size.bits(), bits);
        assert_eq!(TransportSize::from_bits(bits), Some(size));
        assert_eq!(item.encode().unwrap()[3], code);
    }
    assert_eq!(TransportSize::from_bits(24), None);
}

#[test]
fn parameter_item_with_an_unknown_width_is_not_written() {
    let mut item = sample_item();
    item.length = 5;
    assert_eq!(item.transport_size(), None);
    assert_eq!(item.encode(), Err(S7Error::InvalidLength));
}

#[test]
fn payload_item_round_trip() {
    let item = PayloadItem {
        return_code: ReturnCode::AccessError,
        transport_size: TransportSize::DWord,
        data: vec![1, 2, 3, 4],
    };
    let bytes = item.encode().unwrap();
    assert_eq!(bytes, vec![0x03, 0x06, 0x00, 0x04, 1, 2, 3, 4]);
    assert_eq!(PayloadItem::parse(&bytes), Ok((&[][..], item)));
}

#[test]
fn payload_item_of_no_data() {
    let item = PayloadItem {
        return_code: ReturnCode::NotSupported,
        transport_size: TransportSize::Bit,
        data: vec![],
    };
    let bytes = item.encode().unwrap();
    assert_eq!(bytes, vec![0x06, 0x01, 0x00, 0x00]);
    assert_eq!(PayloadItem::parse(&bytes), Ok((&[][..], item)));
}

#[test]
fn payload_item_of_the_largest_data_is_written_and_one_more_byte_is_not() {
    let mut item = PayloadItem {
        return_code: ReturnCode::Success,
        transport_size: TransportSize::Byte,
        data: vec![0xAA; 65535],
    };
    let bytes = item.encode().unwrap();
    assert_eq!(bytes.len(), 65539);
    assert_eq!(&bytes[..4], &[0x00, 0x02, 0xFF, 0xFF]);
    assert_eq!(PayloadItem::parse(&bytes), Ok((&[][..], item.clone())));
    item.data.push(0);
    assert_eq!(item.encode(), Err(S7Error::InvalidLength));
}

#[test]
fn payload_decoding_stops_at_the_declared_length() {
    let input = &[0x00, 0x04, 0x00, 0x02, 0x12, 0x34, 0x05, 0x02, 0x00, 0x01, 0x7F, 0xDE, 0xAD];
    let (remaining, payload) = S7Payload::parse(input, 11).unwrap();
    assert_eq!(remaining, &[0xDE, 0xAD]);
    assert_eq!(payload, reply_message().payload.unwrap());
    let (remaining, payload) = S7Payload::parse(input, 6).unwrap();
    assert_eq!(remaining, &[0x05, 0x02, 0x00, 0x01, 0x7F, 0xDE, 0xAD]);
    assert_eq!(payload.items.len(), 1);
}

#[test]
fn payload_of_length_zero_has_no_items() {
    let (remaining, payload) = S7Payload::parse(&[1, 2, 3], 0).unwrap();
    assert_eq!(remaining, &[1, 2, 3]);
    assert!(payload.items.is_empty());
    assert_eq!(payload.encode(), Ok(vec![]));
}

#[test]
fn payload_that_does_not_fill_its_length_is_a_mismatch() {
    let input = &[0x00, 0x04, 0x00, 0x02, 0x12, 0x34, 0x05, 0x02, 0x00, 0x01, 0x7F];
    // The second item would end two bytes behind the declared end.
    assert_eq!(S7Payload::parse(input, 9), Err(S7Error::LengthMismatch));
    // One byte is left over that is no item.
    assert_eq!(S7Payload::parse(input, 7), Err(S7Error::LengthMismatch));
    // The declared length itself is not there.
    assert_eq!(S7Payload::parse(input, 12), Err(S7Error::TruncatedInput));
}

#[test]
fn payload_that_is_too_long_is_not_written() {
    let item = PayloadItem {
        return_code: ReturnCode::Success,
        transport_size: TransportSize::Byte,
        data: vec![0; 40000],
    };
    let payload = S7Payload { items: vec![item.clone(), item] };
    assert_eq!(payload.encode(), Err(S7Error::InvalidLength));
}

#[test]
fn read_parameters_round_trip() {
    let parameters = read_message().parameters.unwrap();
    let bytes = parameters.encode().unwrap();
    assert_eq!(bytes.len(), 24);
    assert_eq!(&bytes[..2], &[0x04, 0x02]);
    assert_eq!(S7Parameters::parse(&bytes, 24), Ok((&[][..], parameters)));
}

#[test]
fn setup_parameters_carry_their_bytes() {
    let parameters = S7Parameters::setup(1, 2, 480);
    assert_eq!(parameters.parameter_type, ParameterType::Setup);
    assert!(parameters.items.is_empty());
    assert_eq!(parameters.data, vec![0x00, 0x00, 0x01, 0x00, 0x02, 0x01, 0xE0]);
    assert_eq!(parameters.pdu_size(), Some(480));
    let bytes = parameters.encode().unwrap();
    assert_eq!(bytes, vec![0xF0, 0x00, 0x00, 0x01, 0x00, 0x02, 0x01, 0xE0]);
    assert_eq!(S7Parameters::parse(&bytes, 8), Ok((&[][..], parameters)));
}

#[test]
fn pdu_size_is_read_from_setup_sections_of_seven_bytes_only() {
    let mut parameters = S7Parameters::setup(1, 1, 0xFFFF);
    assert_eq!(parameters.pdu_size(), Some(0xFFFF));
    parameters.data.pop();
    assert_eq!(parameters.pdu_size(), None);
    let other = S7Parameters {
        parameter_type: ParameterType::Upload,
        items: vec![],
        data: vec![0, 0, 1, 0, 1, 1, 0xE0],
    };
    assert_eq!(other.pdu_size(), None);
}

#[test]
fn parameters_are_decoded_within_the_declared_length() {
    let input = &[0x1D, 0xAA, 0xBB, 0xCC, 0xDD];
    let (remaining, parameters) = S7Parameters::parse(input, 3).unwrap();
    assert_eq!(remaining, &[0xCC, 0xDD]);
    assert_eq!(parameters.parameter_type, ParameterType::StartUpload);
    assert_eq!(parameters.data, vec![0xAA, 0xBB]);
    assert!(parameters.items.is_empty());
}

#[test]
fn parameters_whose_items_do_not_fill_the_length_are_a_mismatch() {
    let mut bytes = read_message().parameters.unwrap().encode().unwrap();
    bytes.push(0x00);
    assert_eq!(S7Parameters::parse(&bytes, 25), Err(S7Error::LengthMismatch));
    assert_eq!(S7Parameters::parse(&bytes, 23), Err(S7Error::LengthMismatch));
    assert_eq!(S7Parameters::parse(&bytes, 1), Err(S7Error::LengthMismatch));
    assert_eq!(S7Parameters::parse(&bytes, 0), Err(S7Error::LengthMismatch));
    assert_eq!(S7Parameters::parse(&bytes, 26), Err(S7Error::TruncatedInput));
    assert!(S7Parameters::parse(&bytes, 24).is_ok());
}

#[test]
fn parameters_that_hold_what_their_type_has_no_place_for_are_not_written() {
    let mut parameters = read_message().parameters.unwrap();
    parameters.data.push(1);
    assert_eq!(parameters.encode(), Err(S7Error::InvalidLength));
    let setup = S7Parameters {
        parameter_type: ParameterType::Setup,
        items: vec![sample_item()],
        data: vec![],
    };
    assert_eq!(setup.encode(), Err(S7Error::InvalidLength));
    let crowded = S7Parameters {
        parameter_type: ParameterType::WriteVar,
        items: vec![sample_item(); 256],
        data: vec![],
    };
    assert_eq!(crowded.encode(), Err(S7Error::InvalidLength));
    let full = S7Parameters {
        parameter_type: ParameterType::WriteVar,
        items: vec![sample_item(); 255],
        data: vec![],
    };
    assert_eq!(full.encode().unwrap().len(), 2 + 11 * 255);
}

#[test]
fn message_round_trip() {
    for message in [read_message(), reply_message()] {
        let bytes = message.encode().unwrap();
        assert_eq!(S7Message::parse(&bytes), Ok((&[][..], message)));
    }
}

#[test]
fn message_encoding_recomputes_the_lengths() {
    let mut message = reply_message();
    message.header.parameter_length = 999;
    message.header.data_length = 0;
    let bytes = message.encode().unwrap();
    assert_eq!(&bytes[6..10], &[0x00, 0x02, 0x00, 0x0B]);
    assert_eq!(bytes, reply_message().encode().unwrap());
    assert_eq!(S7Message::parse(&bytes), Ok((&[][..], reply_message())));
}

#[test]
fn message_sections_are_present_exactly_when_announced() {
    let bare =
        S7Message { header: S7Header::new(MessageType::Ack, 9), parameters: None, payload: None };
    let bytes = bare.encode().unwrap();
    assert_eq!(bytes.len(), 10);
    let mut followed = bytes.clone();
    followed.extend_from_slice(&[0x04, 0x00]);
    let (remaining, message) = S7Message::parse(&followed).unwrap();
    assert_eq!(message, bare);
    assert_eq!(remaining, &[0x04, 0x00]);
}

#[test]
fn every_strict_prefix_of_a_message_is_truncated() {
    for message in [read_message(), reply_message()] {
        let bytes = message.encode().unwrap();
        for len in 0..bytes.len() {
            assert_eq!(S7Message::parse(&bytes[..len]), Err(S7Error::TruncatedInput), "at {}", len);
        }
    }
}

#[test]
fn connection_parameters_round_trip() {
    let parameters = [
        (ConnectionParameter::TpduSize(0x0A), vec![0xC0, 0x01, 0x0A]),
        (ConnectionParameter::SrcTsap(0x0100), vec![0xC1, 0x02, 0x01, 0x00]),
        (ConnectionParameter::DstTsap(0x0102), vec![0xC2, 0x02, 0x01, 0x02]),
    ];
    for (parameter, expected) in parameters {
        let mut bytes = Vec::new();
        parameter.encode_into(&mut bytes);
        assert_eq!(bytes, expected);
        bytes.push(0x55);
        assert_eq!(ConnectionParameter::parse(&bytes), Ok((&[0x55][..], parameter)));
    }
}

#[test]
fn connection_parameter_lengths_are_checked() {
    assert_eq!(ConnectionParameter::parse(&[0xC0, 0x02, 1, 2]), Err(S7Error::LengthMismatch));
    assert_eq!(ConnectionParameter::parse(&[0xC1, 0x01, 1]), Err(S7Error::LengthMismatch));
    assert_eq!(ConnectionParameter::parse(&[0xC2, 0x03, 1, 2, 3]), Err(S7Error::LengthMismatch));
    assert_eq!(ConnectionParameter::parse(&[0xC0]), Err(S7Error::TruncatedInput));
    assert_eq!(ConnectionParameter::parse(&[0xC0, 0x01]), Err(S7Error::TruncatedInput));
    assert_eq!(ConnectionParameter::parse(&[0xC1, 0x02, 1]), Err(S7Error::TruncatedInput));
}

#[test]
fn parse_all_reads_to_the_end() {
    let input = &[0xC0, 0x01, 0x09, 0xC2, 0x02, 0xAB, 0xCD];
    let (remaining, parameters) = ConnectionParameter::parse_all(input).unwrap();
    assert!(remaining.is_empty());
    assert_eq!(
        parameters,
        vec![ConnectionParameter::TpduSize(9), ConnectionParameter::DstTsap(0xABCD)]
    );
    let (remaining, parameters) = ConnectionParameter::parse_all(&[]).unwrap();
    assert!(remaining.is_empty());
    assert!(parameters.is_empty());
    assert_eq!(ConnectionParameter::parse_all(&input[..6]), Err(S7Error::TruncatedInput));
}

#[test]
fn connection_units_round_trip() {
    let parameters = vec![
        ConnectionParameter::TpduSize(0x0A),
        ConnectionParameter::SrcTsap(0x0100),
        ConnectionParameter::DstTsap(0x0102),
    ];
    let request = COTPPacket::ConnectionRequest(COTPConnectionRequest {
        dst_ref: 0,
        src_ref: 0x0001,
        class: 0,
        parameters: parameters.clone(),
    });
    let bytes = request.encode().unwrap();
    assert_eq!(
        bytes,
        vec![
            0x11, 0xE0, 0x00, 0x00, 0x00, 0x01, 0x00, 0xC0, 0x01, 0x0A, 0xC1, 0x02, 0x01, 0x00,
            0xC2, 0x02, 0x01, 0x02
        ]
    );
    assert_eq!(COTPPacket::parse(&bytes), Ok((&[][..], request)));

    let response = COTPPacket::ConnectionResponse(COTPConnectionResponse {
        dst_ref: 0x0001,
        src_ref: 0x4431,
        class: 0,
        parameters,
    });
    let mut bytes = response.encode().unwrap();
    assert_eq!(&bytes[..7], &[0x11, 0xD0, 0x00, 0x01, 0x44, 0x31, 0x00]);
    bytes.extend_from_slice(&[9, 9]);
    assert_eq!(COTPPacket::parse(&bytes), Ok((&[9, 9][..], response)));
}

#[test]
fn connection_unit_parameters_end_where_the_header_length_says() {
    // The header length covers one parameter; a second one follows but
    // belongs to whatever comes next.
    let input =
        &[0x09, 0xD0, 0x00, 0x01, 0x00, 0x02, 0x00, 0xC0, 0x01, 0x0A, 0xC1, 0x02, 0x01, 0x00];
    let (remaining, unit) = COTPPacket::parse(input).unwrap();
    assert_eq!(remaining, &[0xC1, 0x02, 0x01, 0x00]);
    match unit {
        COTPPacket::ConnectionResponse(response) => {
            assert_eq!(response.dst_ref, 1);
            assert_eq!(response.src_ref, 2);
            assert_eq!(response.parameters, vec![ConnectionParameter::TpduSize(0x0A)]);
        }
        other => panic!("not a connection response: {:?}", other),
    }
}

#[test]
fn connection_unit_with_a_wrong_header_length_is_a_mismatch() {
    // Too short to cover references and class.
    assert_eq!(
        COTPPacket::parse(&[0x05, 0xE0, 0, 0, 0, 1, 0]),
        Err(S7Error::LengthMismatch)
    );
    // Cuts a parameter in two.
    assert_eq!(
        COTPPacket::parse(&[0x08, 0xE0, 0, 0, 0, 1, 0, 0xC0, 0x01, 0x0A]),
        Err(S7Error::LengthMismatch)
    );
    // Announces more than is there.
    assert_eq!(
        COTPPacket::parse(&[0x0A, 0xE0, 0, 0, 0, 1, 0, 0xC0, 0x01, 0x0A]),
        Err(S7Error::TruncatedInput)
    );
    // A data unit has a header of two bytes.
    assert_eq!(COTPPacket::parse(&[0x03, 0xF0, 0x80]), Err(S7Error::LengthMismatch));
}

#[test]
fn connection_unit_that_does_not_fit_the_length_byte_is_not_written() {
    let fits = COTPPacket::ConnectionRequest(COTPConnectionRequest {
        dst_ref: 0,
        src_ref: 1,
        class: 0,
        parameters: vec![ConnectionParameter::TpduSize(1); 83],
    });
    assert_eq!(fits.encode().unwrap().len(), 256);
    assert_eq!(COTPPacket::parse(&fits.encode().unwrap()), Ok((&[][..], fits)));
    let too_long = COTPPacket::ConnectionRequest(COTPConnectionRequest {
        dst_ref: 0,
        src_ref: 1,
        class: 0,
        parameters: vec![ConnectionParameter::SrcTsap(1); 63],
    });
    assert_eq!(too_long.encode(), Err(S7Error::InvalidLength));
}

#[test]
fn data_unit_flags_hold_end_of_transmission_and_number() {
    let cases = [
        (true, 0u8, 0x80u8),
        (false, 0, 0x00),
        (true, 127, 0xFF),
        (false, 127, 0x7F),
        (true, 5, 0x85),
    ];
    for (eot, tpdu_ref, flags) in cases {
        let unit = COTPDataPacket {
            eot,
            tpdu_ref,
            data: S7Message {
                header: S7Header::new(MessageType::Ack, 1),
                parameters: None,
                payload: None,
            },
        };
        let bytes = unit.encode().unwrap();
        assert_eq!(bytes[0], flags);
        assert_eq!(bytes.len(), 11);
        assert_eq!(COTPDataPacket::parse(&bytes), Ok((&[][..], unit)));
    }
}

#[test]
fn data_unit_whose_number_needs_eight_bits_is_not_written() {
    let unit = COTPDataPacket {
        eot: false,
        tpdu_ref: 128,
        data: S7Message {
            header: S7Header::new(MessageType::Ack, 1),
            parameters: None,
            payload: None,
        },
    };
    assert_eq!(unit.encode(), Err(S7Error::InvalidLength));
}

#[test]
fn every_strict_prefix_of_a_unit_is_truncated() {
    let units = [
        COTPPacket::Data(COTPDataPacket { eot: true, tpdu_ref: 0, data: reply_message() }),
        COTPPacket::ConnectionRequest(COTPConnectionRequest {
            dst_ref: 0,
            src_ref: 1,
            class: 0,
            parameters: vec![ConnectionParameter::TpduSize(0x0A), ConnectionParameter::SrcTsap(2)],
        }),
    ];
    for unit in units {
        let bytes = unit.encode().unwrap();
        for len in 0..bytes.len() {
            let expected = Err(S7Error::TruncatedInput);
            assert_eq!(COTPPacket::parse(&bytes[..len]), expected, "at {}", len);
        }
    }
}

#[test]
fn frame_round_trip() {
    let bytes = data_frame(reply_message(), 0).encode().unwrap();
    assert_eq!(bytes.len(), 30);
    assert_eq!(&bytes[..7], &[0x03, 0x00, 0x00, 0x1E, 0x02, 0xF0, 0x85]);
    assert_eq!(TPKTPacket::parse(&bytes), Ok((&[][..], data_frame(reply_message(), 30))));
}

#[test]
fn frame_encoding_recomputes_the_total_length() {
    let stale = data_frame(read_message(), 4).encode().unwrap();
    let exact = data_frame(read_message(), 41).encode().unwrap();
    assert_eq!(stale, exact);
    assert_eq!(&exact[2..4], &[0x00, 0x29]);
    assert_eq!(exact.len(), 41);
}

#[test]
fn bytes_behind_the_declared_end_of_a_frame_are_handed_back() {
    let mut bytes = data_frame(read_message(), 0).encode().unwrap();
    bytes.extend_from_slice(&[0xDE, 0xAD, 0xBE, 0xEF]);
    let (remaining, frame) = TPKTPacket::parse(&bytes).unwrap();
    assert_eq!(remaining, &[0xDE, 0xAD, 0xBE, 0xEF]);
    assert_eq!(frame, data_frame(read_message(), 41));
}

#[test]
fn strict_prefixes_of_a_frame_are_refused() {
    let bytes = data_frame(reply_message(), 0).encode().unwrap();
    for len in 0..bytes.len() {
        let expected = if len < 4 { S7Error::TruncatedInput } else { S7Error::LengthMismatch };
        assert_eq!(TPKTPacket::parse(&bytes[..len]), Err(expected), "at {}", len);
    }
}

#[test]
fn frame_headers_are_checked() {
    let good = data_frame(read_message(), 0).encode().unwrap();
    let mut wrong_version = good.clone();
    wrong_version[0] = 0x04;
    assert_eq!(TPKTPacket::parse(&wrong_version), Err(S7Error::MalformedHeader));
    assert_eq!(TPKTPacket::declared_length(&wrong_version), Err(S7Error::MalformedHeader));
    let mut wrong_reserved = good.clone();
    wrong_reserved[1] = 0x01;
    assert_eq!(TPKTPacket::parse(&wrong_reserved), Err(S7Error::MalformedHeader));
    assert_eq!(TPKTPacket::declared_length(&[0x03, 0x00, 0x00]), Err(S7Error::TruncatedInput));
    assert_eq!(
        TPKTPacket::declared_length(&[0x03, 0x00, 0x00, 0x03]),
        Err(S7Error::LengthMismatch)
    );
    assert_eq!(TPKTPacket::declared_length(&good[..4]), Ok(41));
}

#[test]
fn frame_whose_length_disagrees_with_its_unit_is_a_mismatch() {
    let good = data_frame(read_message(), 0).encode().unwrap();
    // One byte less than the unit needs.
    let mut short = good.clone();
    short[3] -= 1;
    assert_eq!(TPKTPacket::parse(&short), Err(S7Error::LengthMismatch));
    // One byte more than the unit fills.
    let mut long = good.clone();
    long[3] += 1;
    long.push(0);
    assert_eq!(TPKTPacket::parse(&long), Err(S7Error::LengthMismatch));
}

#[test]
fn frame_that_does_not_fit_the_length_field_is_not_written() {
    let big = PayloadItem {
        return_code: ReturnCode::Success,
        transport_size: TransportSize::Byte,
        data: vec![0; 65531],
    };
    let mut message = reply_message();
    message.parameters = None;
    message.payload = Some(S7Payload { items: vec![big] });
    assert_eq!(message.encode().unwrap().len(), 10 + 65535);
    assert_eq!(data_frame(message, 0).encode(), Err(S7Error::InvalidLength));
}
