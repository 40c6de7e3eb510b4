use plc4rs::codes::{Area, ParameterType, ReturnCode, SyntaxId, TransportSize, VarSpec};
use plc4rs::connection::{COTPConnectionRequest, ConnectionParameter};
use plc4rs::cotp::{COTPDataPacket, COTPPacket};
use plc4rs::error::S7Error;
use plc4rs::header::{MessageType, S7Header};
use plc4rs::message::S7Message;
use plc4rs::item::ParameterItem;
use plc4rs::parameters::S7Parameters;
use plc4rs::payload::{PayloadItem, S7Payload};
use plc4rs::tpkt::TPKTPacket;

fn write_parameters() -> S7Parameters {
    S7Parameters {
        parameter_type: ParameterType::WriteVar,
        items: vec![ParameterItem::new(
            VarSpec::Word,
            0x0A,
            SyntaxId::S7Any,
            TransportSize::Word,
            Area::Outputs,
            0,
            0x10,
        )],
        data: vec![],
    }
}

fn write_payload() -> S7Payload {
    S7Payload {
        items: vec![PayloadItem {
            return_code: ReturnCode::Success,
            transport_size: TransportSize::Word,
            data: vec![0xCA, 0xFE],
        }],
    }
}

#[test]
fn new_message_announces_its_sections() {
    let message = S7Message::new(
        MessageType::JobRequest,
        0x0A0B,
        Some(write_parameters()),
        Some(write_payload()),
    )
    .unwrap();
    assert_eq!(
        message.header,
        S7Header {
            protocol_id: 0x32,
            message_type: MessageType::JobRequest,
            reserved: 0,
            pdu_reference: 0x0A0B,
            parameter_length: 13,
            data_length: 6,
        }
    );
    assert_eq!(message.parameters, Some(write_parameters()));
    assert_eq!(message.payload, Some(write_payload()));
    assert!(message.is_valid());
    let bytes = message.encode().unwrap();
    assert_eq!(bytes.len(), 29);
    assert_eq!(S7Message::parse(&bytes), Ok((&[][..], message)));
}

#[test]
fn new_message_without_sections() {
    let message = S7Message::new(MessageType::Ack, 3, None, None).unwrap();
    assert_eq!(message.header, S7Header::new(MessageType::Ack, 3));
    assert!(message.is_valid());
    assert_eq!(message.encode().unwrap(), vec![0x32, 0x02, 0, 0, 0, 3, 0, 0, 0, 0]);
}

#[test]
fn new_message_refuses_sections_that_are_not_valid() {
    let mut parameters = write_parameters();
    parameters.items[0].length = 7;
    assert_eq!(
        S7Message::new(MessageType::JobRequest, 1, Some(parameters), None),
        Err(S7Error::InvalidLength)
    );
    assert_eq!(
        S7Message::new(MessageType::JobRequest, 1, None, Some(S7Payload { items: vec![] })),
        Err(S7Error::InvalidLength)
    );
    let long = PayloadItem {
        return_code: ReturnCode::Success,
        transport_size: TransportSize::Byte,
        data: vec![0; 65536],
    };
    assert_eq!(
        S7Message::new(MessageType::JobRequest, 1, None, Some(S7Payload { items: vec![long] })),
        Err(S7Error::InvalidLength)
    );
}

#[test]
fn message_validity_follows_the_header() {
    let valid =
        S7Message::new(MessageType::UserData, 1, Some(write_parameters()), Some(write_payload()))
            .unwrap();
    let mut stale = valid.clone();
    stale.header.parameter_length = 12;
    assert!(!stale.is_valid());
    let mut stale = valid.clone();
    stale.header.data_length = 0;
    assert!(!stale.is_valid());
    let mut foreign = valid.clone();
    foreign.header.protocol_id = 0x31;
    assert!(!foreign.is_valid());
    let mut emptied = valid.clone();
    emptied.payload = Some(S7Payload { items: vec![] });
    emptied.header.data_length = 0;
    assert!(!emptied.is_valid());
    let mut reserved = valid.clone();
    reserved.header.reserved = 0xBEEF;
    assert!(reserved.is_valid());
    // What is not valid is still written, with the lengths as they are.
    assert_eq!(stale.encode(), valid.encode());
}

#[test]
fn new_frame_carries_the_written_length() {
    let message =
        S7Message::new(MessageType::JobRequest, 1, Some(write_parameters()), None).unwrap();
    let unit = COTPPacket::Data(COTPDataPacket { eot: true, tpdu_ref: 0, data: message });
    let frame = TPKTPacket::new(unit.clone()).unwrap();
    assert_eq!(frame.protocol_id, 0x03);
    assert_eq!(frame.reserved, 0);
    assert_eq!(frame.length, 4 + 3 + 10 + 13);
    assert_eq!(frame.payload, unit);
    assert!(frame.is_valid());
    let bytes = frame.encode().unwrap();
    assert_eq!(bytes.len(), 30);
    assert_eq!(TPKTPacket::parse(&bytes), Ok((&[][..], frame)));
}

#[test]
fn new_frame_refuses_what_cannot_be_written() {
    let unit = COTPPacket::Data(COTPDataPacket {
        eot: true,
        tpdu_ref: 200,
        data: S7Message::new(MessageType::Ack, 1, None, None).unwrap(),
    });
    assert!(!unit.is_valid());
    assert_eq!(TPKTPacket::new(unit), Err(S7Error::InvalidLength));
}

#[test]
fn frame_validity_follows_the_header() {
    let request = COTPPacket::ConnectionRequest(COTPConnectionRequest {
        dst_ref: 0,
        src_ref: 1,
        class: 0,
        parameters: vec![ConnectionParameter::TpduSize(0x0A)],
    });
    assert!(request.is_valid());
    let valid = TPKTPacket::new(request).unwrap();
    assert_eq!(valid.length, 14);
    assert!(valid.is_valid());
    let headers = [(0x02u8, 0u8, 14u16), (0x03, 1, 14), (0x03, 0, 15), (0x03, 0, 13)];
    for (protocol_id, reserved, length) in headers {
        let mut frame = valid.clone();
        frame.protocol_id = protocol_id;
        frame.reserved = reserved;
        frame.length = length;
        assert!(!frame.is_valid());
    }
    let crowded = COTPPacket::ConnectionRequest(COTPConnectionRequest {
        dst_ref: 0,
        src_ref: 1,
        class: 0,
        parameters: vec![ConnectionParameter::TpduSize(0x0A); 84],
    });
    assert!(!crowded.is_valid());
}

#[test]
fn every_decoded_frame_is_valid_and_is_written_as_it_was_read() {
    let inputs: [&[u8]; 3] = [
        &[0x03, 0x00, 0x00, 0x11, 0x02, 0xF0, 0x80, 0x32, 0x01, 0, 0, 0, 1, 0, 0, 0, 0],
        &[0x03, 0x00, 0x00, 0x0E, 0x09, 0xD0, 0x00, 0x01, 0x00, 0x02, 0x00, 0xC0, 0x01, 0x0A],
        &[
            0x03, 0x00, 0x00, 0x1B, 0x02, 0xF0, 0x05, 0x32, 0x03, 0xAB, 0xCD, 0x00, 0x09, 0x00,
            0x02, 0x00, 0x08, 0x05, 0x00, 0x00, 0x04, 0x00, 0x00, 0x05, 0x02, 0x00, 0x00,
        ],
    ];
    for input in inputs {
        let (remaining, frame) = TPKTPacket::parse(input).unwrap();
        assert!(remaining.is_empty());
        assert!(frame.is_valid());
        assert_eq!(frame.encode().unwrap(), input.to_vec());
    }
}
