use plc4rs::connection::{COTPConnectionRequest, COTPConnectionResponse, ConnectionParameter};
use plc4rs::cotp::{COTPDataPacket, COTPPacket};
use plc4rs::error::S7Error;
use plc4rs::header::{MessageType, S7Header};
use plc4rs::message::S7Message;
use plc4rs::negotiation::{
    confirms_connection, granted_pdu_size, FailureReason, NegotiationState, S7Connector,
};
use plc4rs::item::ParameterItem;
use plc4rs::parameters::S7Parameters;
use plc4rs::codes::{Area, ParameterType, SyntaxId, TransportSize, VarSpec};
use plc4rs::tpkt::TPKTPacket;

fn frame(payload: COTPPacket) -> TPKTPacket {
    TPKTPacket { protocol_id: 0x03, reserved: 0, length: 0, payload }
}

fn response(dst_ref: u16) -> TPKTPacket {
    frame(COTPPacket::ConnectionResponse(COTPConnectionResponse {
        dst_ref,
        src_ref: 0x4431,
        class: 0,
        parameters: vec![ConnectionParameter::TpduSize(0x0A)],
    }))
}

fn s7_frame(message_type: MessageType, parameters: Option<S7Parameters>) -> TPKTPacket {
    frame(COTPPacket::Data(COTPDataPacket {
        eot: true,
        tpdu_ref: 0,
        data: S7Message { header: S7Header::new(message_type, 0), parameters, payload: None },
    }))
}

fn acknowledgement(pdu_size: u16) -> TPKTPacket {
    s7_frame(MessageType::AckData, Some(S7Parameters::setup(1, 1, pdu_size)))
}

fn read_job() -> S7Message {
    S7Message {
        header: S7Header::new(MessageType::JobRequest, 7),
        parameters: Some(S7Parameters {
            parameter_type: ParameterType::ReadVar,
            items: vec![ParameterItem::new(
                VarSpec::Byte,
                0x0A,
                SyntaxId::S7Any,
                TransportSize::Byte,
                Area::DataBlocks,
                1,
                0,
            )],
            data: vec![],
        }),
        payload: None,
    }
}

fn established(local_ref: u16, proposed: u16, granted: u16) -> S7Connector {
    let mut connector = S7Connector::with_parameters(local_ref, proposed);
    connector.connection_request().unwrap();
    connector.negotiate(&response(local_ref)).unwrap();
    connector.setup_request().unwrap();
    connector.negotiate(&acknowledgement(granted)).unwrap();
    connector
}

#[test]
fn test_connection_handshake() {
    let mut connector = S7Connector::new();
    assert_eq!(connector.state(), NegotiationState::Idle);
    assert_eq!(connector.negotiated_pdu_size(), 0);

    let request = connector.connection_request().unwrap();
    assert_eq!(connector.state(), NegotiationState::CotpConnecting);
    assert_eq!(
        request.encode().unwrap(),
        vec![
            0x03, 0x00, 0x00, 0x16, 0x11, 0xE0, 0x00, 0x00, 0x00, 0x01, 0x00, 0xC0, 0x01, 0x0A,
            0xC1, 0x02, 0x01, 0x00, 0xC2, 0x02, 0x01, 0x02
        ]
    );
    assert_eq!(request.length, 22);

    assert_eq!(connector.negotiate(&response(1)), Ok(()));
    assert_eq!(connector.state(), NegotiationState::CotpConnected);

    let setup = connector.setup_request().unwrap();
    assert_eq!(connector.state(), NegotiationState::PduNegotiating);
    assert_eq!(
        setup.encode().unwrap(),
        vec![
            0x03, 0x00, 0x00, 0x19, 0x02, 0xF0, 0x80, 0x32, 0x01, 0x00, 0x00, 0x00, 0x00, 0x00,
            0x08, 0x00, 0x00, 0xF0, 0x00, 0x00, 0x01, 0x00, 0x01, 0x01, 0xE0
        ]
    );
    assert_eq!(setup.length, 25);
    assert_eq!(TPKTPacket::parse(&setup.encode().unwrap()), Ok((&[][..], setup)));

    assert_eq!(connector.negotiate(&acknowledgement(240)), Ok(()));
    assert_eq!(connector.state(), NegotiationState::Established);
    assert_eq!(connector.negotiated_pdu_size(), 240);
    assert_eq!(connector.check_established(), Ok(()));
}

#[test]
fn handshake_over_bytes() {
    let mut connector = S7Connector::with_parameters(0x0007, 960);
    connector.connection_request().unwrap();
    let reply = [
        0x03, 0x00, 0x00, 0x16, 0x11, 0xD0, 0x00, 0x07, 0x44, 0x31, 0x00, 0xC0, 0x01, 0x0A, 0xC1,
        0x02, 0x01, 0x00, 0xC2, 0x02, 0x01, 0x02,
    ];
    let (_, confirmed) = TPKTPacket::parse(&reply).unwrap();
    assert_eq!(connector.negotiate(&confirmed), Ok(()));
    connector.setup_request().unwrap();
    let reply = [
        0x03, 0x00, 0x00, 0x19, 0x02, 0xF0, 0x80, 0x32, 0x03, 0x00, 0x00, 0x00, 0x00, 0x00, 0x08,
        0x00, 0x00, 0xF0, 0x00, 0x00, 0x01, 0x00, 0x01, 0x03, 0xC0,
    ];
    let (_, granted) = TPKTPacket::parse(&reply).unwrap();
    assert_eq!(connector.negotiate(&granted), Ok(()));
    assert_eq!(connector.state(), NegotiationState::Established);
    assert_eq!(connector.negotiated_pdu_size(), 960);
}

#[test]
fn application_traffic_before_established_is_refused() {
    let mut connector = S7Connector::new();
    assert_eq!(connector.check_established(), Err(S7Error::NotEstablished));
    assert_eq!(connector.application_frame(read_job()), Err(S7Error::NotEstablished));
    connector.connection_request().unwrap();
    assert_eq!(connector.application_frame(read_job()), Err(S7Error::NotEstablished));
    connector.negotiate(&response(1)).unwrap();
    assert_eq!(connector.application_frame(read_job()), Err(S7Error::NotEstablished));
    connector.setup_request().unwrap();
    assert_eq!(connector.application_frame(read_job()), Err(S7Error::NotEstablished));
    assert_eq!(connector.state(), NegotiationState::PduNegotiating);
    connector.negotiate(&acknowledgement(0)).unwrap_err();
    assert_eq!(connector.application_frame(read_job()), Err(S7Error::NotEstablished));
}

#[test]
fn application_traffic_once_established_is_framed() {
    let connector = established(3, 480, 480);
    let frame = connector.application_frame(read_job()).unwrap();
    assert_eq!(frame.length, 30);
    match &frame.payload {
        COTPPacket::Data(unit) => {
            assert!(unit.eot);
            assert_eq!(unit.tpdu_ref, 0);
            assert_eq!(unit.data, read_job());
        }
        other => panic!("not a data unit: {:?}", other),
    }
    let bytes = frame.encode().unwrap();
    assert_eq!(bytes.len(), 30);
    let (remaining, decoded) = TPKTPacket::parse(&bytes).unwrap();
    assert!(remaining.is_empty());
    assert_eq!(decoded.length, 30);
}

#[test]
fn application_message_above_the_negotiated_size_is_refused() {
    // The read job takes 23 bytes.
    assert_eq!(read_job().encode().unwrap().len(), 23);
    let tight = established(3, 480, 22);
    assert_eq!(tight.application_frame(read_job()), Err(S7Error::InvalidLength));
    let exact = established(3, 480, 23);
    assert!(exact.application_frame(read_job()).is_ok());
    let mut broken = read_job();
    broken.parameters.as_mut().unwrap().data.push(0);
    assert_eq!(exact.application_frame(broken), Err(S7Error::InvalidLength));
}

#[test]
fn response_for_another_reference_fails_the_negotiation() {
    let mut connector = S7Connector::with_parameters(5, 480);
    connector.connection_request().unwrap();
    assert_eq!(connector.negotiate(&response(6)), Err(S7Error::UnexpectedFrame));
    assert_eq!(connector.state(), NegotiationState::Failed(FailureReason::UnexpectedFrame));
    assert_eq!(connector.negotiate(&response(5)), Err(S7Error::UnexpectedFrame));
    assert_eq!(connector.setup_request(), Err(S7Error::UnexpectedFrame));
    assert_eq!(connector.connection_request(), Err(S7Error::UnexpectedFrame));
    assert_eq!(connector.state(), NegotiationState::Failed(FailureReason::UnexpectedFrame));
}

#[test]
fn frame_of_another_kind_while_connecting_fails_the_negotiation() {
    let mut connector = S7Connector::new();
    connector.connection_request().unwrap();
    assert_eq!(connector.negotiate(&acknowledgement(240)), Err(S7Error::UnexpectedFrame));
    assert_eq!(connector.state(), NegotiationState::Failed(FailureReason::UnexpectedFrame));

    let mut connector = S7Connector::new();
    connector.connection_request().unwrap();
    let request = frame(COTPPacket::ConnectionRequest(COTPConnectionRequest {
        dst_ref: 1,
        src_ref: 1,
        class: 0,
        parameters: vec![],
    }));
    assert_eq!(connector.negotiate(&request), Err(S7Error::UnexpectedFrame));
}

#[test]
fn frame_that_nothing_awaits_fails_the_negotiation() {
    let mut connector = S7Connector::new();
    assert_eq!(connector.negotiate(&response(1)), Err(S7Error::UnexpectedFrame));
    assert_eq!(connector.state(), NegotiationState::Failed(FailureReason::UnexpectedFrame));

    let mut connector = S7Connector::new();
    connector.connection_request().unwrap();
    connector.negotiate(&response(1)).unwrap();
    assert_eq!(connector.negotiate(&acknowledgement(240)), Err(S7Error::UnexpectedFrame));
    assert_eq!(connector.state(), NegotiationState::Failed(FailureReason::UnexpectedFrame));
}

#[test]
fn setup_replies_that_grant_nothing_are_rejections() {
    let replies = [
        acknowledgement(0),
        acknowledgement(481),
        s7_frame(MessageType::Ack, Some(S7Parameters::setup(1, 1, 240))),
        s7_frame(MessageType::JobRequest, Some(S7Parameters::setup(1, 1, 240))),
        s7_frame(MessageType::AckData, None),
        s7_frame(
            MessageType::AckData,
            Some(S7Parameters {
                parameter_type: ParameterType::ReadVar,
                items: vec![],
                data: vec![],
            }),
        ),
        s7_frame(
            MessageType::AckData,
            Some(S7Parameters {
                parameter_type: ParameterType::Setup,
                items: vec![],
                data: vec![0, 0, 1, 0, 1, 0xF0],
            }),
        ),
        response(1),
    ];
    for reply in replies {
        assert_eq!(granted_pdu_size(&reply, 480), None);
        let mut connector = S7Connector::new();
        connector.connection_request().unwrap();
        connector.negotiate(&response(1)).unwrap();
        connector.setup_request().unwrap();
        assert_eq!(connector.negotiate(&reply), Err(S7Error::NegotiationRejected));
        assert_eq!(connector.state(), NegotiationState::Failed(FailureReason::NegotiationRejected));
        assert_eq!(connector.negotiated_pdu_size(), 0);
        assert_eq!(connector.negotiate(&acknowledgement(240)), Err(S7Error::NegotiationRejected));
    }
}

#[test]
fn granted_size_is_above_zero_and_not_above_the_proposal() {
    assert_eq!(granted_pdu_size(&acknowledgement(1), 480), Some(1));
    assert_eq!(granted_pdu_size(&acknowledgement(480), 480), Some(480));
    assert_eq!(granted_pdu_size(&acknowledgement(481), 480), None);
    assert_eq!(granted_pdu_size(&acknowledgement(0), 480), None);
    assert_eq!(granted_pdu_size(&acknowledgement(1), 0), None);
    assert!(confirms_connection(&response(9), 9));
    assert!(!confirms_connection(&response(9), 10));
    assert!(!confirms_connection(&acknowledgement(9), 9));
}

#[test]
fn steps_out_of_order_are_refused_and_change_nothing() {
    let mut connector = S7Connector::new();
    assert_eq!(connector.setup_request(), Err(S7Error::NotConnected));
    assert_eq!(connector.state(), NegotiationState::Idle);
    connector.connection_request().unwrap();
    assert_eq!(connector.setup_request(), Err(S7Error::NotConnected));
    assert_eq!(connector.connection_request(), Err(S7Error::AlreadyConnected));
    assert_eq!(connector.state(), NegotiationState::CotpConnecting);
    connector.negotiate(&response(1)).unwrap();
    assert_eq!(connector.connection_request(), Err(S7Error::AlreadyConnected));
    connector.setup_request().unwrap();
    assert_eq!(connector.setup_request(), Err(S7Error::AlreadyConnected));
    assert_eq!(connector.state(), NegotiationState::PduNegotiating);
    connector.negotiate(&acknowledgement(100)).unwrap();
    assert_eq!(connector.connection_request(), Err(S7Error::AlreadyConnected));
    assert_eq!(connector.setup_request(), Err(S7Error::AlreadyConnected));
    assert_eq!(connector.negotiate(&acknowledgement(100)), Err(S7Error::AlreadyConnected));
    assert_eq!(connector.state(), NegotiationState::Established);
    assert_eq!(connector.negotiated_pdu_size(), 100);
}

#[test]
fn closed_session_refuses_everything() {
    let states = [
        S7Connector::new(),
        established(1, 480, 240),
        {
            let mut failed = S7Connector::new();
            failed.negotiate(&response(1)).unwrap_err();
            failed
        },
    ];
    for mut connector in states {
        connector.close();
        assert_eq!(connector.state(), NegotiationState::Closed);
        assert_eq!(connector.connection_request(), Err(S7Error::ConnectionClosed));
        assert_eq!(connector.setup_request(), Err(S7Error::ConnectionClosed));
        assert_eq!(connector.negotiate(&response(1)), Err(S7Error::ConnectionClosed));
        assert_eq!(connector.check_established(), Err(S7Error::ConnectionClosed));
        assert_eq!(connector.application_frame(read_job()), Err(S7Error::ConnectionClosed));
        connector.close();
        assert_eq!(connector.state(), NegotiationState::Closed);
    }
}

#[test]
fn failure_reasons_name_their_errors() {
    assert_eq!(FailureReason::UnexpectedFrame.error(), S7Error::UnexpectedFrame);
    assert_eq!(FailureReason::NegotiationRejected.error(), S7Error::NegotiationRejected);
}
