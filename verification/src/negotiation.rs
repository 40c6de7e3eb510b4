//! The session handshake: a COTP connection is requested and confirmed, then
//! the PDU size is proposed and accepted.  Only an established session lets
//! application messages through.
//!
//! The connector performs no input or output.  Each operation is one step of
//! the state machine: it takes what happened, moves to the next state, and
//! hands back what is to be sent.

use vstd::prelude::*;
use crate::connection::{
    lemma_connection_round_trip, spec_encode_all, COTPConnectionRequest, ConnectionParameter,
    ConnectionView,
};
use crate::cotp::{COTPDataPacket, COTPDataPacketView, COTPPacket, COTPPacketView};
use crate::error::{fails_as_state, S7Error};
use crate::header::{MessageType, S7Header, S7_PROTOCOL_ID};
use crate::message::{lemma_message_section_lens, S7Message, S7MessageView};
use crate::parameters::{lemma_setup_carries_pdu_size, S7Parameters, S7ParametersView};
use crate::tpkt::{TPKTPacket, TPKTPacketView, MAX_FRAME_LEN, TPKT_VERSION};

verus! {

/// Why a negotiation failed.
#[derive(Debug, Clone, Copy, PartialEq, Eq, Structural)]
pub enum FailureReason {
    /// The peer answered with a frame that the state did not await, or with
    /// a connection response for another reference.
    UnexpectedFrame,
    /// The peer did not acknowledge the setup, or acknowledged it with a PDU
    /// size of zero or above the proposed size.
    NegotiationRejected,
}

impl FailureReason {
    /// The error that reports this failure.
    pub open spec fn spec_error(self) -> S7Error {
        match self {
            FailureReason::UnexpectedFrame => S7Error::UnexpectedFrame,
            FailureReason::NegotiationRejected => S7Error::NegotiationRejected,
        }
    }

    /// The error that reports this failure.
    pub fn error(&self) -> (r: S7Error)
        ensures
            r == self.spec_error(),
    {
        match self {
            FailureReason::UnexpectedFrame => S7Error::UnexpectedFrame,
            FailureReason::NegotiationRejected => S7Error::NegotiationRejected,
        }
    }
}

/// The states of a session.
#[derive(Debug, Clone, Copy, PartialEq, Eq, Structural)]
pub enum NegotiationState {
    /// Nothing has been sent.
    Idle,
    /// The connection request has been sent.
    CotpConnecting,
    /// The connection response has arrived.
    CotpConnected,
    /// The setup request has been sent.
    PduNegotiating,
    /// The PDU size has been agreed; application messages may be sent.
    Established,
    /// The session has been closed.
    Closed,
    /// The negotiation has failed; the session can only be closed.
    Failed(FailureReason),
}

/// The TPDU size that a connection request asks for, as a size code.
pub const REQUESTED_TPDU_SIZE: u8 = 0x0A;

/// The source TSAP of a connection request.
pub const LOCAL_TSAP: u16 = 0x0100;

/// The destination TSAP of a connection request.
pub const REMOTE_TSAP: u16 = 0x0102;

/// The job queue limit that a setup request proposes for either side.
pub const PROPOSED_AMQ: u16 = 1;

/// The reference by which a new connector names its side.
pub const DEFAULT_LOCAL_REF: u16 = 1;

/// The PDU size that a new connector proposes.
pub const DEFAULT_PDU_SIZE: u16 = 480;

/// The total length of a connection request frame.
pub const CONNECTION_REQUEST_FRAME_LEN: u16 = 22;

/// The total length of a setup request frame.
pub const SETUP_REQUEST_FRAME_LEN: u16 = 25;

/// The number of bytes that TPKT and COTP put in front of the message of a
/// data frame.
pub const DATA_FRAME_OVERHEAD: usize = 7;

/// The length of the parameter section of a setup request.
pub const SETUP_SECTION_LEN: u16 = 8;

/// Whether `frame` is the connection response that a request with the
/// reference `local_ref` awaits.
pub open spec fn spec_confirms_connection(frame: TPKTPacketView, local_ref: u16) -> bool {
    frame.payload matches COTPPacketView::ConnectionResponse(response) && response.dst_ref
        == local_ref
}

/// The PDU size that `frame` grants to a setup that proposed `proposed`: the
/// frame must carry an acknowledgement with data whose setup section names a
/// size above zero and not above the proposed one.
pub open spec fn spec_granted_pdu_size(frame: TPKTPacketView, proposed: u16) -> Option<u16> {
    match frame.payload {
        COTPPacketView::Data(unit) => if unit.data.header.message_type == MessageType::AckData {
            match unit.data.parameters {
                Some(parameters) => match parameters.spec_pdu_size() {
                    Some(size) => if 0 < size <= proposed {
                        Some(size)
                    } else {
                        None
                    },
                    None => None,
                },
                None => None,
            }
        } else {
            None
        },
        _ => None,
    }
}

/// The frame that requests a connection under the reference `local_ref`.
pub open spec fn spec_connection_request_frame(local_ref: u16) -> TPKTPacketView {
    TPKTPacketView {
        protocol_id: TPKT_VERSION,
        reserved: 0,
        length: CONNECTION_REQUEST_FRAME_LEN,
        payload: COTPPacketView::ConnectionRequest(
            ConnectionView {
                dst_ref: 0,
                src_ref: local_ref,
                class: 0,
                parameters: seq![
                    ConnectionParameter::TpduSize(REQUESTED_TPDU_SIZE),
                    ConnectionParameter::SrcTsap(LOCAL_TSAP),
                    ConnectionParameter::DstTsap(REMOTE_TSAP),
                ],
            },
        ),
    }
}

/// The message that proposes the PDU size `proposed`.
pub open spec fn spec_setup_request_message(proposed: u16) -> S7MessageView {
    S7MessageView {
        header: S7Header {
            protocol_id: S7_PROTOCOL_ID,
            message_type: MessageType::JobRequest,
            reserved: 0,
            pdu_reference: 0,
            parameter_length: SETUP_SECTION_LEN,
            data_length: 0,
        },
        parameters: Some(S7ParametersView::spec_setup(PROPOSED_AMQ, PROPOSED_AMQ, proposed)),
        payload: None,
    }
}

/// The frame that carries `message` as one complete data unit.  Its length
/// field is `length`.
pub open spec fn spec_data_frame(message: S7MessageView, length: u16) -> TPKTPacketView {
    TPKTPacketView {
        protocol_id: TPKT_VERSION,
        reserved: 0,
        length,
        payload: COTPPacketView::Data(COTPDataPacketView { eot: true, tpdu_ref: 0, data: message }),
    }
}

/// The frame that proposes the PDU size `proposed`.
pub open spec fn spec_setup_request_frame(proposed: u16) -> TPKTPacketView {
    spec_data_frame(spec_setup_request_message(proposed), SETUP_REQUEST_FRAME_LEN)
}

/// A session as a mathematical value.
pub struct SessionView {
    /// The state.
    pub state: NegotiationState,
    /// The reference by which this side names the connection.
    pub local_ref: u16,
    /// The PDU size that this side proposes.
    pub proposed_pdu_size: u16,
    /// The PDU size that the peer granted; zero until the session is
    /// established.
    pub negotiated_pdu_size: u16,
}

impl SessionView {
    /// A session in which nothing has been sent.
    pub open spec fn initial(local_ref: u16, proposed_pdu_size: u16) -> SessionView {
        SessionView {
            state: NegotiationState::Idle,
            local_ref,
            proposed_pdu_size,
            negotiated_pdu_size: 0,
        }
    }

    /// The session in the state `state`, otherwise unchanged.
    pub open spec fn moved_to(self, state: NegotiationState) -> SessionView {
        SessionView { state, ..self }
    }

    /// Whether a connection request may be sent: only from the idle state.
    pub open spec fn connection_request_result(self) -> Result<(), S7Error> {
        match self.state {
            NegotiationState::Idle => Ok(()),
            NegotiationState::Closed => Err(S7Error::ConnectionClosed),
            NegotiationState::Failed(reason) => Err(reason.spec_error()),
            _ => Err(S7Error::AlreadyConnected),
        }
    }

    /// The session after an attempt to send a connection request.
    pub open spec fn after_connection_request(self) -> SessionView {
        if self.state == NegotiationState::Idle {
            self.moved_to(NegotiationState::CotpConnecting)
        } else {
            self
        }
    }

    /// Whether a setup request may be sent: only once the connection is
    /// confirmed and before a setup has been sent.
    pub open spec fn setup_request_result(self) -> Result<(), S7Error> {
        match self.state {
            NegotiationState::CotpConnected => Ok(()),
            NegotiationState::Closed => Err(S7Error::ConnectionClosed),
            NegotiationState::Failed(reason) => Err(reason.spec_error()),
            NegotiationState::Idle => Err(S7Error::NotConnected),
            NegotiationState::CotpConnecting => Err(S7Error::NotConnected),
            _ => Err(S7Error::AlreadyConnected),
        }
    }

    /// The session after an attempt to send a setup request.
    pub open spec fn after_setup_request(self) -> SessionView {
        if self.state == NegotiationState::CotpConnected {
            self.moved_to(NegotiationState::PduNegotiating)
        } else {
            self
        }
    }

    /// What a received frame means to the negotiation.  While connecting,
    /// only the awaited connection response is accepted.  While the PDU size
    /// is negotiated, only an acknowledgement that grants a size is
    /// accepted.  Before a request has been sent, no frame is awaited.  An
    /// established session negotiates no more.
    pub open spec fn frame_result(self, frame: TPKTPacketView) -> Result<(), S7Error> {
        match self.state {
            NegotiationState::CotpConnecting => if spec_confirms_connection(
                frame,
                self.local_ref,
            ) {
                Ok(())
            } else {
                Err(S7Error::UnexpectedFrame)
            },
            NegotiationState::PduNegotiating => if spec_granted_pdu_size(
                frame,
                self.proposed_pdu_size,
            ) is Some {
                Ok(())
            } else {
                Err(S7Error::NegotiationRejected)
            },
            NegotiationState::Idle => Err(S7Error::UnexpectedFrame),
            NegotiationState::CotpConnected => Err(S7Error::UnexpectedFrame),
            NegotiationState::Established => Err(S7Error::AlreadyConnected),
            NegotiationState::Closed => Err(S7Error::ConnectionClosed),
            NegotiationState::Failed(reason) => Err(reason.spec_error()),
        }
    }

    /// The session after a frame has been received.  An accepted frame
    /// advances the negotiation; a frame that is refused before the session
    /// is established makes the negotiation fail.  Established, closed and
    /// failed sessions stay as they are.
    pub open spec fn after_frame(self, frame: TPKTPacketView) -> SessionView {
        match self.state {
            NegotiationState::CotpConnecting => if spec_confirms_connection(
                frame,
                self.local_ref,
            ) {
                self.moved_to(NegotiationState::CotpConnected)
            } else {
                self.moved_to(NegotiationState::Failed(FailureReason::UnexpectedFrame))
            },
            NegotiationState::PduNegotiating => match spec_granted_pdu_size(
                frame,
                self.proposed_pdu_size,
            ) {
                Some(size) => SessionView {
                    state: NegotiationState::Established,
                    negotiated_pdu_size: size,
                    ..self
                },
                None => self.moved_to(NegotiationState::Failed(FailureReason::NegotiationRejected)),
            },
            NegotiationState::Idle => self.moved_to(
                NegotiationState::Failed(FailureReason::UnexpectedFrame),
            ),
            NegotiationState::CotpConnected => self.moved_to(
                NegotiationState::Failed(FailureReason::UnexpectedFrame),
            ),
            _ => self,
        }
    }

    /// Whether application messages may be sent: only in the established
    /// state.
    pub open spec fn application_result(self) -> Result<(), S7Error> {
        match self.state {
            NegotiationState::Established => Ok(()),
            NegotiationState::Closed => Err(S7Error::ConnectionClosed),
            _ => Err(S7Error::NotEstablished),
        }
    }

    /// Whether `message` may be sent as application traffic of this session,
    /// given that the session is established: it must be writable, not
    /// longer than the negotiated PDU size, and fit a frame together with
    /// the seven bytes of TPKT and COTP headers.
    pub open spec fn admits(self, message: S7MessageView) -> bool {
        &&& message.encodable()
        &&& message.spec_encode().len() <= self.negotiated_pdu_size
        &&& message.spec_encode().len() + DATA_FRAME_OVERHEAD <= MAX_FRAME_LEN
    }
}

/// The state machine of one S7 session.
#[derive(Debug, Clone, Copy, PartialEq, Eq)]
pub struct S7Connector {
    state: NegotiationState,
    local_ref: u16,
    proposed_pdu_size: u16,
    negotiated_pdu_size: u16,
}

impl View for S7Connector {
    type V = SessionView;

    closed spec fn view(&self) -> SessionView {
        SessionView {
            state: self.state,
            local_ref: self.local_ref,
            proposed_pdu_size: self.proposed_pdu_size,
            negotiated_pdu_size: self.negotiated_pdu_size,
        }
    }
}

/// Whether `frame` is the connection response that a request with the
/// reference `local_ref` awaits.
pub fn confirms_connection(frame: &TPKTPacket, local_ref: u16) -> (r: bool)
    ensures
        r == spec_confirms_connection(frame@, local_ref),
{
    match &frame.payload {
        COTPPacket::ConnectionResponse(response) => response.dst_ref == local_ref,
        _ => false,
    }
}

/// The PDU size that `frame` grants to a setup that proposed `proposed`.
pub fn granted_pdu_size(frame: &TPKTPacket, proposed: u16) -> (r: Option<u16>)
    ensures
        r == spec_granted_pdu_size(frame@, proposed),
{
    match &frame.payload {
        COTPPacket::Data(unit) => {
            match unit.data.header.message_type {
                MessageType::AckData => {},
                _ => {
                    return None;
                },
            }
            match &unit.data.parameters {
                Some(parameters) => match parameters.pdu_size() {
                    Some(size) => if 0 < size && size <= proposed {
                        Some(size)
                    } else {
                        None
                    },
                    None => None,
                },
                None => None,
            }
        },
        _ => None,
    }
}

impl S7Connector {
    /// A connector in the idle state, with the default reference and the
    /// default proposal for the PDU size.
    pub fn new() -> (r: Self)
        ensures
            r@ == SessionView::initial(DEFAULT_LOCAL_REF, DEFAULT_PDU_SIZE),
    {
        S7Connector {
            state: NegotiationState::Idle,
            local_ref: DEFAULT_LOCAL_REF,
            proposed_pdu_size: DEFAULT_PDU_SIZE,
            negotiated_pdu_size: 0,
        }
    }

    /// A connector in the idle state that names its side `local_ref` and
    /// proposes the PDU size `proposed_pdu_size`.
    pub fn with_parameters(local_ref: u16, proposed_pdu_size: u16) -> (r: Self)
        ensures
            r@ == SessionView::initial(local_ref, proposed_pdu_size),
    {
        S7Connector {
            state: NegotiationState::Idle,
            local_ref,
            proposed_pdu_size,
            negotiated_pdu_size: 0,
        }
    }

    /// The state of the session.
    pub fn state(&self) -> (r: NegotiationState)
        ensures
            r == self@.state,
    {
        self.state
    }

    /// The PDU size that the peer granted; zero until the session is
    /// established.
    pub fn negotiated_pdu_size(&self) -> (r: u16)
        ensures
            r == self@.negotiated_pdu_size,
    {
        self.negotiated_pdu_size
    }

    /// Takes the step from idle to connecting and hands back the connection
    /// request to send.  In any other state nothing changes and the attempt
    /// is refused.
    pub fn connection_request(&mut self) -> (r: Result<TPKTPacket, S7Error>)
        ensures
            final(self)@ == old(self)@.after_connection_request(),
            match r {
                Ok(frame) => old(self)@.connection_request_result() is Ok && frame@
                    == spec_connection_request_frame(old(self)@.local_ref),
                Err(e) => old(self)@.connection_request_result() == Err::<(), S7Error>(e),
            },
    {
        match self.state {
            NegotiationState::Idle => {},
            NegotiationState::Closed => {
                return Err(S7Error::ConnectionClosed);
            },
            NegotiationState::Failed(reason) => {
                return Err(reason.error());
            },
            _ => {
                return Err(S7Error::AlreadyConnected);
            },
        }
        self.state = NegotiationState::CotpConnecting;
        let parameters: Vec<ConnectionParameter> = vec![
            ConnectionParameter::TpduSize(REQUESTED_TPDU_SIZE),
            ConnectionParameter::SrcTsap(LOCAL_TSAP),
            ConnectionParameter::DstTsap(REMOTE_TSAP),
        ];
        Ok(
            TPKTPacket {
                protocol_id: TPKT_VERSION,
                reserved: 0,
                length: CONNECTION_REQUEST_FRAME_LEN,
                payload: COTPPacket::ConnectionRequest(
                    COTPConnectionRequest {
                        dst_ref: 0,
                        src_ref: self.local_ref,
                        class: 0,
                        parameters,
                    },
                ),
            },
        )
    }

    /// Takes the step from connected to negotiating and hands back the setup
    /// request to send.  In any other state nothing changes and the attempt
    /// is refused.
    pub fn setup_request(&mut self) -> (r: Result<TPKTPacket, S7Error>)
        ensures
            final(self)@ == old(self)@.after_setup_request(),
            match r {
                Ok(frame) => old(self)@.setup_request_result() is Ok && frame@
                    == spec_setup_request_frame(old(self)@.proposed_pdu_size),
                Err(e) => old(self)@.setup_request_result() == Err::<(), S7Error>(e),
            },
    {
        match self.state {
            NegotiationState::CotpConnected => {},
            NegotiationState::Closed => {
                return Err(S7Error::ConnectionClosed);
            },
            NegotiationState::Failed(reason) => {
                return Err(reason.error());
            },
            NegotiationState::Idle => {
                return Err(S7Error::NotConnected);
            },
            NegotiationState::CotpConnecting => {
                return Err(S7Error::NotConnected);
            },
            _ => {
                return Err(S7Error::AlreadyConnected);
            },
        }
        self.state = NegotiationState::PduNegotiating;
        let message = S7Message {
            header: S7Header {
                protocol_id: S7_PROTOCOL_ID,
                message_type: MessageType::JobRequest,
                reserved: 0,
                pdu_reference: 0,
                parameter_length: SETUP_SECTION_LEN,
                data_length: 0,
            },
            parameters: Some(
                S7Parameters::setup(PROPOSED_AMQ, PROPOSED_AMQ, self.proposed_pdu_size),
            ),
            payload: None,
        };
        Ok(
            TPKTPacket {
                protocol_id: TPKT_VERSION,
                reserved: 0,
                length: SETUP_REQUEST_FRAME_LEN,
                payload: COTPPacket::Data(COTPDataPacket { eot: true, tpdu_ref: 0, data: message }),
            },
        )
    }

    /// Takes the step that a received frame calls for.  The awaited frame
    /// advances the negotiation.  Any other frame, before the session is
    /// established, makes the negotiation fail.
    pub fn negotiate(&mut self, frame: &TPKTPacket) -> (r: Result<(), S7Error>)
        ensures
            final(self)@ == old(self)@.after_frame(frame@),
            r == old(self)@.frame_result(frame@),
    {
        match self.state {
            NegotiationState::CotpConnecting => {
                if confirms_connection(frame, self.local_ref) {
                    self.state = NegotiationState::CotpConnected;
                    Ok(())
                } else {
                    self.state = NegotiationState::Failed(FailureReason::UnexpectedFrame);
                    Err(S7Error::UnexpectedFrame)
                }
            },
            NegotiationState::PduNegotiating => {
                match granted_pdu_size(frame, self.proposed_pdu_size) {
                    Some(size) => {
                        self.state = NegotiationState::Established;
                        self.negotiated_pdu_size = size;
                        Ok(())
                    },
                    None => {
                        self.state = NegotiationState::Failed(FailureReason::NegotiationRejected);
                        Err(S7Error::NegotiationRejected)
                    },
                }
            },
            NegotiationState::Idle => {
                self.state = NegotiationState::Failed(FailureReason::UnexpectedFrame);
                Err(S7Error::UnexpectedFrame)
            },
            NegotiationState::CotpConnected => {
                self.state = NegotiationState::Failed(FailureReason::UnexpectedFrame);
                Err(S7Error::UnexpectedFrame)
            },
            NegotiationState::Established => Err(S7Error::AlreadyConnected),
            NegotiationState::Closed => Err(S7Error::ConnectionClosed),
            NegotiationState::Failed(reason) => Err(reason.error()),
        }
    }

    /// Whether application messages may be sent now.
    pub fn check_established(&self) -> (r: Result<(), S7Error>)
        ensures
            r == self@.application_result(),
    {
        match self.state {
            NegotiationState::Established => Ok(()),
            NegotiationState::Closed => Err(S7Error::ConnectionClosed),
            _ => Err(S7Error::NotEstablished),
        }
    }

    /// Wraps an application message into the frame that carries it.  Outside
    /// the established state the message is refused and no frame is made.  A
    /// message that cannot be written, or is longer than the negotiated PDU
    /// size, is refused too.
    pub fn application_frame(&self, message: S7Message) -> (r: Result<TPKTPacket, S7Error>)
        ensures
            match r {
                Ok(frame) => {
                    &&& self@.application_result() is Ok
                    &&& self@.admits(message@)
                    &&& frame@ == spec_data_frame(message@, frame@.written_length())
                    &&& frame@.encodable()
                },
                Err(e) => match self@.application_result() {
                    Err(refusal) => e == refusal,
                    Ok(_) => !self@.admits(message@) && e == S7Error::InvalidLength,
                },
            },
    {
        self.check_established()?;
        let written = message.encode()?;
        if written.len() > self.negotiated_pdu_size as usize || written.len() > MAX_FRAME_LEN
            - DATA_FRAME_OVERHEAD {
            return Err(S7Error::InvalidLength);
        }
        let length: u16 = (written.len() + DATA_FRAME_OVERHEAD) as u16;
        Ok(
            TPKTPacket {
                protocol_id: TPKT_VERSION,
                reserved: 0,
                length,
                payload: COTPPacket::Data(COTPDataPacket { eot: true, tpdu_ref: 0, data: message }),
            },
        )
    }

    /// Closes the session, whatever its state.
    pub fn close(&mut self)
        ensures
            final(self)@ == old(self)@.moved_to(NegotiationState::Closed),
    {
        self.state = NegotiationState::Closed;
    }
}

/// The connection request that a connector sends is a valid frame.
pub proof fn lemma_connection_request_frame_wf(local_ref: u16)
    ensures
        spec_connection_request_frame(local_ref).wf(),
{
    let frame = spec_connection_request_frame(local_ref);
    let connection = frame.payload->ConnectionRequest_0;
    let parameters = connection.parameters;
    assert(spec_encode_all(parameters).len() == 11) by {
        reveal_with_fuel(spec_encode_all, 4);
    }
    lemma_connection_round_trip(connection);
}

/// The setup request that a connector sends is a valid frame.
pub proof fn lemma_setup_request_frame_wf(proposed: u16)
    ensures
        spec_setup_request_frame(proposed).wf(),
{
    let message = spec_setup_request_message(proposed);
    lemma_setup_carries_pdu_size(PROPOSED_AMQ, PROPOSED_AMQ, proposed);
    lemma_message_section_lens(message);
}

/// Before the session is established, and unless it has been closed,
/// application traffic is refused as not established.
pub proof fn lemma_application_refused_before_established(session: SessionView)
    requires
        session.state != NegotiationState::Established,
        session.state != NegotiationState::Closed,
    ensures
        session.application_result() == Err::<(), S7Error>(S7Error::NotEstablished),
{
}

/// A closed session refuses every operation as closed.
pub proof fn lemma_closed_refuses(session: SessionView, frame: TPKTPacketView)
    requires
        session.state == NegotiationState::Closed,
    ensures
        session.connection_request_result() == Err::<(), S7Error>(S7Error::ConnectionClosed),
        session.setup_request_result() == Err::<(), S7Error>(S7Error::ConnectionClosed),
        session.frame_result(frame) == Err::<(), S7Error>(S7Error::ConnectionClosed),
        session.application_result() == Err::<(), S7Error>(S7Error::ConnectionClosed),
        session.after_connection_request() == session,
        session.after_setup_request() == session,
        session.after_frame(frame) == session,
{
}

/// Whatever the state and the frame, the operations of a session fail only
/// for the session's state.
pub proof fn lemma_session_fails_as_state(session: SessionView, frame: TPKTPacketView)
    ensures
        fails_as_state(session.connection_request_result()),
        fails_as_state(session.setup_request_result()),
        fails_as_state(session.frame_result(frame)),
        fails_as_state(session.application_result()),
{
}

/// A connection request, the response that confirms it, a setup request and
/// the acknowledgement that grants a PDU size, in this order, lead from the
/// idle state to exactly the established state, with the granted size.
pub proof fn lemma_handshake_establishes(
    local_ref: u16,
    proposed_pdu_size: u16,
    response: TPKTPacketView,
    acknowledgement: TPKTPacketView,
)
    requires
        spec_confirms_connection(response, local_ref),
        spec_granted_pdu_size(acknowledgement, proposed_pdu_size) is Some,
    ensures
        ({
            let idle = SessionView::initial(local_ref, proposed_pdu_size);
            let connecting = idle.after_connection_request();
            let connected = connecting.after_frame(response);
            let negotiating = connected.after_setup_request();
            let established = negotiating.after_frame(acknowledgement);
            &&& idle.connection_request_result() is Ok
            &&& connecting.state == NegotiationState::CotpConnecting
            &&& connecting.frame_result(response) is Ok
            &&& connected.state == NegotiationState::CotpConnected
            &&& connected.setup_request_result() is Ok
            &&& negotiating.state == NegotiationState::PduNegotiating
            &&& negotiating.frame_result(acknowledgement) is Ok
            &&& established.state == NegotiationState::Established
            &&& established.negotiated_pdu_size == spec_granted_pdu_size(
                acknowledgement,
                proposed_pdu_size,
            )->Some_0
            &&& 0 < established.negotiated_pdu_size <= proposed_pdu_size
            &&& established.application_result() is Ok
        }),
{
}

} // verus!
