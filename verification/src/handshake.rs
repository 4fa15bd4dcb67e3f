//! The three-message handshake that brings up the control connection.
//!
//! The orchestrator holds the state of one handshake attempt and decides;
//! it performs no input or output. Its caller asks it for the next action,
//! sends or receives one datagram accordingly, and reports what happened:
//!
//! ```text
//! Idle --request sent--> RequestSent --reply accepted--> ResponseValidated
//!      --answer sent--> Established
//! ```
//!
//! Every failure ends the attempt in `Failed`; nothing is retried.

use vstd::prelude::*;
use vstd::slice::slice_to_vec;
use crate::avp::{Avp, AvpModel, MessageType, MAX_VALUE_LEN, lemma_avp_round_trip};
use crate::bytes::be16;
use crate::digest::{compute_response, md5_of, response_of};
use crate::message::{
    all_wf,
    avps_view,
    encode_avps,
    lemma_control_round_trip,
    lemma_encode_avps_push,
    try_read_spec,
    ControlMessage,
    ControlModel,
    DecodeError,
    Message,
    MessageModel,
};

verus! {

/// Why a handshake attempt ended without a connection.
#[derive(Clone, Copy, Debug, PartialEq, Eq, Structural)]
pub enum FailureReason {
    /// The transport took fewer bytes than the datagram has.
    PartialSend,
    /// The reply is no message.
    InvalidResponse(DecodeError),
    /// The reply is a data message.
    PrematureData,
    /// The reply is for another tunnel than the one requested.
    TunnelIdMismatch,
    /// The first record of the reply is missing, is no message type, or is
    /// not the type of a reply to the request.
    UnexpectedMessageType,
    /// The reply assigns no tunnel id.
    MissingTunnelId,
    /// The reply carries no challenge.
    MissingChallenge,
    /// The transport reported an error.
    Io,
}

/// The state of one handshake attempt.
#[derive(Clone, Debug, PartialEq, Eq)]
pub enum HandshakeState {
    /// Nothing was sent yet.
    Idle,
    /// The request for the given tunnel id was sent.
    RequestSent(u16),
    /// The reply was accepted: the tunnel id that the peer assigned, and
    /// its challenge.
    ResponseValidated(u16, Vec<u8>),
    /// The connection stands, under the tunnel id that the peer assigned.
    Established(u16),
    /// The attempt failed.
    Failed(FailureReason),
}

/// The mathematical value of a [`HandshakeState`].
pub enum StateModel {
    Idle,
    RequestSent(u16),
    ResponseValidated(u16, Seq<u8>),
    Established(u16),
    Failed(FailureReason),
}

impl View for HandshakeState {
    type V = StateModel;

    open spec fn view(&self) -> StateModel {
        match self {
            HandshakeState::Idle => StateModel::Idle,
            HandshakeState::RequestSent(id) => StateModel::RequestSent(*id),
            HandshakeState::ResponseValidated(id, challenge) => StateModel::ResponseValidated(
                *id,
                challenge@,
            ),
            HandshakeState::Established(id) => StateModel::Established(*id),
            HandshakeState::Failed(reason) => StateModel::Failed(*reason),
        }
    }
}

impl StateModel {
    /// Whether the attempt is over.
    pub open spec fn is_terminal(self) -> bool {
        self is Established || self is Failed
    }
}

/// What the caller is to do next.
#[derive(Clone, Debug, PartialEq, Eq)]
pub enum Action {
    /// Send these bytes as one datagram and report how many were taken.
    Send(Vec<u8>),
    /// Receive one datagram and report its bytes.
    Receive,
    /// Nothing: the attempt is over.
    Done,
}

/// The mathematical value of an [`Action`].
pub enum ActionModel {
    Send(Seq<u8>),
    Receive,
    Done,
}

impl View for Action {
    type V = ActionModel;

    open spec fn view(&self) -> ActionModel {
        match self {
            Action::Send(bytes) => ActionModel::Send(bytes@),
            Action::Receive => ActionModel::Receive,
            Action::Done => ActionModel::Done,
        }
    }
}

/// What the transport did with the last action.
#[derive(Clone, Debug, PartialEq, Eq)]
pub enum Event {
    /// The transport took this many bytes of the datagram.
    Sent(usize),
    /// The transport delivered this datagram.
    Received(Vec<u8>),
    /// The transport reported an error.
    IoFailed,
}

/// The mathematical value of an [`Event`].
pub enum EventModel {
    Sent(usize),
    Received(Seq<u8>),
    IoFailed,
}

impl View for Event {
    type V = EventModel;

    open spec fn view(&self) -> EventModel {
        match self {
            Event::Sent(count) => EventModel::Sent(*count),
            Event::Received(bytes) => EventModel::Received(bytes@),
            Event::IoFailed => EventModel::IoFailed,
        }
    }
}

/// The request that opens the handshake: protocol version 1.0, the host
/// name, both kinds of framing, and the tunnel id chosen on this side.
pub open spec fn sccrq(host_name: Seq<u8>, tunnel_id: u16) -> ControlModel {
    ControlModel {
        length: 0,
        tunnel_id: 0,
        session_id: 0,
        ns: 0,
        nr: 0,
        avps: seq![
            AvpModel::MessageType(MessageType::StartControlConnectionRequest),
            AvpModel::ProtocolVersion { major: 1, minor: 0 },
            AvpModel::HostName(host_name),
            AvpModel::FramingCapabilities { async_framing: true, sync_framing: true },
            AvpModel::AssignedTunnelId(tunnel_id),
        ],
    }
}

/// The message that closes the handshake: it goes to the tunnel id that
/// the peer assigned and carries the response to the peer's challenge.
pub open spec fn scccn(assigned_id: u16, response: Seq<u8>) -> ControlModel {
    ControlModel {
        length: 0,
        tunnel_id: assigned_id,
        session_id: 0,
        ns: 0,
        nr: 0,
        avps: seq![
            AvpModel::MessageType(MessageType::StartControlConnectionConnected),
            AvpModel::ChallengeResponse(response),
        ],
    }
}

/// The tunnel id of the last record of `avps` that assigns one.
pub open spec fn last_tunnel_id(avps: Seq<AvpModel>) -> Option<u16>
    decreases avps.len(),
{
    if avps.len() == 0 {
        None
    } else {
        match avps.last() {
            AvpModel::AssignedTunnelId(id) => Some(id),
            _ => last_tunnel_id(avps.drop_last()),
        }
    }
}

/// The challenge of the last record of `avps` that carries one.
pub open spec fn last_challenge(avps: Seq<AvpModel>) -> Option<Seq<u8>>
    decreases avps.len(),
{
    if avps.len() == 0 {
        None
    } else {
        match avps.last() {
            AvpModel::Challenge(challenge) => Some(challenge),
            _ => last_challenge(avps.drop_last()),
        }
    }
}

/// Whether the records start with the message type of a reply to the
/// request.
pub open spec fn starts_with_reply(avps: Seq<AvpModel>) -> bool {
    avps.len() > 0 && avps[0] == AvpModel::MessageType(MessageType::StartControlConnectionReply)
}

/// What a message received in answer to the request for tunnel
/// `requested` yields: the tunnel id that the peer assigned and its
/// challenge, or the reason for which the message is refused.
///
/// A data message is refused. A control message must be for tunnel
/// `requested` and start with the message type of a reply. Its other
/// records are then searched for an assigned tunnel id and a challenge,
/// the last of each counting; records of other types are passed over.
pub open spec fn validate_message_spec(message: MessageModel, requested: u16) -> Result<
    (u16, Seq<u8>),
    FailureReason,
> {
    match message {
        MessageModel::Data(_) => Err(FailureReason::PrematureData),
        MessageModel::Control(control) => {
            if control.tunnel_id != requested {
                Err(FailureReason::TunnelIdMismatch)
            } else if !starts_with_reply(control.avps) {
                Err(FailureReason::UnexpectedMessageType)
            } else {
                let others = control.avps.skip(1);
                match last_tunnel_id(others) {
                    None => Err(FailureReason::MissingTunnelId),
                    Some(id) => match last_challenge(others) {
                        None => Err(FailureReason::MissingChallenge),
                        Some(challenge) => Ok((id, challenge)),
                    },
                }
            }
        },
    }
}

/// What a datagram received in answer to the request for tunnel
/// `requested` yields.
pub open spec fn validate_reply_spec(bytes: Seq<u8>, requested: u16) -> Result<
    (u16, Seq<u8>),
    FailureReason,
> {
    match try_read_spec(bytes) {
        Err(e) => Err(FailureReason::InvalidResponse(e)),
        Ok(message) => validate_message_spec(message, requested),
    }
}

/// Checks a message received in answer to the request for tunnel
/// `requested`, as [`validate_message_spec`] defines it. The message is
/// read in one pass and not changed.
pub fn validate_message(message: &Message, requested: u16) -> (r: Result<
    (u16, Vec<u8>),
    FailureReason,
>)
    ensures
        match r {
            Ok((id, challenge)) => validate_message_spec(message@, requested) == Ok::<
                (u16, Seq<u8>),
                FailureReason,
            >((id, challenge@)),
            Err(e) => validate_message_spec(message@, requested) == Err::<
                (u16, Seq<u8>),
                FailureReason,
            >(e),
        },
{
    let control: &ControlMessage = match message {
        Message::Data(_) => {
            return Err(FailureReason::PrematureData);
        },
        Message::Control(control) => control,
    };
    if control.tunnel_id != requested {
        return Err(FailureReason::TunnelIdMismatch);
    }
    if control.avps.len() == 0 {
        return Err(FailureReason::UnexpectedMessageType);
    }
    let ghost avps = avps_view(control.avps@);
    assert(avps[0] == control.avps@[0]@);
    match &control.avps[0] {
        Avp::MessageType(MessageType::StartControlConnectionReply) => {},
        _ => {
            return Err(FailureReason::UnexpectedMessageType);
        },
    }
    let ghost others = avps.skip(1);
    let mut tunnel_id: Option<u16> = None;
    let mut challenge: Option<Vec<u8>> = None;
    let mut i: usize = 1;
    proof {
        assert(others.take(0) =~= Seq::<AvpModel>::empty());
    }
    while i < control.avps.len()
        invariant
            avps == avps_view(control.avps@),
            others == avps.skip(1),
            1 <= i <= control.avps.len(),
            tunnel_id == last_tunnel_id(others.take(i - 1)),
            match challenge {
                Some(bytes) => last_challenge(others.take(i - 1)) == Some(bytes@),
                None => last_challenge(others.take(i - 1)) is None,
            },
        decreases control.avps.len() - i,
    {
        proof {
            let seen = others.take(i as int);
            assert(seen.drop_last() =~= others.take(i - 1));
            assert(seen.last() == control.avps@[i as int]@);
        }
        match &control.avps[i] {
            Avp::AssignedTunnelId(id) => {
                tunnel_id = Some(*id);
            },
            Avp::Challenge(bytes) => {
                challenge = Some(slice_to_vec(bytes.as_slice()));
            },
            _ => {},
        }
        i = i + 1;
    }
    proof {
        assert(others.take(i - 1) =~= others);
    }
    match tunnel_id {
        None => Err(FailureReason::MissingTunnelId),
        Some(id) => match challenge {
            None => Err(FailureReason::MissingChallenge),
            Some(bytes) => Ok((id, bytes)),
        },
    }
}

/// Decodes a datagram received in answer to the request for tunnel
/// `requested` and checks it, as [`validate_reply_spec`] defines it.
pub fn validate_reply(bytes: &[u8], requested: u16) -> (r: Result<(u16, Vec<u8>), FailureReason>)
    ensures
        match r {
            Ok((id, challenge)) => validate_reply_spec(bytes@, requested) == Ok::<
                (u16, Seq<u8>),
                FailureReason,
            >((id, challenge@)),
            Err(e) => validate_reply_spec(bytes@, requested) == Err::<
                (u16, Seq<u8>),
                FailureReason,
            >(e),
        },
{
    match Message::try_read(bytes) {
        Err(e) => Err(FailureReason::InvalidResponse(e)),
        Ok(message) => validate_message(&message, requested),
    }
}

/// Whether the handshake passes over a record of this type when it reads
/// a reply: it asks only for the assigned tunnel id and the challenge.
pub open spec fn is_passed_over(avp: AvpModel) -> bool {
    !(avp is AssignedTunnelId) && !(avp is Challenge)
}

/// The indices from 1 up to `end`, `end` left out, of the records that the
/// handshake passes over, in rising order.
pub open spec fn passed_over_before(avps: Seq<AvpModel>, end: int) -> Seq<usize>
    decreases end,
{
    if end <= 1 {
        Seq::empty()
    } else {
        let before = passed_over_before(avps, end - 1);
        if is_passed_over(avps[end - 1]) {
            before.push((end - 1) as usize)
        } else {
            before
        }
    }
}

/// The indices of the records of a reply that the handshake passes over.
/// A message that is refused before its records are searched has none.
pub open spec fn unhandled_spec(message: MessageModel, requested: u16) -> Seq<usize> {
    match message {
        MessageModel::Data(_) => Seq::empty(),
        MessageModel::Control(control) => {
            if control.tunnel_id == requested && starts_with_reply(control.avps) {
                passed_over_before(control.avps, control.avps.len() as int)
            } else {
                Seq::empty()
            }
        },
    }
}

/// Every index named lies after the first record and within the records.
pub proof fn lemma_passed_over_in_range(avps: Seq<AvpModel>, end: int)
    requires
        end <= avps.len() <= usize::MAX,
    ensures
        forall|k: int|
            0 <= k < passed_over_before(avps, end).len() ==> 1 <= (#[trigger] passed_over_before(
                avps,
                end,
            )[k]) < end && is_passed_over(avps[passed_over_before(avps, end)[k] as int]),
    decreases end,
{
    if end > 1 {
        lemma_passed_over_in_range(avps, end - 1);
        let before = passed_over_before(avps, end - 1);
        let all = passed_over_before(avps, end);
        assert forall|k: int| 0 <= k < all.len() implies 1 <= (#[trigger] all[k]) < end
            && is_passed_over(avps[all[k] as int]) by {
            if k < before.len() {
                assert(all[k] == before[k]);
            }
        }
    }
}

/// Lists the records of a reply that the handshake passes over, by their
/// indices, so that a caller can report them. They do not fail the
/// attempt.
pub fn unhandled_records(message: &Message, requested: u16) -> (indices: Vec<usize>)
    ensures
        indices@ == unhandled_spec(message@, requested),
        message matches Message::Control(control) ==> forall|k: int|
            0 <= k < indices@.len() ==> 1 <= #[trigger] indices@[k] < control.avps@.len(),
{
    let mut indices: Vec<usize> = Vec::new();
    let control: &ControlMessage = match message {
        Message::Data(_) => {
            return indices;
        },
        Message::Control(control) => control,
    };
    if control.tunnel_id != requested || control.avps.len() == 0 {
        return indices;
    }
    let ghost avps = avps_view(control.avps@);
    assert(avps[0] == control.avps@[0]@);
    match &control.avps[0] {
        Avp::MessageType(MessageType::StartControlConnectionReply) => {},
        _ => {
            return indices;
        },
    }
    let mut i: usize = 1;
    while i < control.avps.len()
        invariant
            avps == avps_view(control.avps@),
            1 <= i <= control.avps.len(),
            indices@ == passed_over_before(avps, i as int),
        decreases control.avps.len() - i,
    {
        assert(avps[i as int] == control.avps@[i as int]@);
        match &control.avps[i] {
            Avp::AssignedTunnelId(_) => {},
            Avp::Challenge(_) => {},
            _ => {
                indices.push(i);
            },
        }
        i = i + 1;
    }
    proof {
        lemma_passed_over_in_range(avps, avps.len() as int);
    }
    indices
}

/// Bytes of a request apart from the host name.
pub const SCCRQ_BASE_LEN: usize = 52;

/// Bytes of the message that closes the handshake.
pub const SCCCN_LEN: usize = 42;

/// The request can be written where the host name fits one record, and
/// takes fifty-two bytes and the host name.
pub proof fn lemma_sccrq_wf(host_name: Seq<u8>, tunnel_id: u16)
    requires
        host_name.len() <= MAX_VALUE_LEN,
    ensures
        sccrq(host_name, tunnel_id).wf(),
        sccrq(host_name, tunnel_id).encoding().len() == SCCRQ_BASE_LEN + host_name.len(),
{
    let request = sccrq(host_name, tunnel_id);
    let avps = request.avps;
    assert(all_wf(avps));
    let e = Seq::<AvpModel>::empty();
    assert(encode_avps(e).len() == 0);
    lemma_encode_avps_push(e, avps[0]);
    lemma_encode_avps_push(e.push(avps[0]), avps[1]);
    lemma_encode_avps_push(e.push(avps[0]).push(avps[1]), avps[2]);
    lemma_encode_avps_push(e.push(avps[0]).push(avps[1]).push(avps[2]), avps[3]);
    lemma_encode_avps_push(e.push(avps[0]).push(avps[1]).push(avps[2]).push(avps[3]), avps[4]);
    assert(avps =~= e.push(avps[0]).push(avps[1]).push(avps[2]).push(avps[3]).push(avps[4]));
    lemma_avp_round_trip(avps[0], Seq::empty());
    lemma_avp_round_trip(avps[1], Seq::empty());
    lemma_avp_round_trip(avps[2], Seq::empty());
    lemma_avp_round_trip(avps[3], Seq::empty());
    lemma_avp_round_trip(avps[4], Seq::empty());
    assert(encode_avps(avps).len() == 40 + host_name.len());
    lemma_control_round_trip(request, Seq::empty());
}

/// The message that closes the handshake can be written where the
/// response has its sixteen bytes, and takes forty-two bytes.
pub proof fn lemma_scccn_wf(assigned_id: u16, response: Seq<u8>)
    requires
        response.len() == 16,
    ensures
        scccn(assigned_id, response).wf(),
        scccn(assigned_id, response).encoding().len() == SCCCN_LEN,
{
    let answer = scccn(assigned_id, response);
    let avps = answer.avps;
    assert(all_wf(avps));
    let e = Seq::<AvpModel>::empty();
    assert(encode_avps(e).len() == 0);
    lemma_encode_avps_push(e, avps[0]);
    lemma_encode_avps_push(e.push(avps[0]), avps[1]);
    assert(avps =~= e.push(avps[0]).push(avps[1]));
    lemma_avp_round_trip(avps[0], Seq::empty());
    lemma_avp_round_trip(avps[1], Seq::empty());
    assert(encode_avps(avps).len() == 30);
    lemma_control_round_trip(answer, Seq::empty());
}

/// Builds the request that opens the handshake.
pub fn build_sccrq(host_name: &[u8], tunnel_id: u16) -> (message: Message)
    ensures
        message@ == MessageModel::Control(sccrq(host_name@, tunnel_id)),
{
    let mut avps: Vec<Avp> = Vec::new();
    avps.push(Avp::MessageType(MessageType::StartControlConnectionRequest));
    avps.push(Avp::ProtocolVersion { major: 1, minor: 0 });
    avps.push(Avp::HostName(slice_to_vec(host_name)));
    avps.push(Avp::FramingCapabilities { async_framing: true, sync_framing: true });
    avps.push(Avp::AssignedTunnelId(tunnel_id));
    assert(avps_view(avps@) =~= sccrq(host_name@, tunnel_id).avps);
    Message::Control(
        ControlMessage { length: 0, tunnel_id: 0, session_id: 0, ns: 0, nr: 0, avps },
    )
}

/// Builds the message that closes the handshake from the tunnel id that
/// the peer assigned and the response to its challenge.
pub fn build_scccn(assigned_id: u16, response: [u8; 16]) -> (message: Message)
    ensures
        message@ == MessageModel::Control(scccn(assigned_id, response@)),
{
    let mut avps: Vec<Avp> = Vec::new();
    avps.push(Avp::MessageType(MessageType::StartControlConnectionConnected));
    avps.push(Avp::ChallengeResponse(response));
    assert(avps_view(avps@) =~= scccn(assigned_id, response@).avps);
    Message::Control(
        ControlMessage { length: 0, tunnel_id: assigned_id, session_id: 0, ns: 0, nr: 0, avps },
    )
}

/// The action that a state calls for. In `Idle` the request is sent; in
/// `RequestSent` a datagram is received; in `ResponseValidated` the answer
/// is sent, with the response computed from the assigned tunnel id, the
/// secret and the challenge; in the other states nothing is left to do.
pub open spec fn expected_action(
    host_name: Seq<u8>,
    secret: Seq<u8>,
    tunnel_id: u16,
    state: StateModel,
) -> ActionModel {
    match state {
        StateModel::Idle => ActionModel::Send(sccrq(host_name, tunnel_id).encoding()),
        StateModel::RequestSent(_) => ActionModel::Receive,
        StateModel::ResponseValidated(assigned_id, challenge) => ActionModel::Send(
            scccn(assigned_id, response_of(assigned_id, secret, challenge)@).encoding(),
        ),
        StateModel::Established(_) => ActionModel::Done,
        StateModel::Failed(_) => ActionModel::Done,
    }
}

/// The state after a send, given how many bytes the datagram has and how
/// many the transport took.
pub open spec fn after_send(datagram_len: int, sent: usize, done: StateModel) -> StateModel {
    if sent < datagram_len {
        StateModel::Failed(FailureReason::PartialSend)
    } else {
        done
    }
}

/// The state that follows `state` on `event`.
///
/// An error of the transport fails the attempt in every state that waits
/// for the transport. A send that took fewer bytes than the datagram has
/// fails it too. A received datagram is checked against the tunnel id
/// that was requested. An event that answers no pending action, and any
/// event in a state where the attempt is over, leaves the state as it is.
pub open spec fn next_state(
    host_name: Seq<u8>,
    secret: Seq<u8>,
    tunnel_id: u16,
    state: StateModel,
    event: EventModel,
) -> StateModel {
    match (state, event) {
        (StateModel::Idle, EventModel::Sent(sent)) => after_send(
            sccrq(host_name, tunnel_id).encoding().len() as int,
            sent,
            StateModel::RequestSent(tunnel_id),
        ),
        (StateModel::RequestSent(requested), EventModel::Received(bytes)) => {
            match validate_reply_spec(bytes, requested) {
                Ok((assigned_id, challenge)) => StateModel::ResponseValidated(
                    assigned_id,
                    challenge,
                ),
                Err(reason) => StateModel::Failed(reason),
            }
        },
        (StateModel::ResponseValidated(assigned_id, challenge), EventModel::Sent(sent)) => {
            after_send(
                scccn(
                    assigned_id,
                    response_of(assigned_id, secret, challenge)@,
                ).encoding().len() as int,
                sent,
                StateModel::Established(assigned_id),
            )
        },
        (StateModel::Idle, EventModel::IoFailed) => StateModel::Failed(FailureReason::Io),
        (StateModel::RequestSent(_), EventModel::IoFailed) => StateModel::Failed(
            FailureReason::Io,
        ),
        (StateModel::ResponseValidated(_, _), EventModel::IoFailed) => StateModel::Failed(
            FailureReason::Io,
        ),
        _ => state,
    }
}

/// One handshake attempt: the settings it was made with and its state.
#[derive(Debug)]
pub struct Orchestrator {
    host_name: Vec<u8>,
    secret: Vec<u8>,
    tunnel_id: u16,
    state: HandshakeState,
}

impl Orchestrator {
    /// The host name that the request announces.
    pub closed spec fn host_name_spec(&self) -> Seq<u8> {
        self.host_name@
    }

    /// The secret shared with the peer.
    pub closed spec fn secret_spec(&self) -> Seq<u8> {
        self.secret@
    }

    /// The tunnel id chosen on this side.
    pub closed spec fn tunnel_id_spec(&self) -> u16 {
        self.tunnel_id
    }

    /// The state of the attempt.
    pub closed spec fn state_spec(&self) -> StateModel {
        self.state@
    }

    /// Whether the host name fits one record.
    pub open spec fn wf(&self) -> bool {
        self.host_name_spec().len() <= MAX_VALUE_LEN
    }

    /// The action that the state calls for.
    pub open spec fn action_spec(&self) -> ActionModel {
        expected_action(
            self.host_name_spec(),
            self.secret_spec(),
            self.tunnel_id_spec(),
            self.state_spec(),
        )
    }

    /// The state that follows on `event`.
    pub open spec fn next_spec(&self, event: EventModel) -> StateModel {
        next_state(
            self.host_name_spec(),
            self.secret_spec(),
            self.tunnel_id_spec(),
            self.state_spec(),
            event,
        )
    }

    /// Makes an orchestrator in state `Idle`, or gives `None` where the
    /// host name is too long to travel in one record.
    pub fn new(host_name: Vec<u8>, secret: Vec<u8>, tunnel_id: u16) -> (r: Option<Orchestrator>)
        ensures
            match r {
                Some(orchestrator) => {
                    &&& host_name@.len() <= MAX_VALUE_LEN
                    &&& orchestrator.wf()
                    &&& orchestrator.host_name_spec() == host_name@
                    &&& orchestrator.secret_spec() == secret@
                    &&& orchestrator.tunnel_id_spec() == tunnel_id
                    &&& orchestrator.state_spec() == StateModel::Idle
                },
                None => host_name@.len() > MAX_VALUE_LEN,
            },
    {
        if host_name.len() > MAX_VALUE_LEN {
            None
        } else {
            Some(Orchestrator { host_name, secret, tunnel_id, state: HandshakeState::Idle })
        }
    }

    /// The state of the attempt.
    pub fn state(&self) -> (state: &HandshakeState)
        ensures
            state@ == self.state_spec(),
    {
        &self.state
    }

    /// The tunnel id chosen on this side.
    pub fn tunnel_id(&self) -> (id: u16)
        ensures
            id == self.tunnel_id_spec(),
    {
        self.tunnel_id
    }

    /// Whether the attempt is over.
    pub fn is_finished(&self) -> (finished: bool)
        ensures
            finished == self.state_spec().is_terminal(),
    {
        match &self.state {
            HandshakeState::Established(_) => true,
            HandshakeState::Failed(_) => true,
            _ => false,
        }
    }

    /// The bytes of the datagram that the state calls for, if it calls for
    /// a send.
    fn datagram(&self) -> (r: Option<Vec<u8>>)
        requires
            self.wf(),
        ensures
            match r {
                Some(bytes) => self.action_spec() == ActionModel::Send(bytes@),
                None => !(self.action_spec() is Send),
            },
    {
        let message: Message = match &self.state {
            HandshakeState::Idle => {
                proof {
                    lemma_sccrq_wf(self.host_name@, self.tunnel_id);
                }
                build_sccrq(self.host_name.as_slice(), self.tunnel_id)
            },
            HandshakeState::ResponseValidated(assigned_id, challenge) => {
                let response = compute_response(
                    *assigned_id,
                    self.secret.as_slice(),
                    challenge.as_slice(),
                );
                proof {
                    lemma_scccn_wf(*assigned_id, response@);
                }
                build_scccn(*assigned_id, response)
            },
            _ => {
                return None;
            },
        };
        let mut bytes: Vec<u8> = Vec::new();
        message.write(&mut bytes);
        assert(bytes@ =~= message@.encoding());
        Some(bytes)
    }

    /// The action that the state calls for, as [`expected_action`] defines
    /// it.
    pub fn action(&self) -> (action: Action)
        requires
            self.wf(),
        ensures
            action@ == self.action_spec(),
    {
        match self.datagram() {
            Some(bytes) => Action::Send(bytes),
            None => match &self.state {
                HandshakeState::RequestSent(_) => Action::Receive,
                _ => Action::Done,
            },
        }
    }

    /// Takes in what the transport did and moves to the state that
    /// follows, as [`next_state`] defines it. The settings stay as they
    /// are.
    pub fn advance(&mut self, event: Event)
        requires
            old(self).wf(),
        ensures
            final(self).wf(),
            final(self).host_name_spec() == old(self).host_name_spec(),
            final(self).secret_spec() == old(self).secret_spec(),
            final(self).tunnel_id_spec() == old(self).tunnel_id_spec(),
            final(self).state_spec() == old(self).next_spec(event@),
    {
        let pending: Option<Vec<u8>> = self.datagram();
        let next: Option<HandshakeState> = match (&self.state, event) {
            (HandshakeState::Idle, Event::Sent(sent)) => {
                let datagram_len: usize = match &pending {
                    Some(bytes) => bytes.len(),
                    None => 0,
                };
                if sent < datagram_len {
                    Some(HandshakeState::Failed(FailureReason::PartialSend))
                } else {
                    Some(HandshakeState::RequestSent(self.tunnel_id))
                }
            },
            (HandshakeState::ResponseValidated(assigned_id, _), Event::Sent(sent)) => {
                let datagram_len: usize = match &pending {
                    Some(bytes) => bytes.len(),
                    None => 0,
                };
                if sent < datagram_len {
                    Some(HandshakeState::Failed(FailureReason::PartialSend))
                } else {
                    Some(HandshakeState::Established(*assigned_id))
                }
            },
            (HandshakeState::RequestSent(requested), Event::Received(bytes)) => {
                match validate_reply(bytes.as_slice(), *requested) {
                    Ok((assigned_id, challenge)) => Some(
                        HandshakeState::ResponseValidated(assigned_id, challenge),
                    ),
                    Err(reason) => Some(HandshakeState::Failed(reason)),
                }
            },
            (HandshakeState::Idle, Event::IoFailed) => Some(
                HandshakeState::Failed(FailureReason::Io),
            ),
            (HandshakeState::RequestSent(_), Event::IoFailed) => Some(
                HandshakeState::Failed(FailureReason::Io),
            ),
            (HandshakeState::ResponseValidated(_, _), Event::IoFailed) => Some(
                HandshakeState::Failed(FailureReason::Io),
            ),
            _ => None,
        };
        match next {
            Some(state) => {
                self.state = state;
            },
            None => {},
        }
    }
}

/// Once the attempt is over nothing more is sent or received, and no
/// event changes the state.
pub proof fn lemma_finished_stays(
    host_name: Seq<u8>,
    secret: Seq<u8>,
    tunnel_id: u16,
    state: StateModel,
    event: EventModel,
)
    requires
        state.is_terminal(),
    ensures
        expected_action(host_name, secret, tunnel_id, state) == ActionModel::Done,
        next_state(host_name, secret, tunnel_id, state, event) == state,
{
}

/// Whatever the event, a state that is not over is followed by the state
/// next in line or by a failure: the attempt never goes back and never
/// skips a step.
pub proof fn lemma_steps_in_order(
    host_name: Seq<u8>,
    secret: Seq<u8>,
    tunnel_id: u16,
    state: StateModel,
    event: EventModel,
)
    ensures
        ({
            let next = next_state(host_name, secret, tunnel_id, state, event);
            next == state || next is Failed || match state {
                StateModel::Idle => next == StateModel::RequestSent(tunnel_id),
                StateModel::RequestSent(_) => next is ResponseValidated,
                StateModel::ResponseValidated(assigned_id, _) => next == StateModel::Established(
                    assigned_id,
                ),
                _ => false,
            }
        }),
{
}

/// A data message in answer to the request fails the attempt, and nothing
/// more is sent.
pub proof fn lemma_data_before_control(
    host_name: Seq<u8>,
    secret: Seq<u8>,
    tunnel_id: u16,
    requested: u16,
    bytes: Seq<u8>,
)
    requires
        try_read_spec(bytes) is Ok,
        try_read_spec(bytes)->Ok_0 is Data,
    ensures
        ({
            let next = next_state(
                host_name,
                secret,
                tunnel_id,
                StateModel::RequestSent(requested),
                EventModel::Received(bytes),
            );
            &&& next == StateModel::Failed(FailureReason::PrematureData)
            &&& expected_action(host_name, secret, tunnel_id, next) == ActionModel::Done
        }),
{
}

/// A datagram that is no message fails the attempt with the error of the
/// decoder, and nothing more is sent.
pub proof fn lemma_undecodable_reply(
    host_name: Seq<u8>,
    secret: Seq<u8>,
    tunnel_id: u16,
    requested: u16,
    bytes: Seq<u8>,
)
    requires
        try_read_spec(bytes) is Err,
    ensures
        ({
            let next = next_state(
                host_name,
                secret,
                tunnel_id,
                StateModel::RequestSent(requested),
                EventModel::Received(bytes),
            );
            &&& next == StateModel::Failed(
                FailureReason::InvalidResponse(try_read_spec(bytes)->Err_0),
            )
            &&& expected_action(host_name, secret, tunnel_id, next) == ActionModel::Done
        }),
{
}

/// A reply for another tunnel than the one requested fails the attempt,
/// whatever else it holds, and nothing more is sent.
pub proof fn lemma_tunnel_id_mismatch(
    host_name: Seq<u8>,
    secret: Seq<u8>,
    tunnel_id: u16,
    requested: u16,
    bytes: Seq<u8>,
    reply: ControlModel,
)
    requires
        try_read_spec(bytes) == Ok::<MessageModel, DecodeError>(MessageModel::Control(reply)),
        reply.tunnel_id != requested,
    ensures
        ({
            let next = next_state(
                host_name,
                secret,
                tunnel_id,
                StateModel::RequestSent(requested),
                EventModel::Received(bytes),
            );
            &&& next == StateModel::Failed(FailureReason::TunnelIdMismatch)
            &&& expected_action(host_name, secret, tunnel_id, next) == ActionModel::Done
        }),
{
}

/// A reply for the right tunnel that does not start with the message type
/// of a reply fails the attempt, and nothing more is sent.
pub proof fn lemma_unexpected_message_type(
    host_name: Seq<u8>,
    secret: Seq<u8>,
    tunnel_id: u16,
    requested: u16,
    bytes: Seq<u8>,
    reply: ControlModel,
)
    requires
        try_read_spec(bytes) == Ok::<MessageModel, DecodeError>(MessageModel::Control(reply)),
        reply.tunnel_id == requested,
        !starts_with_reply(reply.avps),
    ensures
        ({
            let next = next_state(
                host_name,
                secret,
                tunnel_id,
                StateModel::RequestSent(requested),
                EventModel::Received(bytes),
            );
            &&& next == StateModel::Failed(FailureReason::UnexpectedMessageType)
            &&& expected_action(host_name, secret, tunnel_id, next) == ActionModel::Done
        }),
{
}

/// A reply that is in order but assigns no tunnel id fails the attempt,
/// and nothing more is sent.
pub proof fn lemma_missing_tunnel_id(
    host_name: Seq<u8>,
    secret: Seq<u8>,
    tunnel_id: u16,
    requested: u16,
    bytes: Seq<u8>,
    reply: ControlModel,
)
    requires
        try_read_spec(bytes) == Ok::<MessageModel, DecodeError>(MessageModel::Control(reply)),
        reply.tunnel_id == requested,
        starts_with_reply(reply.avps),
        last_tunnel_id(reply.avps.skip(1)) is None,
    ensures
        ({
            let next = next_state(
                host_name,
                secret,
                tunnel_id,
                StateModel::RequestSent(requested),
                EventModel::Received(bytes),
            );
            &&& next == StateModel::Failed(FailureReason::MissingTunnelId)
            &&& expected_action(host_name, secret, tunnel_id, next) == ActionModel::Done
        }),
{
}

/// A reply that is in order and assigns a tunnel id but carries no
/// challenge fails the attempt, and nothing more is sent.
pub proof fn lemma_missing_challenge(
    host_name: Seq<u8>,
    secret: Seq<u8>,
    tunnel_id: u16,
    requested: u16,
    bytes: Seq<u8>,
    reply: ControlModel,
)
    requires
        try_read_spec(bytes) == Ok::<MessageModel, DecodeError>(MessageModel::Control(reply)),
        reply.tunnel_id == requested,
        starts_with_reply(reply.avps),
        last_tunnel_id(reply.avps.skip(1)) is Some,
        last_challenge(reply.avps.skip(1)) is None,
    ensures
        ({
            let next = next_state(
                host_name,
                secret,
                tunnel_id,
                StateModel::RequestSent(requested),
                EventModel::Received(bytes),
            );
            &&& next == StateModel::Failed(FailureReason::MissingChallenge)
            &&& expected_action(host_name, secret, tunnel_id, next) == ActionModel::Done
        }),
{
}

/// A record of a type that the handshake does not ask for changes nothing
/// in what a reply yields.
pub proof fn lemma_other_records_ignored(avps: Seq<AvpModel>, extra: AvpModel)
    requires
        !(extra is AssignedTunnelId),
        !(extra is Challenge),
    ensures
        last_tunnel_id(avps.push(extra)) == last_tunnel_id(avps),
        last_challenge(avps.push(extra)) == last_challenge(avps),
{
    assert(avps.push(extra).drop_last() =~= avps);
}

/// The whole handshake: where both sends are taken in full and the peer
/// answers the request with a well-formed reply for the requested tunnel
/// that assigns `assigned_id` and carries `challenge`, the attempt ends
/// in `Established(assigned_id)`, and the last datagram sent is the
/// closing message with the digest of the assigned tunnel id, the secret
/// and the challenge. Bytes that the transport adds after the reply do
/// not matter.
pub proof fn lemma_handshake_succeeds(
    host_name: Seq<u8>,
    secret: Seq<u8>,
    tunnel_id: u16,
    reply: ControlModel,
    padding: Seq<u8>,
    assigned_id: u16,
    challenge: Seq<u8>,
    first_sent: usize,
    second_sent: usize,
)
    requires
        host_name.len() <= MAX_VALUE_LEN,
        reply.wf(),
        reply.tunnel_id == tunnel_id,
        starts_with_reply(reply.avps),
        last_tunnel_id(reply.avps.skip(1)) == Some(assigned_id),
        last_challenge(reply.avps.skip(1)) == Some(challenge),
        first_sent >= SCCRQ_BASE_LEN + host_name.len(),
        second_sent >= SCCCN_LEN,
    ensures
        ({
            let requested = next_state(
                host_name,
                secret,
                tunnel_id,
                StateModel::Idle,
                EventModel::Sent(first_sent),
            );
            let validated = next_state(
                host_name,
                secret,
                tunnel_id,
                requested,
                EventModel::Received(reply.encoding() + padding),
            );
            let established = next_state(
                host_name,
                secret,
                tunnel_id,
                validated,
                EventModel::Sent(second_sent),
            );
            &&& requested == StateModel::RequestSent(tunnel_id)
            &&& expected_action(host_name, secret, tunnel_id, requested) == ActionModel::Receive
            &&& validated == StateModel::ResponseValidated(assigned_id, challenge)
            &&& expected_action(host_name, secret, tunnel_id, validated) == ActionModel::Send(
                scccn(
                    assigned_id,
                    md5_of(be16(assigned_id) + secret + challenge)@,
                ).encoding(),
            )
            &&& established == StateModel::Established(assigned_id)
            &&& expected_action(host_name, secret, tunnel_id, established) == ActionModel::Done
        }),
{
    lemma_sccrq_wf(host_name, tunnel_id);
    lemma_control_round_trip(reply, padding);
    lemma_scccn_wf(assigned_id, response_of(assigned_id, secret, challenge)@);
}

} // verus!
