use l2tp_handshake::avp::{Avp, MessageType};
use l2tp_handshake::digest::compute_response;
use l2tp_handshake::handshake::{
    build_scccn, build_sccrq, unhandled_records, validate_message, validate_reply, Action, Event,
    FailureReason, HandshakeState, Orchestrator,
};
use l2tp_handshake::message::{ControlMessage, DecodeError, Message};

const SECRET: &[u8] = b"secret";
const HOST_NAME: &[u8] = b"RUGGEDv0";

/// What a scripted transport does on one receive.
#[derive(Clone)]
enum Reply {
    Datagram(Vec<u8>),
    Error,
}

/// The datagrams that a run handed to the transport, in order.
struct Run {
    sent: Vec<Vec<u8>>,
    receives: usize,
}

/// Drives an orchestrator against a transport that takes every datagram in
/// full and answers each receive with the next scripted reply.
fn run(orchestrator: &mut Orchestrator, replies: &[Reply]) -> Run {
    let mut sent = Vec::new();
    let mut receives = 0;
    loop {
        match orchestrator.action() {
            Action::Send(bytes) => {
                let count = bytes.len();
                sent.push(bytes);
                orchestrator.advance(Event::Sent(count));
            }
            Action::Receive => {
                let event = match replies.get(receives) {
                    Some(Reply::Datagram(bytes)) => Event::Received(bytes.clone()),
                    Some(Reply::Error) | None => Event::IoFailed,
                };
                receives += 1;
                orchestrator.advance(event);
            }
            Action::Done => break,
        }
    }
    Run { sent, receives }
}

fn reply_bytes(tunnel_id: u16, avps: Vec<Avp>) -> Vec<u8> {
    Message::Control(ControlMessage { length: 0, tunnel_id, session_id: 0, ns: 0, nr: 1, avps })
        .encode()
        .unwrap()
}

fn good_reply() -> Vec<u8> {
    reply_bytes(
        6,
        vec![
            Avp::MessageType(MessageType::StartControlConnectionReply),
            Avp::AssignedTunnelId(42),
            Avp::Challenge(vec![0x01, 0x02, 0x03]),
        ],
    )
}

fn fresh() -> Orchestrator {
    Orchestrator::new(HOST_NAME.to_vec(), SECRET.to_vec(), 6).unwrap()
}

#[test]
fn handshake_happy_path() {
    let mut orchestrator = fresh();
    assert_eq!(orchestrator.state(), &HandshakeState::Idle);
    assert_eq!(orchestrator.tunnel_id(), 6);
    assert!(!orchestrator.is_finished());
    let outcome = run(&mut orchestrator, &[Reply::Datagram(good_reply())]);
    assert_eq!(orchestrator.state(), &HandshakeState::Established(42));
    assert!(orchestrator.is_finished());
    assert_eq!(outcome.receives, 1);
    assert_eq!(outcome.sent.len(), 2);

    let expected_digest: [u8; 16] = [
        0x0a, 0xfc, 0xb1, 0x48, 0x4c, 0xfa, 0x8c, 0x35, 0x6c, 0x50, 0xff, 0x34, 0x46, 0xb3, 0x23,
        0x2a,
    ];
    let mut input = vec![0x00, 0x2a];
    input.extend_from_slice(SECRET);
    input.extend_from_slice(&[0x01, 0x02, 0x03]);
    assert_eq!(md5::compute(&input).0, expected_digest);

    assert_eq!(
        Message::try_read(&outcome.sent[1]),
        Ok(Message::Control(ControlMessage {
            length: 42,
            tunnel_id: 42,
            session_id: 0,
            ns: 0,
            nr: 0,
            avps: vec![
                Avp::MessageType(MessageType::StartControlConnectionConnected),
                Avp::ChallengeResponse(expected_digest),
            ],
        }))
    );
    assert_eq!(
        Message::try_read(&outcome.sent[0]),
        Ok(Message::Control(ControlMessage {
            length: 60,
            tunnel_id: 0,
            session_id: 0,
            ns: 0,
            nr: 0,
            avps: vec![
                Avp::MessageType(MessageType::StartControlConnectionRequest),
                Avp::ProtocolVersion { major: 1, minor: 0 },
                Avp::HostName(HOST_NAME.to_vec()),
                Avp::FramingCapabilities { async_framing: true, sync_framing: true },
                Avp::AssignedTunnelId(6),
            ],
        }))
    );
}

#[test]
fn request_bytes_are_exact() {
    let orchestrator = fresh();
    let expected: Vec<u8> = vec![
        0x13, 0x20, 0x00, 0x3c, 0x00, 0x00, 0x00, 0x00, 0x00, 0x00, 0x00, 0x00, // header
        0x01, 0x08, 0x00, 0x00, 0x00, 0x00, 0x00, 0x01, // message type: request
        0x01, 0x08, 0x00, 0x00, 0x00, 0x02, 0x01, 0x00, // protocol version 1.0
        0x01, 0x0e, 0x00, 0x00, 0x00, 0x07, b'R', b'U', b'G', b'G', b'E', b'D', b'v', b'0',
        0x01, 0x0a, 0x00, 0x00, 0x00, 0x03, 0x00, 0x00, 0x00, 0xc0, // framing: both
        0x01, 0x08, 0x00, 0x00, 0x00, 0x09, 0x00, 0x06, // assigned tunnel id 6
    ];
    assert_eq!(orchestrator.action(), Action::Send(expected.clone()));
    assert_eq!(build_sccrq(HOST_NAME, 6).encode(), Some(expected));
}

#[test]
fn closing_message_bytes_are_exact() {
    let digest = compute_response(42, SECRET, &[1, 2, 3]);
    let mut expected: Vec<u8> = vec![
        0x13, 0x20, 0x00, 0x2a, 0x00, 0x2a, 0x00, 0x00, 0x00, 0x00, 0x00, 0x00, // header
        0x01, 0x08, 0x00, 0x00, 0x00, 0x00, 0x00, 0x03, // message type: connected
        0x01, 0x16, 0x00, 0x00, 0x00, 0x0d, // challenge response
    ];
    expected.extend_from_slice(&digest);
    assert_eq!(build_scccn(42, digest).encode(), Some(expected));
}

#[test]
fn tunnel_id_mismatch() {
    let reply = reply_bytes(
        7,
        vec![
            Avp::MessageType(MessageType::StartControlConnectionReply),
            Avp::AssignedTunnelId(42),
            Avp::Challenge(vec![0x01, 0x02, 0x03]),
        ],
    );
    let mut orchestrator = fresh();
    let outcome = run(&mut orchestrator, &[Reply::Datagram(reply), Reply::Datagram(good_reply())]);
    assert_eq!(orchestrator.state(), &HandshakeState::Failed(FailureReason::TunnelIdMismatch));
    assert_eq!(outcome.sent.len(), 1);
    assert_eq!(outcome.receives, 1);
    assert_eq!(orchestrator.action(), Action::Done);
}

#[test]
fn missing_challenge() {
    let reply = reply_bytes(
        6,
        vec![Avp::MessageType(MessageType::StartControlConnectionReply), Avp::AssignedTunnelId(42)],
    );
    let mut orchestrator = fresh();
    let outcome = run(&mut orchestrator, &[Reply::Datagram(reply)]);
    assert_eq!(orchestrator.state(), &HandshakeState::Failed(FailureReason::MissingChallenge));
    assert_eq!(outcome.sent.len(), 1);
    assert_eq!(orchestrator.action(), Action::Done);
}

#[test]
fn missing_tunnel_id() {
    let reply = reply_bytes(
        6,
        vec![
            Avp::MessageType(MessageType::StartControlConnectionReply),
            Avp::Challenge(vec![0x01, 0x02, 0x03]),
        ],
    );
    let mut orchestrator = fresh();
    let outcome = run(&mut orchestrator, &[Reply::Datagram(reply)]);
    assert_eq!(orchestrator.state(), &HandshakeState::Failed(FailureReason::MissingTunnelId));
    assert_eq!(outcome.sent.len(), 1);
}

#[test]
fn missing_both_reports_the_tunnel_id() {
    let reply = reply_bytes(6, vec![Avp::MessageType(MessageType::StartControlConnectionReply)]);
    assert_eq!(validate_reply(&reply, 6), Err(FailureReason::MissingTunnelId));
}

#[test]
fn data_before_control() {
    let reply = Message::Data(vec![0x00, 0x06, 0x00, 0x00, 0xde, 0xad]).encode().unwrap();
    let mut orchestrator = fresh();
    let outcome = run(&mut orchestrator, &[Reply::Datagram(reply)]);
    assert_eq!(orchestrator.state(), &HandshakeState::Failed(FailureReason::PrematureData));
    assert_eq!(outcome.sent.len(), 1);
    assert_eq!(orchestrator.action(), Action::Done);
}

#[test]
fn undecodable_reply_fails_with_the_decoder_error() {
    let good = good_reply();
    let cases: Vec<(Vec<u8>, DecodeError)> = vec![
        (Vec::new(), DecodeError::Truncated),
        (good[..good.len() - 1].to_vec(), DecodeError::Truncated),
        (vec![0x13, 0x40, 0, 12, 0, 6, 0, 0, 0, 0, 0, 0], DecodeError::UnknownKind),
        (
            vec![0x13, 0x20, 0, 19, 0, 6, 0, 0, 0, 0, 0, 0, 0x01, 0x07, 0, 0, 0, 0, 2],
            DecodeError::InvalidAvp,
        ),
    ];
    for (reply, error) in cases {
        let mut orchestrator = fresh();
        let outcome = run(&mut orchestrator, &[Reply::Datagram(reply)]);
        assert_eq!(
            orchestrator.state(),
            &HandshakeState::Failed(FailureReason::InvalidResponse(error))
        );
        assert_eq!(outcome.sent.len(), 1);
    }
}

#[test]
fn unexpected_message_type() {
    let replies = vec![
        // no record at all
        reply_bytes(6, Vec::new()),
        // the first record is no message type
        reply_bytes(
            6,
            vec![
                Avp::AssignedTunnelId(42),
                Avp::MessageType(MessageType::StartControlConnectionReply),
                Avp::Challenge(vec![1, 2, 3]),
            ],
        ),
        // the message type is not that of a reply
        reply_bytes(
            6,
            vec![
                Avp::MessageType(MessageType::StartControlConnectionRequest),
                Avp::AssignedTunnelId(42),
                Avp::Challenge(vec![1, 2, 3]),
            ],
        ),
        reply_bytes(
            6,
            vec![
                Avp::MessageType(MessageType::StopControlConnectionNotification),
                Avp::AssignedTunnelId(42),
                Avp::Challenge(vec![1, 2, 3]),
            ],
        ),
    ];
    for reply in replies {
        let mut orchestrator = fresh();
        let outcome = run(&mut orchestrator, &[Reply::Datagram(reply)]);
        assert_eq!(
            orchestrator.state(),
            &HandshakeState::Failed(FailureReason::UnexpectedMessageType)
        );
        assert_eq!(outcome.sent.len(), 1);
    }
}

#[test]
fn tunnel_id_is_checked_before_the_message_type() {
    let reply = reply_bytes(9, vec![Avp::MessageType(MessageType::Hello)]);
    assert_eq!(validate_reply(&reply, 6), Err(FailureReason::TunnelIdMismatch));
    let reply = reply_bytes(9, Vec::new());
    assert_eq!(validate_reply(&reply, 6), Err(FailureReason::TunnelIdMismatch));
}

#[test]
fn other_records_in_the_reply_are_passed_over() {
    let reply = reply_bytes(
        6,
        vec![
            Avp::MessageType(MessageType::StartControlConnectionReply),
            Avp::ProtocolVersion { major: 1, minor: 0 },
            Avp::Unknown { tag: 8, raw: b"vendor".to_vec() },
            Avp::Challenge(vec![0x01, 0x02, 0x03]),
            Avp::HostName(b"peer".to_vec()),
            Avp::FramingCapabilities { async_framing: false, sync_framing: true },
            Avp::AssignedTunnelId(42),
            Avp::Unknown { tag: 10, raw: vec![0, 4] },
            Avp::MessageType(MessageType::Hello),
        ],
    );
    assert_eq!(validate_reply(&reply, 6), Ok((42, vec![0x01, 0x02, 0x03])));
    let mut orchestrator = fresh();
    run(&mut orchestrator, &[Reply::Datagram(reply)]);
    assert_eq!(orchestrator.state(), &HandshakeState::Established(42));
}

#[test]
fn last_tunnel_id_and_last_challenge_count() {
    let reply = reply_bytes(
        6,
        vec![
            Avp::MessageType(MessageType::StartControlConnectionReply),
            Avp::AssignedTunnelId(1),
            Avp::Challenge(vec![0xaa]),
            Avp::AssignedTunnelId(2),
            Avp::Challenge(vec![0xbb, 0xcc]),
        ],
    );
    assert_eq!(validate_reply(&reply, 6), Ok((2, vec![0xbb, 0xcc])));
}

#[test]
fn empty_challenge_is_accepted() {
    let reply = reply_bytes(
        6,
        vec![
            Avp::MessageType(MessageType::StartControlConnectionReply),
            Avp::AssignedTunnelId(0x1234),
            Avp::Challenge(Vec::new()),
        ],
    );
    let mut orchestrator = Orchestrator::new(Vec::new(), b"hunter2".to_vec(), 6).unwrap();
    let outcome = run(&mut orchestrator, &[Reply::Datagram(reply)]);
    assert_eq!(orchestrator.state(), &HandshakeState::Established(0x1234));
    let digest: [u8; 16] = [
        0x2e, 0xe1, 0xbc, 0xe1, 0x8f, 0x60, 0xe6, 0xae, 0x72, 0xa4, 0xef, 0x4c, 0xd0, 0x07, 0x7c,
        0x99,
    ];
    assert_eq!(outcome.sent[1][26..], digest);
}

#[test]
fn reply_with_padding_after_it_is_accepted() {
    let mut reply = good_reply();
    reply.extend_from_slice(&[0u8; 100]);
    let mut orchestrator = fresh();
    run(&mut orchestrator, &[Reply::Datagram(reply)]);
    assert_eq!(orchestrator.state(), &HandshakeState::Established(42));
}

#[test]
fn validate_message_on_decoded_values() {
    let message = Message::Control(ControlMessage {
        length: 0,
        tunnel_id: 6,
        session_id: 0,
        ns: 0,
        nr: 0,
        avps: vec![
            Avp::MessageType(MessageType::StartControlConnectionReply),
            Avp::Challenge(vec![5, 6]),
            Avp::AssignedTunnelId(77),
        ],
    });
    assert_eq!(validate_message(&message, 6), Ok((77, vec![5, 6])));
    assert_eq!(validate_message(&message, 5), Err(FailureReason::TunnelIdMismatch));
    assert_eq!(
        validate_message(&Message::Data(vec![1, 2, 3]), 6),
        Err(FailureReason::PrematureData)
    );
}

#[test]
fn short_write_of_the_request_is_a_partial_send() {
    let mut orchestrator = fresh();
    let request = match orchestrator.action() {
        Action::Send(bytes) => bytes,
        other => panic!("no send: {:?}", other),
    };
    assert_eq!(request.len(), 60);
    orchestrator.advance(Event::Sent(59));
    assert_eq!(orchestrator.state(), &HandshakeState::Failed(FailureReason::PartialSend));
    assert_eq!(orchestrator.action(), Action::Done);
}

#[test]
fn full_write_of_the_request_moves_on() {
    let mut orchestrator = fresh();
    orchestrator.advance(Event::Sent(60));
    assert_eq!(orchestrator.state(), &HandshakeState::RequestSent(6));
    assert_eq!(orchestrator.action(), Action::Receive);
    assert!(!orchestrator.is_finished());
}

#[test]
fn short_write_of_the_closing_message_is_a_partial_send() {
    let mut orchestrator = fresh();
    orchestrator.advance(Event::Sent(60));
    orchestrator.advance(Event::Received(good_reply()));
    assert_eq!(
        orchestrator.state(),
        &HandshakeState::ResponseValidated(42, vec![0x01, 0x02, 0x03])
    );
    match orchestrator.action() {
        Action::Send(bytes) => assert_eq!(bytes.len(), 42),
        other => panic!("no send: {:?}", other),
    }
    orchestrator.advance(Event::Sent(41));
    assert_eq!(orchestrator.state(), &HandshakeState::Failed(FailureReason::PartialSend));

    let mut orchestrator = fresh();
    orchestrator.advance(Event::Sent(60));
    orchestrator.advance(Event::Received(good_reply()));
    orchestrator.advance(Event::Sent(0));
    assert_eq!(orchestrator.state(), &HandshakeState::Failed(FailureReason::PartialSend));
}

#[test]
fn transport_error_fails_the_attempt_in_every_waiting_state() {
    let mut orchestrator = fresh();
    orchestrator.advance(Event::IoFailed);
    assert_eq!(orchestrator.state(), &HandshakeState::Failed(FailureReason::Io));

    let mut orchestrator = fresh();
    let outcome = run(&mut orchestrator, &[Reply::Error]);
    assert_eq!(orchestrator.state(), &HandshakeState::Failed(FailureReason::Io));
    assert_eq!(outcome.sent.len(), 1);

    let mut orchestrator = fresh();
    orchestrator.advance(Event::Sent(60));
    orchestrator.advance(Event::Received(good_reply()));
    orchestrator.advance(Event::IoFailed);
    assert_eq!(orchestrator.state(), &HandshakeState::Failed(FailureReason::Io));
}

#[test]
fn finished_attempt_takes_no_more_events() {
    let mut orchestrator = fresh();
    run(&mut orchestrator, &[Reply::Datagram(good_reply())]);
    for event in [Event::Sent(0), Event::Sent(1000), Event::Received(good_reply()), Event::IoFailed]
    {
        orchestrator.advance(event);
        assert_eq!(orchestrator.state(), &HandshakeState::Established(42));
        assert_eq!(orchestrator.action(), Action::Done);
    }

    let mut orchestrator = fresh();
    orchestrator.advance(Event::Sent(1));
    for event in [Event::Sent(60), Event::Received(good_reply()), Event::IoFailed] {
        orchestrator.advance(event);
        assert_eq!(orchestrator.state(), &HandshakeState::Failed(FailureReason::PartialSend));
        assert_eq!(orchestrator.action(), Action::Done);
    }
}

#[test]
fn event_that_answers_no_pending_action_changes_nothing() {
    let mut orchestrator = fresh();
    orchestrator.advance(Event::Received(good_reply()));
    assert_eq!(orchestrator.state(), &HandshakeState::Idle);
    orchestrator.advance(Event::Sent(60));
    orchestrator.advance(Event::Sent(60));
    assert_eq!(orchestrator.state(), &HandshakeState::RequestSent(6));
    orchestrator.advance(Event::Received(good_reply()));
    orchestrator.advance(Event::Received(Vec::new()));
    assert_eq!(
        orchestrator.state(),
        &HandshakeState::ResponseValidated(42, vec![0x01, 0x02, 0x03])
    );
}

#[test]
fn host_name_too_long_for_one_record_is_refused() {
    assert!(Orchestrator::new(vec![b'a'; 1018], SECRET.to_vec(), 6).is_none());
    let mut orchestrator = Orchestrator::new(vec![b'a'; 1017], SECRET.to_vec(), 6).unwrap();
    match orchestrator.action() {
        Action::Send(bytes) => assert_eq!(bytes.len(), 52 + 1017),
        other => panic!("no send: {:?}", other),
    }
    run(&mut orchestrator, &[Reply::Datagram(good_reply())]);
    assert_eq!(orchestrator.state(), &HandshakeState::Established(42));
}

#[test]
fn requested_tunnel_id_is_the_one_the_reply_must_carry() {
    let reply = reply_bytes(
        0xbeef,
        vec![
            Avp::MessageType(MessageType::StartControlConnectionReply),
            Avp::AssignedTunnelId(1),
            Avp::Challenge(vec![1]),
        ],
    );
    let mut orchestrator = Orchestrator::new(HOST_NAME.to_vec(), SECRET.to_vec(), 0xbeef).unwrap();
    run(&mut orchestrator, &[Reply::Datagram(reply.clone())]);
    assert_eq!(orchestrator.state(), &HandshakeState::Established(1));
    let mut orchestrator = fresh();
    run(&mut orchestrator, &[Reply::Datagram(reply)]);
    assert_eq!(orchestrator.state(), &HandshakeState::Failed(FailureReason::TunnelIdMismatch));
}

fn reply_message(tunnel_id: u16, avps: Vec<Avp>) -> Message {
    Message::Control(ControlMessage { length: 0, tunnel_id, session_id: 0, ns: 0, nr: 1, avps })
}

#[test]
fn unhandled_records_are_listed_by_index() {
    let message = reply_message(
        6,
        vec![
            Avp::MessageType(MessageType::StartControlConnectionReply),
            Avp::ProtocolVersion { major: 1, minor: 0 },
            Avp::AssignedTunnelId(42),
            Avp::Unknown { tag: 8, raw: b"vendor".to_vec() },
            Avp::Challenge(vec![1, 2, 3]),
            Avp::HostName(b"peer".to_vec()),
            Avp::MessageType(MessageType::Hello),
            Avp::ChallengeResponse([0; 16]),
            Avp::FramingCapabilities { async_framing: true, sync_framing: true },
        ],
    );
    assert_eq!(unhandled_records(&message, 6), vec![1, 3, 5, 6, 7, 8]);
}

#[test]
fn reply_with_only_what_is_asked_for_has_no_unhandled_records() {
    let message = reply_message(
        6,
        vec![
            Avp::MessageType(MessageType::StartControlConnectionReply),
            Avp::AssignedTunnelId(42),
            Avp::Challenge(vec![1, 2, 3]),
        ],
    );
    assert_eq!(unhandled_records(&message, 6), Vec::<usize>::new());
    let message =
        reply_message(6, vec![Avp::MessageType(MessageType::StartControlConnectionReply)]);
    assert_eq!(unhandled_records(&message, 6), Vec::<usize>::new());
}

#[test]
fn refused_message_has_no_unhandled_records() {
    let avps = vec![
        Avp::MessageType(MessageType::StartControlConnectionReply),
        Avp::HostName(b"peer".to_vec()),
    ];
    assert_eq!(unhandled_records(&reply_message(6, avps.clone()), 6), vec![1]);
    assert_eq!(unhandled_records(&reply_message(7, avps), 6), Vec::<usize>::new());
    assert_eq!(unhandled_records(&Message::Data(vec![1, 2, 3]), 6), Vec::<usize>::new());
    assert_eq!(unhandled_records(&reply_message(6, Vec::new()), 6), Vec::<usize>::new());
    let not_a_reply =
        vec![Avp::MessageType(MessageType::Hello), Avp::HostName(b"peer".to_vec())];
    assert_eq!(unhandled_records(&reply_message(6, not_a_reply), 6), Vec::<usize>::new());
    let no_type_first = vec![Avp::HostName(b"peer".to_vec()), Avp::HostName(b"peer".to_vec())];
    assert_eq!(unhandled_records(&reply_message(6, no_type_first), 6), Vec::<usize>::new());
}
