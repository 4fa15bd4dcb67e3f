use l2tp_handshake::avp::{Avp, MessageType};
use l2tp_handshake::digest::compute_response;
use l2tp_handshake::handshake::{build_scccn, build_sccrq, validate_reply};
use l2tp_handshake::message::{ControlMessage, Message};
use rl2tp::avp::types;
use rl2tp::avp::AVP;
use rl2tp::common::{SliceReader, VecWriter};

fn written_by_rl2tp(tunnel_id: u16, ns: u16, nr: u16, avps: Vec<AVP>) -> Vec<u8> {
    let message = rl2tp::Message::<Vec<u8>>::Control(rl2tp::ControlMessage {
        length: 0,
        tunnel_id,
        session_id: 0,
        ns,
        nr,
        avps,
    });
    let mut writer = VecWriter::new();
    message.write(&mut writer);
    writer.data
}

fn read_by_rl2tp(bytes: &[u8]) -> rl2tp::ControlMessage {
    let mut reader = SliceReader::from(bytes);
    match rl2tp::Message::<&[u8]>::try_read(&mut reader) {
        Ok(rl2tp::Message::Control(control)) => control,
        other => panic!("not a control message: {:?}", other),
    }
}

#[test]
fn request_is_byte_for_byte_what_rl2tp_writes() {
    let theirs = written_by_rl2tp(
        0,
        0,
        0,
        vec![
            AVP::MessageType(types::MessageType::StartControlConnectionRequest),
            AVP::ProtocolVersion(types::ProtocolVersion { version: 1, revision: 0 }),
            AVP::HostName(types::HostName { value: b"RUGGEDv0".to_vec() }),
            AVP::FramingCapabilities(types::FramingCapabilities::new(true, true)),
            AVP::AssignedTunnelId(types::AssignedTunnelId::from(6)),
        ],
    );
    assert_eq!(build_sccrq(b"RUGGEDv0", 6).encode(), Some(theirs));
}

#[test]
fn closing_message_is_byte_for_byte_what_rl2tp_writes() {
    let digest = compute_response(42, b"secret", &[1, 2, 3]);
    let theirs = written_by_rl2tp(
        42,
        0,
        0,
        vec![
            AVP::MessageType(types::MessageType::StartControlConnectionConnected),
            AVP::ChallengeResponse(types::ChallengeResponse { value: digest }),
        ],
    );
    assert_eq!(build_scccn(42, digest).encode(), Some(theirs));
}

#[test]
fn rl2tp_reads_the_request() {
    let bytes = build_sccrq(b"RUGGEDv0", 6).encode().unwrap();
    let control = read_by_rl2tp(&bytes);
    assert_eq!(control.length as usize, bytes.len());
    assert_eq!(control.tunnel_id, 0);
    assert_eq!(
        control.avps,
        vec![
            AVP::MessageType(types::MessageType::StartControlConnectionRequest),
            AVP::ProtocolVersion(types::ProtocolVersion { version: 1, revision: 0 }),
            AVP::HostName(types::HostName { value: b"RUGGEDv0".to_vec() }),
            AVP::FramingCapabilities(types::FramingCapabilities::new(true, true)),
            AVP::AssignedTunnelId(types::AssignedTunnelId::from(6)),
        ]
    );
}

#[test]
fn reply_written_by_rl2tp_is_read_and_accepted() {
    let theirs = written_by_rl2tp(
        6,
        0,
        1,
        vec![
            AVP::MessageType(types::MessageType::StartControlConnectionReply),
            AVP::ProtocolVersion(types::ProtocolVersion { version: 1, revision: 0 }),
            AVP::FramingCapabilities(types::FramingCapabilities::new(false, true)),
            AVP::HostName(types::HostName { value: b"lns".to_vec() }),
            AVP::AssignedTunnelId(types::AssignedTunnelId::from(42)),
            AVP::ReceiveWindowSize(types::ReceiveWindowSize::from(4)),
            AVP::Challenge(types::Challenge { value: vec![1, 2, 3] }),
        ],
    );
    assert_eq!(
        Message::try_read(&theirs),
        Ok(Message::Control(ControlMessage {
            length: theirs.len() as u16,
            tunnel_id: 6,
            session_id: 0,
            ns: 0,
            nr: 1,
            avps: vec![
                Avp::MessageType(MessageType::StartControlConnectionReply),
                Avp::ProtocolVersion { major: 1, minor: 0 },
                Avp::FramingCapabilities { async_framing: false, sync_framing: true },
                Avp::HostName(b"lns".to_vec()),
                Avp::AssignedTunnelId(42),
                Avp::Unknown { tag: 10, raw: vec![0, 4] },
                Avp::Challenge(vec![1, 2, 3]),
            ],
        }))
    );
    assert_eq!(validate_reply(&theirs, 6), Ok((42, vec![1, 2, 3])));
}

#[test]
fn data_message_written_by_rl2tp_is_a_data_message() {
    let payload: Vec<u8> = vec![0xde, 0xad, 0xbe, 0xef];
    let message = rl2tp::Message::Data(rl2tp::DataMessage {
        is_prioritized: false,
        length: None,
        tunnel_id: 5,
        session_id: 3,
        ns_nr: None,
        offset: None,
        data: payload,
    });
    let mut writer = VecWriter::new();
    message.write(&mut writer);
    assert_eq!(
        Message::try_read(&writer.data),
        Ok(Message::Data(vec![0x00, 0x05, 0x00, 0x03, 0xde, 0xad, 0xbe, 0xef]))
    );
}
