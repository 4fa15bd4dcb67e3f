//! Attribute-value pairs: the typed, length-delimited records that make up
//! the payload of a control message.
//!
//! On the wire a record is a six-byte header followed by its value:
//!
//! ```text
//! byte 0   top two bits: bits 8..9 of the length; bit 0: mandatory; bit 1: hidden
//! byte 1   bits 0..7 of the length
//! bytes 2..3   vendor id, always zero here
//! bytes 4..5   attribute type, big-endian
//! bytes 6..    value
//! ```
//!
//! The length counts header and value together, so a reader can step over a
//! record whose attribute type it does not know.

use vstd::prelude::*;
use vstd::slice::{slice_subrange, slice_to_vec};
use crate::bytes::{be16, from_be16, push_be16, read_be16, lemma_be16_round_trip};

verus! {

/// Bytes taken by the header of a record.
pub const AVP_HEADER_LEN: usize = 6;

/// The largest length that the ten-bit length field can carry.
pub const MAX_AVP_LEN: usize = 1023;

/// The largest value that fits in one record.
pub const MAX_VALUE_LEN: usize = 1017;

pub const TAG_MESSAGE_TYPE: u16 = 0;

pub const TAG_PROTOCOL_VERSION: u16 = 2;

pub const TAG_FRAMING_CAPABILITIES: u16 = 3;

pub const TAG_HOST_NAME: u16 = 7;

pub const TAG_ASSIGNED_TUNNEL_ID: u16 = 9;

pub const TAG_CHALLENGE: u16 = 11;

pub const TAG_CHALLENGE_RESPONSE: u16 = 13;

/// The subtypes of control message.
#[derive(Clone, Copy, Debug, PartialEq, Eq, Structural)]
pub enum MessageType {
    StartControlConnectionRequest,
    StartControlConnectionReply,
    StartControlConnectionConnected,
    StopControlConnectionNotification,
    Hello,
    OutgoingCallRequest,
    OutgoingCallReply,
    OutgoingCallConnected,
    IncomingCallRequest,
    IncomingCallReply,
    IncomingCallConnected,
    CallDisconnectNotify,
    WanErrorNotify,
    SetLinkInfo,
}

impl MessageType {
    /// The number that stands for this subtype on the wire.
    pub open spec fn spec_code(self) -> u16 {
        match self {
            MessageType::StartControlConnectionRequest => 1,
            MessageType::StartControlConnectionReply => 2,
            MessageType::StartControlConnectionConnected => 3,
            MessageType::StopControlConnectionNotification => 4,
            MessageType::Hello => 6,
            MessageType::OutgoingCallRequest => 7,
            MessageType::OutgoingCallReply => 8,
            MessageType::OutgoingCallConnected => 9,
            MessageType::IncomingCallRequest => 10,
            MessageType::IncomingCallReply => 11,
            MessageType::IncomingCallConnected => 12,
            MessageType::CallDisconnectNotify => 14,
            MessageType::WanErrorNotify => 15,
            MessageType::SetLinkInfo => 16,
        }
    }

    /// The subtype that `code` stands for, if any.
    pub open spec fn spec_from_code(code: u16) -> Option<MessageType> {
        if code == 1 {
            Some(MessageType::StartControlConnectionRequest)
        } else if code == 2 {
            Some(MessageType::StartControlConnectionReply)
        } else if code == 3 {
            Some(MessageType::StartControlConnectionConnected)
        } else if code == 4 {
            Some(MessageType::StopControlConnectionNotification)
        } else if code == 6 {
            Some(MessageType::Hello)
        } else if code == 7 {
            Some(MessageType::OutgoingCallRequest)
        } else if code == 8 {
            Some(MessageType::OutgoingCallReply)
        } else if code == 9 {
            Some(MessageType::OutgoingCallConnected)
        } else if code == 10 {
            Some(MessageType::IncomingCallRequest)
        } else if code == 11 {
            Some(MessageType::IncomingCallReply)
        } else if code == 12 {
            Some(MessageType::IncomingCallConnected)
        } else if code == 14 {
            Some(MessageType::CallDisconnectNotify)
        } else if code == 15 {
            Some(MessageType::WanErrorNotify)
        } else if code == 16 {
            Some(MessageType::SetLinkInfo)
        } else {
            None
        }
    }

    /// Every subtype is found again from its code, and no code stands for
    /// two subtypes.
    pub proof fn lemma_code_round_trip(self)
        ensures
            Self::spec_from_code(self.spec_code()) == Some(self),
    {
    }

    /// A code that stands for a subtype is that subtype's code.
    pub proof fn lemma_from_code_round_trip(code: u16)
        ensures
            Self::spec_from_code(code) matches Some(t) ==> t.spec_code() == code,
    {
    }

    pub fn code(self) -> (c: u16)
        ensures
            c == self.spec_code(),
    {
        match self {
            MessageType::StartControlConnectionRequest => 1,
            MessageType::StartControlConnectionReply => 2,
            MessageType::StartControlConnectionConnected => 3,
            MessageType::StopControlConnectionNotification => 4,
            MessageType::Hello => 6,
            MessageType::OutgoingCallRequest => 7,
            MessageType::OutgoingCallReply => 8,
            MessageType::OutgoingCallConnected => 9,
            MessageType::IncomingCallRequest => 10,
            MessageType::IncomingCallReply => 11,
            MessageType::IncomingCallConnected => 12,
            MessageType::CallDisconnectNotify => 14,
            MessageType::WanErrorNotify => 15,
            MessageType::SetLinkInfo => 16,
        }
    }

    pub fn from_code(code: u16) -> (r: Option<MessageType>)
        ensures
            r == Self::spec_from_code(code),
    {
        match code {
            1 => Some(MessageType::StartControlConnectionRequest),
            2 => Some(MessageType::StartControlConnectionReply),
            3 => Some(MessageType::StartControlConnectionConnected),
            4 => Some(MessageType::StopControlConnectionNotification),
            6 => Some(MessageType::Hello),
            7 => Some(MessageType::OutgoingCallRequest),
            8 => Some(MessageType::OutgoingCallReply),
            9 => Some(MessageType::OutgoingCallConnected),
            10 => Some(MessageType::IncomingCallRequest),
            11 => Some(MessageType::IncomingCallReply),
            12 => Some(MessageType::IncomingCallConnected),
            14 => Some(MessageType::CallDisconnectNotify),
            15 => Some(MessageType::WanErrorNotify),
            16 => Some(MessageType::SetLinkInfo),
            _ => None,
        }
    }
}

/// One attribute-value pair.
#[derive(Clone, Debug, PartialEq, Eq)]
pub enum Avp {
    MessageType(MessageType),
    ProtocolVersion { major: u8, minor: u8 },
    HostName(Vec<u8>),
    FramingCapabilities { async_framing: bool, sync_framing: bool },
    AssignedTunnelId(u16),
    Challenge(Vec<u8>),
    ChallengeResponse([u8; 16]),
    /// A record whose attribute type this library does not interpret.
    Unknown { tag: u16, raw: Vec<u8> },
}

/// The mathematical value of an [`Avp`].
pub enum AvpModel {
    MessageType(MessageType),
    ProtocolVersion { major: u8, minor: u8 },
    HostName(Seq<u8>),
    FramingCapabilities { async_framing: bool, sync_framing: bool },
    AssignedTunnelId(u16),
    Challenge(Seq<u8>),
    ChallengeResponse(Seq<u8>),
    Unknown { tag: u16, raw: Seq<u8> },
}

impl View for Avp {
    type V = AvpModel;

    open spec fn view(&self) -> AvpModel {
        match self {
            Avp::MessageType(t) => AvpModel::MessageType(*t),
            Avp::ProtocolVersion { major, minor } => AvpModel::ProtocolVersion {
                major: *major,
                minor: *minor,
            },
            Avp::HostName(name) => AvpModel::HostName(name@),
            Avp::FramingCapabilities { async_framing, sync_framing } => {
                AvpModel::FramingCapabilities {
                    async_framing: *async_framing,
                    sync_framing: *sync_framing,
                }
            },
            Avp::AssignedTunnelId(id) => AvpModel::AssignedTunnelId(*id),
            Avp::Challenge(challenge) => AvpModel::Challenge(challenge@),
            Avp::ChallengeResponse(digest) => AvpModel::ChallengeResponse(digest@),
            Avp::Unknown { tag, raw } => AvpModel::Unknown { tag: *tag, raw: raw@ },
        }
    }
}

/// Whether `tag` is an attribute type that this library interprets.
pub open spec fn is_known_tag(tag: u16) -> bool {
    tag == TAG_MESSAGE_TYPE || tag == TAG_PROTOCOL_VERSION || tag == TAG_FRAMING_CAPABILITIES
        || tag == TAG_HOST_NAME || tag == TAG_ASSIGNED_TUNNEL_ID || tag == TAG_CHALLENGE || tag
        == TAG_CHALLENGE_RESPONSE
}

/// The last byte of a framing-capabilities value: bit 6 says that
/// asynchronous framing is supported, bit 7 that synchronous framing is.
pub open spec fn framing_byte(async_framing: bool, sync_framing: bool) -> u8 {
    ((if async_framing { 64int } else { 0int }) + (if sync_framing { 128int } else { 0int })) as u8
}

/// The six header bytes of a record of `len` bytes in all with attribute
/// type `tag`. The mandatory bit is set, the hidden bit is clear.
pub open spec fn avp_header(len: int, tag: u16) -> Seq<u8> {
    seq![((len / 256) * 64 + 1) as u8, (len % 256) as u8, 0u8, 0u8] + be16(tag)
}

impl AvpModel {
    /// The attribute type under which the record travels.
    pub open spec fn tag(self) -> u16 {
        match self {
            AvpModel::MessageType(_) => TAG_MESSAGE_TYPE,
            AvpModel::ProtocolVersion { .. } => TAG_PROTOCOL_VERSION,
            AvpModel::HostName(_) => TAG_HOST_NAME,
            AvpModel::FramingCapabilities { .. } => TAG_FRAMING_CAPABILITIES,
            AvpModel::AssignedTunnelId(_) => TAG_ASSIGNED_TUNNEL_ID,
            AvpModel::Challenge(_) => TAG_CHALLENGE,
            AvpModel::ChallengeResponse(_) => TAG_CHALLENGE_RESPONSE,
            AvpModel::Unknown { tag, .. } => tag,
        }
    }

    /// The value bytes that follow the header.
    pub open spec fn value(self) -> Seq<u8> {
        match self {
            AvpModel::MessageType(t) => be16(t.spec_code()),
            AvpModel::ProtocolVersion { major, minor } => seq![major, minor],
            AvpModel::HostName(name) => name,
            AvpModel::FramingCapabilities { async_framing, sync_framing } => seq![
                0u8,
                0u8,
                0u8,
                framing_byte(async_framing, sync_framing),
            ],
            AvpModel::AssignedTunnelId(id) => be16(id),
            AvpModel::Challenge(challenge) => challenge,
            AvpModel::ChallengeResponse(digest) => digest,
            AvpModel::Unknown { raw, .. } => raw,
        }
    }

    /// Whether the record can travel: its value fits the ten-bit length
    /// field, a challenge response has its sixteen bytes, and an
    /// uninterpreted record does not carry an interpreted attribute type.
    pub open spec fn wf(self) -> bool {
        &&& self.value().len() <= MAX_VALUE_LEN
        &&& self matches AvpModel::ChallengeResponse(digest) ==> digest.len() == 16
        &&& self matches AvpModel::Unknown { tag, .. } ==> !is_known_tag(tag)
    }

    /// The number of bytes the record takes on the wire.
    pub open spec fn encoded_len(self) -> int {
        AVP_HEADER_LEN + self.value().len()
    }

    /// The record on the wire.
    pub open spec fn encoding(self) -> Seq<u8> {
        avp_header(self.encoded_len(), self.tag()) + self.value()
    }
}

/// The error of the codec: the bytes do not hold a record of the shape that
/// their header or attribute type calls for.
#[derive(Clone, Copy, Debug, PartialEq, Eq, Structural)]
pub struct MalformedAvp;

/// The length that the first two header bytes declare.
pub open spec fn declared_len(b0: u8, b1: u8) -> int {
    (b0 as int / 64) * 256 + b1 as int
}

/// Whether `bytes` starts with a header that this library accepts: six
/// bytes are there, the declared length covers the header and lies within
/// `bytes`, the hidden bit is clear and the vendor id is zero. The
/// mandatory bit and the reserved bits are not looked at.
pub open spec fn header_ok(bytes: Seq<u8>) -> bool {
    &&& bytes.len() >= AVP_HEADER_LEN
    &&& AVP_HEADER_LEN <= declared_len(bytes[0], bytes[1]) <= bytes.len()
    &&& (bytes[0] as int / 2) % 2 == 0
    &&& bytes[2] == 0
    &&& bytes[3] == 0
}

/// The record that a value of attribute type `tag` stands for. A value of
/// an interpreted type must have exactly the size that the type fixes, and
/// a message type must carry a code that is in use.
pub open spec fn parse_value(tag: u16, value: Seq<u8>) -> Option<AvpModel> {
    if tag == TAG_MESSAGE_TYPE {
        if value.len() == 2 {
            match MessageType::spec_from_code(from_be16(value[0], value[1])) {
                Some(t) => Some(AvpModel::MessageType(t)),
                None => None,
            }
        } else {
            None
        }
    } else if tag == TAG_PROTOCOL_VERSION {
        if value.len() == 2 {
            Some(AvpModel::ProtocolVersion { major: value[0], minor: value[1] })
        } else {
            None
        }
    } else if tag == TAG_FRAMING_CAPABILITIES {
        if value.len() == 4 {
            Some(
                AvpModel::FramingCapabilities {
                    async_framing: (value[3] as int / 64) % 2 == 1,
                    sync_framing: value[3] as int / 128 == 1,
                },
            )
        } else {
            None
        }
    } else if tag == TAG_HOST_NAME {
        Some(AvpModel::HostName(value))
    } else if tag == TAG_ASSIGNED_TUNNEL_ID {
        if value.len() == 2 {
            Some(AvpModel::AssignedTunnelId(from_be16(value[0], value[1])))
        } else {
            None
        }
    } else if tag == TAG_CHALLENGE {
        Some(AvpModel::Challenge(value))
    } else if tag == TAG_CHALLENGE_RESPONSE {
        if value.len() == 16 {
            Some(AvpModel::ChallengeResponse(value))
        } else {
            None
        }
    } else {
        Some(AvpModel::Unknown { tag, raw: value })
    }
}

/// The record at the start of `bytes` and the number of bytes it takes, or
/// `None` where there is no well-formed record.
pub open spec fn decode_spec(bytes: Seq<u8>) -> Option<(AvpModel, int)> {
    if header_ok(bytes) {
        let len = declared_len(bytes[0], bytes[1]);
        let tag = from_be16(bytes[4], bytes[5]);
        match parse_value(tag, bytes.subrange(AVP_HEADER_LEN as int, len)) {
            Some(avp) => Some((avp, len)),
            None => None,
        }
    } else {
        None
    }
}

/// Copies the sixteen bytes of `bytes` into an array.
fn digest_from_slice(bytes: &[u8]) -> (digest: [u8; 16])
    requires
        bytes@.len() == 16,
    ensures
        digest@ == bytes@,
{
    let digest: [u8; 16] = [
        bytes[0],
        bytes[1],
        bytes[2],
        bytes[3],
        bytes[4],
        bytes[5],
        bytes[6],
        bytes[7],
        bytes[8],
        bytes[9],
        bytes[10],
        bytes[11],
        bytes[12],
        bytes[13],
        bytes[14],
        bytes[15],
    ];
    assert(digest@ =~= bytes@);
    digest
}

impl Avp {
    /// Whether the record can travel, as [`AvpModel::wf`] defines it.
    pub fn is_valid(&self) -> (ok: bool)
        ensures
            ok == self@.wf(),
    {
        match self {
            Avp::HostName(name) => name.len() <= MAX_VALUE_LEN,
            Avp::Challenge(challenge) => challenge.len() <= MAX_VALUE_LEN,
            Avp::Unknown { tag, raw } => {
                raw.len() <= MAX_VALUE_LEN && !(*tag == TAG_MESSAGE_TYPE || *tag
                    == TAG_PROTOCOL_VERSION || *tag == TAG_FRAMING_CAPABILITIES || *tag
                    == TAG_HOST_NAME || *tag == TAG_ASSIGNED_TUNNEL_ID || *tag == TAG_CHALLENGE
                    || *tag == TAG_CHALLENGE_RESPONSE)
            },
            _ => true,
        }
    }

    /// The attribute type under which the record travels.
    pub fn tag(&self) -> (tag: u16)
        ensures
            tag == self@.tag(),
    {
        match self {
            Avp::MessageType(_) => TAG_MESSAGE_TYPE,
            Avp::ProtocolVersion { .. } => TAG_PROTOCOL_VERSION,
            Avp::HostName(_) => TAG_HOST_NAME,
            Avp::FramingCapabilities { .. } => TAG_FRAMING_CAPABILITIES,
            Avp::AssignedTunnelId(_) => TAG_ASSIGNED_TUNNEL_ID,
            Avp::Challenge(_) => TAG_CHALLENGE,
            Avp::ChallengeResponse(_) => TAG_CHALLENGE_RESPONSE,
            Avp::Unknown { tag, .. } => *tag,
        }
    }

    /// The number of bytes the record takes on the wire.
    pub fn encoded_len(&self) -> (len: usize)
        requires
            self@.wf(),
        ensures
            len == self@.encoded_len(),
            AVP_HEADER_LEN <= len <= MAX_AVP_LEN,
    {
        let value_len: usize = match self {
            Avp::MessageType(_) => 2,
            Avp::ProtocolVersion { .. } => 2,
            Avp::HostName(name) => name.len(),
            Avp::FramingCapabilities { .. } => 4,
            Avp::AssignedTunnelId(_) => 2,
            Avp::Challenge(challenge) => challenge.len(),
            Avp::ChallengeResponse(_) => 16,
            Avp::Unknown { raw, .. } => raw.len(),
        };
        AVP_HEADER_LEN + value_len
    }

    /// Appends the record to `out`.
    pub fn write(&self, out: &mut Vec<u8>)
        requires
            self@.wf(),
        ensures
            final(out)@ == old(out)@ + self@.encoding(),
    {
        let len: usize = self.encoded_len();
        out.push(((len / 256) * 64 + 1) as u8);
        out.push((len % 256) as u8);
        out.push(0u8);
        out.push(0u8);
        push_be16(out, self.tag());
        assert(out@ =~= old(out)@ + avp_header(len as int, self@.tag()));
        match self {
            Avp::MessageType(t) => {
                push_be16(out, t.code());
            },
            Avp::ProtocolVersion { major, minor } => {
                out.push(*major);
                out.push(*minor);
            },
            Avp::HostName(name) => {
                out.extend_from_slice(name.as_slice());
            },
            Avp::FramingCapabilities { async_framing, sync_framing } => {
                let low: u8 = if *async_framing { 64 } else { 0 };
                let high: u8 = if *sync_framing { 128 } else { 0 };
                out.push(0u8);
                out.push(0u8);
                out.push(0u8);
                out.push(low + high);
            },
            Avp::AssignedTunnelId(id) => {
                push_be16(out, *id);
            },
            Avp::Challenge(challenge) => {
                out.extend_from_slice(challenge.as_slice());
            },
            Avp::ChallengeResponse(digest) => {
                out.extend_from_slice(digest.as_slice());
            },
            Avp::Unknown { raw, .. } => {
                out.extend_from_slice(raw.as_slice());
            },
        }
        assert(out@ =~= old(out)@ + self@.encoding());
    }

    /// Encodes the record. This cannot fail: the size of the result follows
    /// from the value alone.
    pub fn encode(&self) -> (bytes: Vec<u8>)
        requires
            self@.wf(),
        ensures
            bytes@ == self@.encoding(),
    {
        let mut bytes: Vec<u8> = Vec::new();
        self.write(&mut bytes);
        assert(bytes@ =~= self@.encoding());
        bytes
    }

    /// Decodes the record at the start of `bytes` and says how many bytes it
    /// took. Bytes after the record are not looked at. An attribute type
    /// that this library does not interpret gives [`Avp::Unknown`], not an
    /// error.
    pub fn decode(bytes: &[u8]) -> (r: Result<(Avp, usize), MalformedAvp>)
        ensures
            match r {
                Ok((avp, consumed)) => {
                    &&& decode_spec(bytes@) == Some((avp@, consumed as int))
                    &&& avp@.wf()
                    &&& consumed == avp@.encoded_len()
                    &&& consumed <= bytes@.len()
                },
                Err(_) => decode_spec(bytes@) is None,
            },
    {
        proof {
            lemma_decoded_is_wf(bytes@);
        }
        if bytes.len() < AVP_HEADER_LEN {
            return Err(MalformedAvp);
        }
        let b0: u8 = bytes[0];
        let len: usize = (b0 as usize / 64) * 256 + bytes[1] as usize;
        if len < AVP_HEADER_LEN || len > bytes.len() {
            return Err(MalformedAvp);
        }
        if (b0 / 2) % 2 != 0 || bytes[2] != 0 || bytes[3] != 0 {
            return Err(MalformedAvp);
        }
        let tag: u16 = read_be16(bytes, 4);
        let value: &[u8] = slice_subrange(bytes, AVP_HEADER_LEN, len);
        let avp: Avp = if tag == TAG_MESSAGE_TYPE {
            if value.len() != 2 {
                return Err(MalformedAvp);
            }
            match MessageType::from_code(read_be16(value, 0)) {
                Some(t) => Avp::MessageType(t),
                None => {
                    return Err(MalformedAvp);
                },
            }
        } else if tag == TAG_PROTOCOL_VERSION {
            if value.len() != 2 {
                return Err(MalformedAvp);
            }
            Avp::ProtocolVersion { major: value[0], minor: value[1] }
        } else if tag == TAG_FRAMING_CAPABILITIES {
            if value.len() != 4 {
                return Err(MalformedAvp);
            }
            let flags: u8 = value[3];
            Avp::FramingCapabilities {
                async_framing: (flags / 64) % 2 == 1,
                sync_framing: flags / 128 == 1,
            }
        } else if tag == TAG_HOST_NAME {
            Avp::HostName(slice_to_vec(value))
        } else if tag == TAG_ASSIGNED_TUNNEL_ID {
            if value.len() != 2 {
                return Err(MalformedAvp);
            }
            Avp::AssignedTunnelId(read_be16(value, 0))
        } else if tag == TAG_CHALLENGE {
            Avp::Challenge(slice_to_vec(value))
        } else if tag == TAG_CHALLENGE_RESPONSE {
            if value.len() != 16 {
                return Err(MalformedAvp);
            }
            Avp::ChallengeResponse(digest_from_slice(value))
        } else {
            Avp::Unknown { tag, raw: slice_to_vec(value) }
        };
        Ok((avp, len))
    }
}

/// What decodes is well formed, lies within the bytes it was read from, and
/// takes on the wire exactly the bytes that were consumed.
pub proof fn lemma_decoded_is_wf(bytes: Seq<u8>)
    ensures
        decode_spec(bytes) matches Some((avp, consumed)) ==> {
            &&& avp.wf()
            &&& consumed == avp.encoded_len()
            &&& AVP_HEADER_LEN <= consumed <= bytes.len()
            &&& consumed <= MAX_AVP_LEN
        },
{
    if header_ok(bytes) {
        let len = declared_len(bytes[0], bytes[1]);
        let tag = from_be16(bytes[4], bytes[5]);
        let value = bytes.subrange(AVP_HEADER_LEN as int, len);
        assert(value.len() == len - AVP_HEADER_LEN);
        if tag == TAG_MESSAGE_TYPE && value.len() == 2 {
            MessageType::lemma_from_code_round_trip(from_be16(value[0], value[1]));
        }
    }
}

/// Round trip: a well-formed record decodes from its own encoding to
/// itself, whatever bytes follow it, and the decoder consumes exactly the
/// encoding.
pub proof fn lemma_avp_round_trip(avp: AvpModel, rest: Seq<u8>)
    requires
        avp.wf(),
    ensures
        decode_spec(avp.encoding() + rest) == Some((avp, avp.encoded_len())),
        avp.encoding().len() == avp.encoded_len(),
{
    let len = avp.encoded_len();
    let bytes = avp.encoding() + rest;
    let header = avp_header(len, avp.tag());
    assert(header.len() == 6);
    assert(bytes.len() == len + rest.len());
    assert forall|i: int| 0 <= i < 6 implies bytes[i] == header[i] by {}
    lemma_be16_round_trip(avp.tag());
    assert(declared_len(bytes[0], bytes[1]) == len);
    assert(header_ok(bytes));
    assert(from_be16(bytes[4], bytes[5]) == avp.tag());
    let value = bytes.subrange(AVP_HEADER_LEN as int, len);
    assert(value =~= avp.value());
    match avp {
        AvpModel::MessageType(t) => {
            lemma_be16_round_trip(t.spec_code());
            t.lemma_code_round_trip();
        },
        AvpModel::AssignedTunnelId(id) => {
            lemma_be16_round_trip(id);
        },
        _ => {},
    }
}

/// Truncation: no proper prefix of a record's encoding decodes.
pub proof fn lemma_avp_prefix_fails(avp: AvpModel, kept: int)
    requires
        avp.wf(),
        0 <= kept < avp.encoded_len(),
    ensures
        decode_spec(avp.encoding().subrange(0, kept)) is None,
{
    let len = avp.encoded_len();
    let prefix = avp.encoding().subrange(0, kept);
    if kept >= 6 {
        let header = avp_header(len, avp.tag());
        assert(prefix[0] == header[0]);
        assert(prefix[1] == header[1]);
        assert(declared_len(prefix[0], prefix[1]) == len);
    }
}

} // verus!
