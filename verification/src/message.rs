//! The message envelope: a control message with its header and its ordered
//! records, or a data message with an opaque payload.
//!
//! A message starts with a two-byte flags word. Bit 0 of the first byte
//! tells a control message from a data message; the upper half of the
//! second byte is the protocol version. A control message goes on with
//!
//! ```text
//! bytes 2..3    length of the whole message, flags word included
//! bytes 4..5    tunnel id
//! bytes 6..7    session id
//! bytes 8..9    send sequence number
//! bytes 10..11  receive sequence number
//! bytes 12..    records, one after another, up to the declared length
//! ```
//!
//! with every integer big-endian. In a data message all that follows the
//! flags word is payload.

use vstd::prelude::*;
use vstd::slice::{slice_subrange, slice_to_vec};
use crate::avp::{
    Avp,
    AvpModel,
    decode_spec,
    lemma_avp_round_trip,
    lemma_decoded_is_wf,
    AVP_HEADER_LEN,
};
use crate::bytes::{be16, from_be16, push_be16, read_be16, lemma_be16_round_trip};

verus! {

/// Bytes taken by the header of a control message.
pub const CONTROL_HEADER_LEN: usize = 12;

/// Bytes taken by the flags word.
pub const FLAGS_LEN: usize = 2;

/// The largest length that the header of a control message can declare.
pub const MAX_MESSAGE_LEN: usize = 65535;

/// The protocol version that every message carries.
pub const PROTOCOL_VERSION: u8 = 2;

/// First flags byte of a control message: the control bit, the length bit
/// and the sequence bit.
pub const CONTROL_FLAGS: u8 = 0x13;

/// First flags byte of a data message as this library writes it.
pub const DATA_FLAGS: u8 = 0x00;

/// Second flags byte: the protocol version in its upper half.
pub const VERSION_FLAGS: u8 = 0x20;

/// A control message. `length` is the length that the header declared when
/// the message was read; it is not looked at when the message is written.
#[derive(Clone, Debug, PartialEq, Eq)]
pub struct ControlMessage {
    pub length: u16,
    pub tunnel_id: u16,
    pub session_id: u16,
    pub ns: u16,
    pub nr: u16,
    pub avps: Vec<Avp>,
}

/// A message of either kind.
#[derive(Clone, Debug, PartialEq, Eq)]
pub enum Message {
    Control(ControlMessage),
    Data(Vec<u8>),
}

/// Why a byte string is no message.
#[derive(Clone, Copy, Debug, PartialEq, Eq, Structural)]
pub enum DecodeError {
    /// Fewer bytes are there than the header needs or declares.
    Truncated,
    /// The flags word stands for no kind of message that is read here.
    UnknownKind,
    /// The records of a control message do not decode.
    InvalidAvp,
}

/// The mathematical value of a [`ControlMessage`].
pub struct ControlModel {
    pub length: u16,
    pub tunnel_id: u16,
    pub session_id: u16,
    pub ns: u16,
    pub nr: u16,
    pub avps: Seq<AvpModel>,
}

/// The mathematical value of a [`Message`].
pub enum MessageModel {
    Control(ControlModel),
    Data(Seq<u8>),
}

/// The values of a sequence of records, in order.
pub open spec fn avps_view(avps: Seq<Avp>) -> Seq<AvpModel> {
    avps.map_values(|avp: Avp| avp@)
}

impl View for ControlMessage {
    type V = ControlModel;

    open spec fn view(&self) -> ControlModel {
        ControlModel {
            length: self.length,
            tunnel_id: self.tunnel_id,
            session_id: self.session_id,
            ns: self.ns,
            nr: self.nr,
            avps: avps_view(self.avps@),
        }
    }
}

impl View for Message {
    type V = MessageModel;

    open spec fn view(&self) -> MessageModel {
        match self {
            Message::Control(control) => MessageModel::Control(control@),
            Message::Data(payload) => MessageModel::Data(payload@),
        }
    }
}

/// The records of `avps` on the wire, one after another.
pub open spec fn encode_avps(avps: Seq<AvpModel>) -> Seq<u8>
    decreases avps.len(),
{
    if avps.len() == 0 {
        Seq::empty()
    } else {
        avps[0].encoding() + encode_avps(avps.drop_first())
    }
}

/// Whether every record of `avps` is well formed.
pub open spec fn all_wf(avps: Seq<AvpModel>) -> bool {
    forall|i: int| 0 <= i < avps.len() ==> (#[trigger] avps[i]).wf()
}

/// `prefix` put in front of what `rest` holds, if it holds anything.
pub open spec fn prepend(prefix: Seq<AvpModel>, rest: Option<Seq<AvpModel>>) -> Option<
    Seq<AvpModel>,
> {
    match rest {
        Some(tail) => Some(prefix + tail),
        None => None,
    }
}

/// The records that `bytes` holds from its first byte to its last, or
/// `None` where some byte belongs to no well-formed record.
pub open spec fn parse_avps(bytes: Seq<u8>) -> Option<Seq<AvpModel>>
    decreases bytes.len(),
{
    if bytes.len() == 0 {
        Some(Seq::empty())
    } else {
        match decode_spec(bytes) {
            Some((avp, consumed)) => {
                if AVP_HEADER_LEN <= consumed <= bytes.len() {
                    prepend(seq![avp], parse_avps(bytes.subrange(consumed, bytes.len() as int)))
                } else {
                    None
                }
            },
            None => None,
        }
    }
}

impl ControlModel {
    /// The number of bytes the message takes on the wire.
    pub open spec fn encoded_len(self) -> int {
        CONTROL_HEADER_LEN + encode_avps(self.avps).len()
    }

    /// Whether the message can be written: its records are well formed and
    /// its length fits the sixteen-bit length field.
    pub open spec fn wf(self) -> bool {
        &&& all_wf(self.avps)
        &&& self.encoded_len() <= MAX_MESSAGE_LEN
    }

    /// The twelve header bytes. The length written is the true length of
    /// the encoding, whatever the field `length` holds.
    pub open spec fn header(self) -> Seq<u8> {
        seq![CONTROL_FLAGS, VERSION_FLAGS] + be16(self.encoded_len() as u16) + be16(self.tunnel_id)
            + be16(self.session_id) + be16(self.ns) + be16(self.nr)
    }

    /// The message on the wire.
    pub open spec fn encoding(self) -> Seq<u8> {
        self.header() + encode_avps(self.avps)
    }

    /// The message with its field `length` set to the true length of its
    /// encoding.
    pub open spec fn with_true_length(self) -> ControlModel {
        ControlModel { length: self.encoded_len() as u16, ..self }
    }
}

impl MessageModel {
    /// Whether the message can be written.
    pub open spec fn wf(self) -> bool {
        match self {
            MessageModel::Control(control) => control.wf(),
            MessageModel::Data(payload) => FLAGS_LEN + payload.len() <= usize::MAX,
        }
    }

    /// The message on the wire.
    pub open spec fn encoding(self) -> Seq<u8> {
        match self {
            MessageModel::Control(control) => control.encoding(),
            MessageModel::Data(payload) => seq![DATA_FLAGS, VERSION_FLAGS] + payload,
        }
    }

    /// The message as a reader of its encoding sees it: a control message
    /// with its field `length` set to the true length, a data message as
    /// it is.
    pub open spec fn with_true_length(self) -> MessageModel {
        match self {
            MessageModel::Control(control) => MessageModel::Control(control.with_true_length()),
            MessageModel::Data(payload) => MessageModel::Data(payload),
        }
    }
}

/// Whether the flags word carries the protocol version of this library.
pub open spec fn version_ok(bytes: Seq<u8>) -> bool {
    bytes[1] as int / 16 == PROTOCOL_VERSION
}

/// Whether the control bit of the flags word is set.
pub open spec fn is_control(bytes: Seq<u8>) -> bool {
    bytes[0] as int % 2 == 1
}

/// Whether the flags word announces the length field and the sequence
/// numbers, both of which a control message must have.
pub open spec fn control_fields_present(bytes: Seq<u8>) -> bool {
    (bytes[0] as int / 2) % 2 == 1 && (bytes[0] as int / 16) % 2 == 1
}

/// What `bytes` decodes to.
///
/// Fewer than two bytes are `Truncated`. A flags word with another version,
/// or with the control bit but without the length or sequence bit, is
/// `UnknownKind`. With the control bit clear the message is a data message
/// and all that follows the flags word is its payload. A control message
/// is `Truncated` where its twelve header bytes are not all there, or where
/// the declared length is under twelve or over the number of bytes at hand.
/// Its records are read from byte twelve up to the declared length, and
/// bytes beyond that are not looked at; where the records do not decode the
/// message is `InvalidAvp`.
pub open spec fn try_read_spec(bytes: Seq<u8>) -> Result<MessageModel, DecodeError> {
    if bytes.len() < FLAGS_LEN {
        Err(DecodeError::Truncated)
    } else if !version_ok(bytes) {
        Err(DecodeError::UnknownKind)
    } else if !is_control(bytes) {
        Ok(MessageModel::Data(bytes.subrange(FLAGS_LEN as int, bytes.len() as int)))
    } else if !control_fields_present(bytes) {
        Err(DecodeError::UnknownKind)
    } else if bytes.len() < CONTROL_HEADER_LEN {
        Err(DecodeError::Truncated)
    } else {
        let length = from_be16(bytes[2], bytes[3]);
        if length < CONTROL_HEADER_LEN || length > bytes.len() {
            Err(DecodeError::Truncated)
        } else {
            match parse_avps(bytes.subrange(CONTROL_HEADER_LEN as int, length as int)) {
                Some(avps) => Ok(
                    MessageModel::Control(
                        ControlModel {
                            length,
                            tunnel_id: from_be16(bytes[4], bytes[5]),
                            session_id: from_be16(bytes[6], bytes[7]),
                            ns: from_be16(bytes[8], bytes[9]),
                            nr: from_be16(bytes[10], bytes[11]),
                            avps,
                        },
                    ),
                ),
                None => Err(DecodeError::InvalidAvp),
            }
        }
    }
}

/// The encoding of two sequences of records put together is the two
/// encodings put together.
pub proof fn lemma_encode_avps_concat(front: Seq<AvpModel>, back: Seq<AvpModel>)
    ensures
        encode_avps(front + back) == encode_avps(front) + encode_avps(back),
    decreases front.len(),
{
    if front.len() == 0 {
        assert(front + back =~= back);
        assert(encode_avps(front) + encode_avps(back) =~= encode_avps(back));
    } else {
        lemma_encode_avps_concat(front.drop_first(), back);
        assert((front + back).drop_first() =~= front.drop_first() + back);
        assert(encode_avps(front + back) =~= encode_avps(front) + encode_avps(back));
    }
}

/// The encoding of one record alone.
pub proof fn lemma_encode_avps_single(avp: AvpModel)
    ensures
        encode_avps(seq![avp]) == avp.encoding(),
{
    let single = seq![avp];
    assert(single.drop_first() =~= Seq::<AvpModel>::empty());
    assert(encode_avps(Seq::<AvpModel>::empty()) =~= Seq::<u8>::empty());
    assert(encode_avps(single) =~= single[0].encoding() + encode_avps(single.drop_first()));
    assert(encode_avps(single) =~= avp.encoding());
}

/// The encoding of one more record at the end.
pub proof fn lemma_encode_avps_push(avps: Seq<AvpModel>, avp: AvpModel)
    ensures
        encode_avps(avps.push(avp)) == encode_avps(avps) + avp.encoding(),
{
    lemma_encode_avps_concat(avps, seq![avp]);
    lemma_encode_avps_single(avp);
    assert(avps.push(avp) =~= avps + seq![avp]);
}

/// One step of reading records: where a record decodes at the start of
/// `bytes`, the records of `bytes` are that record and then the records of
/// what follows it.
pub proof fn lemma_parse_avps_step(bytes: Seq<u8>, avp: AvpModel, consumed: int)
    requires
        decode_spec(bytes) == Some((avp, consumed)),
    ensures
        AVP_HEADER_LEN <= consumed <= bytes.len(),
        parse_avps(bytes) == prepend(
            seq![avp],
            parse_avps(bytes.subrange(consumed, bytes.len() as int)),
        ),
{
    lemma_decoded_is_wf(bytes);
}

/// Well-formed records, written one after another, are read back as they
/// were.
pub proof fn lemma_parse_avps_round_trip(avps: Seq<AvpModel>)
    requires
        all_wf(avps),
    ensures
        parse_avps(encode_avps(avps)) == Some(avps),
    decreases avps.len(),
{
    if avps.len() == 0 {
        assert(encode_avps(avps).len() == 0);
    } else {
        let first = avps[0];
        let rest = avps.drop_first();
        let tail = encode_avps(rest);
        let bytes = first.encoding() + tail;
        assert(encode_avps(avps) == bytes);
        assert(first.wf());
        assert forall|i: int| 0 <= i < rest.len() implies (#[trigger] rest[i]).wf() by {
            assert(rest[i] == avps[i + 1]);
        }
        lemma_avp_round_trip(first, tail);
        lemma_parse_avps_round_trip(rest);
        lemma_parse_avps_step(bytes, first, first.encoded_len());
        assert(bytes.subrange(first.encoded_len(), bytes.len() as int) =~= tail);
        assert(seq![first] + rest =~= avps);
    }
}

/// What is read from a byte string is well formed, and its encoding is as
/// long as the byte string.
pub proof fn lemma_parsed_avps_wf(bytes: Seq<u8>)
    ensures
        parse_avps(bytes) matches Some(avps) ==> all_wf(avps) && encode_avps(avps).len()
            == bytes.len(),
    decreases bytes.len(),
{
    if bytes.len() > 0 {
        lemma_decoded_is_wf(bytes);
        if let Some((avp, consumed)) = decode_spec(bytes) {
            let tail = bytes.subrange(consumed, bytes.len() as int);
            lemma_parsed_avps_wf(tail);
            if let Some(rest) = parse_avps(tail) {
                let avps = seq![avp] + rest;
                assert(avps.drop_first() =~= rest);
                assert(avps[0] == avp);
                assert forall|i: int| 0 <= i < avps.len() implies (#[trigger] avps[i]).wf() by {
                    if i > 0 {
                        assert(avps[i] == rest[i - 1]);
                    }
                }
            }
        }
    }
}

/// Round trip of a control message: its encoding, whatever bytes follow
/// it, reads back as the same tunnel id, session id, sequence numbers and
/// records, with the field `length` equal to the number of bytes of the
/// encoding.
pub proof fn lemma_control_round_trip(control: ControlModel, padding: Seq<u8>)
    requires
        control.wf(),
    ensures
        control.encoding().len() == control.encoded_len(),
        try_read_spec(control.encoding() + padding) == Ok::<MessageModel, DecodeError>(
            MessageModel::Control(control.with_true_length()),
        ),
{
    let len = control.encoded_len();
    let header = control.header();
    let records = encode_avps(control.avps);
    let bytes = control.encoding() + padding;
    assert(header.len() == 12);
    assert forall|i: int| 0 <= i < 12 implies bytes[i] == header[i] by {}
    lemma_be16_round_trip(len as u16);
    lemma_be16_round_trip(control.tunnel_id);
    lemma_be16_round_trip(control.session_id);
    lemma_be16_round_trip(control.ns);
    lemma_be16_round_trip(control.nr);
    assert(from_be16(bytes[2], bytes[3]) == len);
    assert(from_be16(bytes[4], bytes[5]) == control.tunnel_id);
    assert(from_be16(bytes[6], bytes[7]) == control.session_id);
    assert(from_be16(bytes[8], bytes[9]) == control.ns);
    assert(from_be16(bytes[10], bytes[11]) == control.nr);
    assert(bytes.subrange(CONTROL_HEADER_LEN as int, len) =~= records);
    lemma_parse_avps_round_trip(control.avps);
}

/// Round trip: a well-formed message reads back from its own encoding as
/// itself, a control message with its field `length` set to the true
/// length.
pub proof fn lemma_message_round_trip(message: MessageModel)
    requires
        message.wf(),
    ensures
        try_read_spec(message.encoding()) == Ok::<MessageModel, DecodeError>(
            message.with_true_length(),
        ),
{
    match message {
        MessageModel::Control(control) => {
            lemma_control_round_trip(control, Seq::empty());
            assert(control.encoding() + Seq::<u8>::empty() =~= control.encoding());
        },
        MessageModel::Data(payload) => {
            let bytes = message.encoding();
            assert(bytes.subrange(FLAGS_LEN as int, bytes.len() as int) =~= payload);
        },
    }
}

/// Truncation: a control message cut short anywhere before its declared
/// length is refused as truncated.
pub proof fn lemma_truncated_prefix(control: ControlModel, kept: int)
    requires
        control.wf(),
        0 <= kept < control.encoded_len(),
    ensures
        try_read_spec(control.encoding().subrange(0, kept)) == Err::<MessageModel, DecodeError>(
            DecodeError::Truncated,
        ),
{
    let len = control.encoded_len();
    let header = control.header();
    let prefix = control.encoding().subrange(0, kept);
    assert(header.len() == 12);
    if kept >= 2 {
        assert(prefix[0] == header[0]);
        assert(prefix[1] == header[1]);
    }
    if kept >= 12 {
        assert(prefix[2] == header[2]);
        assert(prefix[3] == header[3]);
        lemma_be16_round_trip(len as u16);
        assert(from_be16(prefix[2], prefix[3]) == len);
    }
}

/// Whatever the bytes, a control header that declares more bytes than are
/// at hand is refused as truncated.
pub proof fn lemma_short_of_declared_length(bytes: Seq<u8>)
    requires
        bytes.len() >= CONTROL_HEADER_LEN,
        version_ok(bytes),
        is_control(bytes),
        control_fields_present(bytes),
        from_be16(bytes[2], bytes[3]) > bytes.len(),
    ensures
        try_read_spec(bytes) == Err::<MessageModel, DecodeError>(DecodeError::Truncated),
{
}

/// What reads from a byte string can be written again.
pub proof fn lemma_read_is_wf(bytes: Seq<u8>)
    requires
        bytes.len() <= usize::MAX,
    ensures
        try_read_spec(bytes) matches Ok(message) ==> message.wf(),
{
    if bytes.len() >= CONTROL_HEADER_LEN {
        let length = from_be16(bytes[2], bytes[3]);
        if CONTROL_HEADER_LEN <= length <= bytes.len() {
            lemma_parsed_avps_wf(bytes.subrange(CONTROL_HEADER_LEN as int, length as int));
        }
    }
}

impl ControlMessage {
    /// The number of bytes the message takes on the wire, or `None` where
    /// it cannot be written.
    pub fn checked_len(&self) -> (r: Option<usize>)
        ensures
            match r {
                Some(len) => self@.wf() && len == self@.encoded_len(),
                None => !self@.wf(),
            },
    {
        let ghost avps = avps_view(self.avps@);
        let mut total: usize = CONTROL_HEADER_LEN;
        let mut i: usize = 0;
        proof {
            assert(avps.take(0) =~= Seq::<AvpModel>::empty());
        }
        while i < self.avps.len()
            invariant
                avps == avps_view(self.avps@),
                i <= self.avps.len(),
                all_wf(avps.take(i as int)),
                total == CONTROL_HEADER_LEN + encode_avps(avps.take(i as int)).len(),
                total <= MAX_MESSAGE_LEN,
            decreases self.avps.len() - i,
        {
            let avp = &self.avps[i];
            assert(avps[i as int] == avp@);
            if !avp.is_valid() {
                return None;
            }
            let len: usize = avp.encoded_len();
            proof {
                let front = avps.take(i as int);
                let next = avps.take(i + 1);
                let back = avps.skip(i + 1);
                assert(next =~= front.push(avp@));
                lemma_encode_avps_push(front, avp@);
                lemma_avp_round_trip(avp@, Seq::empty());
                assert(encode_avps(next).len() == total - CONTROL_HEADER_LEN + len);
                assert(avps =~= next + back);
                lemma_encode_avps_concat(next, back);
                assert forall|j: int| 0 <= j < next.len() implies (#[trigger] next[j]).wf() by {
                    if j < i {
                        assert(next[j] == front[j]);
                    }
                }
            }
            if total + len > MAX_MESSAGE_LEN {
                return None;
            }
            total = total + len;
            i = i + 1;
        }
        proof {
            assert(avps.take(i as int) =~= avps);
        }
        Some(total)
    }
}

impl Message {
    /// The number of bytes the message takes on the wire, or `None` where
    /// it cannot be written.
    pub fn checked_len(&self) -> (r: Option<usize>)
        ensures
            match r {
                Some(len) => self@.wf() && len == self@.encoding().len(),
                None => !self@.wf(),
            },
    {
        match self {
            Message::Control(control) => {
                let r = control.checked_len();
                proof {
                    if r is Some {
                        lemma_control_round_trip(control@, Seq::empty());
                    }
                }
                r
            },
            Message::Data(payload) => {
                if payload.len() > usize::MAX - FLAGS_LEN {
                    None
                } else {
                    Some(FLAGS_LEN + payload.len())
                }
            },
        }
    }

    /// Appends the message to `sink`. The length written into the header of
    /// a control message is computed from the records; the field `length`
    /// is not read.
    pub fn write(&self, sink: &mut Vec<u8>)
        requires
            self@.wf(),
        ensures
            final(sink)@ == old(sink)@ + self@.encoding(),
    {
        match self {
            Message::Data(payload) => {
                sink.push(DATA_FLAGS);
                sink.push(VERSION_FLAGS);
                sink.extend_from_slice(payload.as_slice());
                assert(sink@ =~= old(sink)@ + self@.encoding());
            },
            Message::Control(control) => {
                let ghost avps = avps_view(control.avps@);
                let len: usize = match control.checked_len() {
                    Some(len) => len,
                    None => 0,
                };
                sink.push(CONTROL_FLAGS);
                sink.push(VERSION_FLAGS);
                push_be16(sink, len as u16);
                push_be16(sink, control.tunnel_id);
                push_be16(sink, control.session_id);
                push_be16(sink, control.ns);
                push_be16(sink, control.nr);
                assert(sink@ =~= old(sink)@ + control@.header());
                let mut i: usize = 0;
                proof {
                    assert(avps.take(0) =~= Seq::<AvpModel>::empty());
                    assert(sink@ =~= old(sink)@ + control@.header() + encode_avps(avps.take(0)));
                }
                while i < control.avps.len()
                    invariant
                        avps == avps_view(control.avps@),
                        all_wf(avps),
                        i <= control.avps.len(),
                        sink@ == old(sink)@ + control@.header() + encode_avps(avps.take(i as int)),
                    decreases control.avps.len() - i,
                {
                    let avp = &control.avps[i];
                    assert(avps[i as int] == avp@);
                    avp.write(sink);
                    proof {
                        let front = avps.take(i as int);
                        assert(avps.take(i + 1) =~= front.push(avp@));
                        lemma_encode_avps_push(front, avp@);
                        assert(sink@ =~= old(sink)@ + control@.header() + encode_avps(
                            avps.take(i + 1),
                        ));
                    }
                    i = i + 1;
                }
                proof {
                    assert(avps.take(i as int) =~= avps);
                    assert(sink@ =~= old(sink)@ + self@.encoding());
                }
            },
        }
    }

    /// Encodes the message, or gives `None` where it cannot be written: a
    /// record is not well formed, or the message is longer than its length
    /// field can say.
    pub fn encode(&self) -> (r: Option<Vec<u8>>)
        ensures
            match r {
                Some(bytes) => self@.wf() && bytes@ == self@.encoding(),
                None => !self@.wf(),
            },
    {
        match self.checked_len() {
            Some(_) => {
                let mut bytes: Vec<u8> = Vec::new();
                self.write(&mut bytes);
                assert(bytes@ =~= self@.encoding());
                Some(bytes)
            },
            None => None,
        }
    }

    /// Decodes the message at the start of `bytes`, as [`try_read_spec`]
    /// defines it. Bytes beyond the declared length of a control message
    /// are not an error. What is returned can be written again.
    pub fn try_read(bytes: &[u8]) -> (r: Result<Message, DecodeError>)
        ensures
            match r {
                Ok(message) => try_read_spec(bytes@) == Ok::<MessageModel, DecodeError>(message@)
                    && message@.wf(),
                Err(e) => try_read_spec(bytes@) == Err::<MessageModel, DecodeError>(e),
            },
    {
        if bytes.len() < FLAGS_LEN {
            return Err(DecodeError::Truncated);
        }
        proof {
            lemma_read_is_wf(bytes@);
        }
        let flags: u8 = bytes[0];
        if bytes[1] / 16 != PROTOCOL_VERSION {
            return Err(DecodeError::UnknownKind);
        }
        if flags % 2 != 1 {
            let payload = slice_to_vec(slice_subrange(bytes, FLAGS_LEN, bytes.len()));
            return Ok(Message::Data(payload));
        }
        if (flags / 2) % 2 != 1 || (flags / 16) % 2 != 1 {
            return Err(DecodeError::UnknownKind);
        }
        if bytes.len() < CONTROL_HEADER_LEN {
            return Err(DecodeError::Truncated);
        }
        let length: u16 = read_be16(bytes, 2);
        let end: usize = length as usize;
        if end < CONTROL_HEADER_LEN || end > bytes.len() {
            return Err(DecodeError::Truncated);
        }
        let tunnel_id: u16 = read_be16(bytes, 4);
        let session_id: u16 = read_be16(bytes, 6);
        let ns: u16 = read_be16(bytes, 8);
        let nr: u16 = read_be16(bytes, 10);
        let ghost region = bytes@.subrange(CONTROL_HEADER_LEN as int, end as int);
        let mut avps: Vec<Avp> = Vec::new();
        let mut pos: usize = CONTROL_HEADER_LEN;
        proof {
            assert(bytes@.subrange(pos as int, end as int) =~= region);
            if let Some(all) = parse_avps(region) {
                assert(Seq::<AvpModel>::empty() + all =~= all);
            }
        }
        while pos < end
            invariant
                CONTROL_HEADER_LEN <= pos <= end <= bytes@.len(),
                version_ok(bytes@),
                is_control(bytes@),
                control_fields_present(bytes@),
                length == from_be16(bytes@[2], bytes@[3]),
                end == length,
                tunnel_id == from_be16(bytes@[4], bytes@[5]),
                session_id == from_be16(bytes@[6], bytes@[7]),
                ns == from_be16(bytes@[8], bytes@[9]),
                nr == from_be16(bytes@[10], bytes@[11]),
                try_read_spec(bytes@) matches Ok(message) ==> message.wf(),
                region == bytes@.subrange(CONTROL_HEADER_LEN as int, end as int),
                parse_avps(region) == prepend(
                    avps_view(avps@),
                    parse_avps(bytes@.subrange(pos as int, end as int)),
                ),
            decreases end - pos,
        {
            let rest: &[u8] = slice_subrange(bytes, pos, end);
            match Avp::decode(rest) {
                Ok((avp, consumed)) => {
                    proof {
                        let front = avps_view(avps@);
                        let tail = rest@.subrange(consumed as int, rest@.len() as int);
                        lemma_parse_avps_step(rest@, avp@, consumed as int);
                        assert(tail =~= bytes@.subrange(pos + consumed, end as int));
                        assert(avps_view(avps@.push(avp)) =~= front.push(avp@));
                        if let Some(more) = parse_avps(tail) {
                            assert(front + (seq![avp@] + more) =~= front.push(avp@) + more);
                        }
                    }
                    avps.push(avp);
                    pos = pos + consumed;
                },
                Err(_) => {
                    assert(rest@.len() > 0);
                    assert(parse_avps(rest@) is None);
                    return Err(DecodeError::InvalidAvp);
                },
            }
        }
        proof {
            assert(bytes@.subrange(pos as int, end as int).len() == 0);
            assert(avps_view(avps@) + Seq::<AvpModel>::empty() =~= avps_view(avps@));
        }
        Ok(Message::Control(ControlMessage { length, tunnel_id, session_id, ns, nr, avps }))
    }
}

} // verus!
