//! Typed message model of the bridge protocol and its compact payload
//! encoding: one tag byte selects the variant, the variant's fields follow
//! as raw bytes (`u8`) or varints (wider scalars), and a data payload is a
//! varint length followed by the bytes themselves.

use vstd::prelude::*;

use crate::frame::FrameError;
use crate::varint::{lemma_varint_round_trip, varint_dec, varint_decode, varint_enc, varint_encode};
use crate::MTU;

verus! {

/// Maximum payload size: the transfer unit minus the frame overhead.
pub const MAX_PAYLOAD_SIZE: usize = MTU - 16;

/// Message kinds of the bridge protocol, a closed enumeration of wire tags.
#[derive(Debug, Clone, Copy, PartialEq, Eq, Structural)]
pub enum MessageType {
    /// Connection management.
    Control,
    /// Projection data payload.
    Data,
    /// Acknowledgment.
    Ack,
    /// Negative acknowledgment.
    Nack,
    /// Keep-alive ping.
    Ping,
    /// Keep-alive pong.
    Pong,
    /// Diagnostics, development only.
    Debug,
}

impl MessageType {
    /// The wire tag value of this message kind.
    pub open spec fn spec_tag(self) -> u8 {
        match self {
            MessageType::Control => 0x01,
            MessageType::Data => 0x02,
            MessageType::Ack => 0x03,
            MessageType::Nack => 0x04,
            MessageType::Ping => 0x05,
            MessageType::Pong => 0x06,
            MessageType::Debug => 0xFF,
        }
    }

    /// The message kind a wire tag stands for, if any.
    pub open spec fn spec_try_from(value: u8) -> Result<MessageType, ()> {
        if value == 0x01 {
            Ok(MessageType::Control)
        } else if value == 0x02 {
            Ok(MessageType::Data)
        } else if value == 0x03 {
            Ok(MessageType::Ack)
        } else if value == 0x04 {
            Ok(MessageType::Nack)
        } else if value == 0x05 {
            Ok(MessageType::Ping)
        } else if value == 0x06 {
            Ok(MessageType::Pong)
        } else if value == 0xFF {
            Ok(MessageType::Debug)
        } else {
            Err(())
        }
    }

    /// Emit the wire tag of this message kind.
    pub fn tag(self) -> (r: u8)
        ensures
            r == self.spec_tag(),
    {
        match self {
            MessageType::Control => 0x01,
            MessageType::Data => 0x02,
            MessageType::Ack => 0x03,
            MessageType::Nack => 0x04,
            MessageType::Ping => 0x05,
            MessageType::Pong => 0x06,
            MessageType::Debug => 0xFF,
        }
    }

}

impl TryFrom<u8> for MessageType {
    type Error = ();

    /// Recognize a wire tag; an unknown tag is rejected, never defaulted.
    fn try_from(value: u8) -> (r: Result<MessageType, ()>) {
        if value == 0x01 {
            Ok(MessageType::Control)
        } else if value == 0x02 {
            Ok(MessageType::Data)
        } else if value == 0x03 {
            Ok(MessageType::Ack)
        } else if value == 0x04 {
            Ok(MessageType::Nack)
        } else if value == 0x05 {
            Ok(MessageType::Ping)
        } else if value == 0x06 {
            Ok(MessageType::Pong)
        } else if value == 0xFF {
            Ok(MessageType::Debug)
        } else {
            Err(())
        }
    }
}

impl vstd::std_specs::convert::TryFromSpecImpl<u8> for MessageType {
    open spec fn obeys_try_from_spec() -> bool {
        true
    }

    open spec fn try_from_spec(value: u8) -> Result<MessageType, ()> {
        MessageType::spec_try_from(value)
    }
}

/// Frame header: sequencing, payload length, stream channel and flags.
#[derive(Debug, Clone, Copy, PartialEq, Eq, Structural)]
pub struct Header {
    /// Sequence number for ordering and deduplication.
    pub sequence: u16,
    /// Length of the serialized payload, in bytes.
    pub payload_len: u16,
    /// Channel identifier for multiplexing logical streams.
    pub channel: u8,
    /// Reserved flag bits.
    pub flags: u8,
}

impl Header {
    /// A header with the given fields and clear flags.
    pub fn new(sequence: u16, payload_len: u16, channel: u8) -> (r: Self)
        ensures
            r == (Header { sequence, payload_len, channel, flags: 0 }),
    {
        Header { sequence, payload_len, channel, flags: 0 }
    }

    /// Size of the header on the wire.
    pub fn serialized_size() -> (r: usize)
        ensures
            r == 6,
    {
        6
    }
}

/// Control message subtypes for connection management.
#[derive(Debug, Clone, Copy, PartialEq, Eq, Structural)]
pub enum ControlMessage {
    /// Initial handshake request.
    HandshakeRequest {
        /// Protocol version.
        version: u8,
        /// Supported features bitmask.
        features: u32,
    },
    /// Handshake response.
    HandshakeResponse {
        /// Accepted protocol version.
        version: u8,
        /// Supported features bitmask.
        features: u32,
        /// Session identifier for this connection.
        session_id: u32,
    },
    /// Start streaming on the given channels.
    StartStream {
        /// Video channel identifier.
        video_channel: u8,
        /// Audio channel identifier.
        audio_channel: u8,
        /// Input channel identifier.
        input_channel: u8,
    },
    /// Stop streaming.
    StopStream,
    /// Disconnect cleanly.
    Disconnect {
        /// Reason code.
        reason: u8,
    },
    /// Request current statistics.
    StatsRequest,
    /// Statistics response.
    StatsResponse {
        /// Bytes received.
        bytes_rx: u64,
        /// Bytes transmitted.
        bytes_tx: u64,
        /// Packets dropped.
        packets_dropped: u32,
    },
}

/// Data payload wrapper, capacity-limited to `MAX_PAYLOAD_SIZE` bytes.
#[derive(Debug, Clone, PartialEq, Eq)]
pub struct DataPayload {
    /// The payload bytes.
    pub data: Vec<u8>,
}

impl View for DataPayload {
    type V = Seq<u8>;

    open spec fn view(&self) -> Seq<u8> {
        self.data@
    }
}

impl DataPayload {
    /// The capacity bound every payload obeys.
    pub open spec fn wf(&self) -> bool {
        self@.len() <= MAX_PAYLOAD_SIZE
    }

    /// Wrap a byte slice; rejected when it exceeds `MAX_PAYLOAD_SIZE`.
    pub fn new(data: &[u8]) -> (r: Option<Self>)
        ensures
            match r {
                Some(p) => data@.len() <= MAX_PAYLOAD_SIZE && p@ == data@,
                None => data@.len() > MAX_PAYLOAD_SIZE,
            },
    {
        if data.len() <= MAX_PAYLOAD_SIZE {
            Some(DataPayload { data: vstd::slice::slice_to_vec(data) })
        } else {
            None
        }
    }

    /// The payload length in bytes.
    pub fn len(&self) -> (r: usize)
        ensures
            r == self@.len(),
    {
        self.data.len()
    }

    /// Whether the payload holds no bytes.
    pub fn is_empty(&self) -> (r: bool)
        ensures
            r == (self@.len() == 0),
    {
        self.data.len() == 0
    }
}

/// Mathematical model of a message: a data payload is a byte sequence.
pub enum SpecMessage {
    /// Control message.
    Control(ControlMessage),
    /// Data payload bytes.
    Data(Seq<u8>),
    /// Acknowledgment of a sequence number.
    Ack { sequence: u16 },
    /// Negative acknowledgment with an error code.
    Nack { sequence: u16, error: u8 },
    /// Keep-alive ping carrying a timestamp.
    Ping { timestamp: u32 },
    /// Keep-alive pong echoing the timestamp.
    Pong { timestamp: u32 },
}

/// A message of the bridge protocol.
#[derive(Debug, Clone, PartialEq, Eq)]
pub enum Message {
    /// Control message.
    Control(ControlMessage),
    /// Data payload.
    Data(DataPayload),
    /// Acknowledgment with sequence number.
    Ack {
        /// The acknowledged sequence number.
        sequence: u16,
    },
    /// Negative acknowledgment with error code.
    Nack {
        /// The rejected sequence number.
        sequence: u16,
        /// Error code.
        error: u8,
    },
    /// Keep-alive ping with timestamp.
    Ping {
        /// Sender's timestamp.
        timestamp: u32,
    },
    /// Keep-alive pong with the original timestamp.
    Pong {
        /// The echoed timestamp.
        timestamp: u32,
    },
}

impl View for Message {
    type V = SpecMessage;

    open spec fn view(&self) -> SpecMessage {
        match self {
            Message::Control(c) => SpecMessage::Control(*c),
            Message::Data(d) => SpecMessage::Data(d.data@),
            Message::Ack { sequence } => SpecMessage::Ack { sequence: *sequence },
            Message::Nack { sequence, error } => SpecMessage::Nack {
                sequence: *sequence,
                error: *error,
            },
            Message::Ping { timestamp } => SpecMessage::Ping { timestamp: *timestamp },
            Message::Pong { timestamp } => SpecMessage::Pong { timestamp: *timestamp },
        }
    }
}

/// The capacity bound every valid message obeys.
pub open spec fn spec_message_wf(m: SpecMessage) -> bool {
    match m {
        SpecMessage::Data(d) => d.len() <= MAX_PAYLOAD_SIZE,
        _ => true,
    }
}

/// The message kind of a message.
pub open spec fn spec_message_type(m: SpecMessage) -> MessageType {
    match m {
        SpecMessage::Control(_) => MessageType::Control,
        SpecMessage::Data(_) => MessageType::Data,
        SpecMessage::Ack { .. } => MessageType::Ack,
        SpecMessage::Nack { .. } => MessageType::Nack,
        SpecMessage::Ping { .. } => MessageType::Ping,
        SpecMessage::Pong { .. } => MessageType::Pong,
    }
}

/// Encoded fields of a control message: a subtype index byte, then the
/// fields in declaration order.
pub open spec fn spec_control_fields(c: ControlMessage) -> Seq<u8> {
    match c {
        ControlMessage::HandshakeRequest { version, features } => seq![0u8, version] + varint_enc(
            features as nat,
        ),
        ControlMessage::HandshakeResponse { version, features, session_id } => seq![0x01u8, version]
            + varint_enc(features as nat) + varint_enc(session_id as nat),
        ControlMessage::StartStream { video_channel, audio_channel, input_channel } => seq![
            0x02u8,
            video_channel,
            audio_channel,
            input_channel,
        ],
        ControlMessage::StopStream => seq![0x03u8],
        ControlMessage::Disconnect { reason } => seq![0x04u8, reason],
        ControlMessage::StatsRequest => seq![0x05u8],
        ControlMessage::StatsResponse { bytes_rx, bytes_tx, packets_dropped } => seq![0x06u8]
            + varint_enc(bytes_rx as nat) + varint_enc(bytes_tx as nat) + varint_enc(
            packets_dropped as nat,
        ),
    }
}

/// Encoded payload fields of a message (the frame's payload region,
/// excluding the type tag).
pub open spec fn spec_message_fields(m: SpecMessage) -> Seq<u8> {
    match m {
        SpecMessage::Control(c) => spec_control_fields(c),
        SpecMessage::Data(d) => varint_enc(d.len()) + d,
        SpecMessage::Ack { sequence } => varint_enc(sequence as nat),
        SpecMessage::Nack { sequence, error } => varint_enc(sequence as nat) + seq![error],
        SpecMessage::Ping { timestamp } => varint_enc(timestamp as nat),
        SpecMessage::Pong { timestamp } => varint_enc(timestamp as nat),
    }
}

/// The serialized form of a message: its type tag, then its payload fields.
pub open spec fn spec_serialize_message(m: SpecMessage) -> Seq<u8> {
    seq![spec_message_type(m).spec_tag()] + spec_message_fields(m)
}

/// Decoding of a control message from its encoded fields. The whole of `s`
/// must be consumed; anything else is malformed.
pub open spec fn spec_decode_control(s: Seq<u8>) -> Option<ControlMessage> {
    if s.len() < 1 {
        None
    } else {
        let t = s.skip(1);
        if s[0] == 0x00 {
            if t.len() < 1 {
                None
            } else {
                match varint_dec(t.skip(1)) {
                    Some(p) => if p.0 <= u32::MAX && 1 + p.1 == t.len() {
                        Some(
                            ControlMessage::HandshakeRequest {
                                version: t[0],
                                features: p.0 as u32,
                            },
                        )
                    } else {
                        None
                    },
                    None => None,
                }
            }
        } else if s[0] == 0x01 {
            if t.len() < 1 {
                None
            } else {
                match varint_dec(t.skip(1)) {
                    Some(p) => if p.0 <= u32::MAX {
                        match varint_dec(t.skip(1 + p.1 as int)) {
                            Some(q) => if q.0 <= u32::MAX && 1 + p.1 + q.1 == t.len() {
                                Some(
                                    ControlMessage::HandshakeResponse {
                                        version: t[0],
                                        features: p.0 as u32,
                                        session_id: q.0 as u32,
                                    },
                                )
                            } else {
                                None
                            },
                            None => None,
                        }
                    } else {
                        None
                    },
                    None => None,
                }
            }
        } else if s[0] == 0x02 {
            if t.len() == 3 {
                Some(
                    ControlMessage::StartStream {
                        video_channel: t[0],
                        audio_channel: t[1],
                        input_channel: t[2],
                    },
                )
            } else {
                None
            }
        } else if s[0] == 0x03 {
            if t.len() == 0 {
                Some(ControlMessage::StopStream)
            } else {
                None
            }
        } else if s[0] == 0x04 {
            if t.len() == 1 {
                Some(ControlMessage::Disconnect { reason: t[0] })
            } else {
                None
            }
        } else if s[0] == 0x05 {
            if t.len() == 0 {
                Some(ControlMessage::StatsRequest)
            } else {
                None
            }
        } else if s[0] == 0x06 {
            match varint_dec(t) {
                Some(p) => if p.0 <= u64::MAX {
                    match varint_dec(t.skip(p.1 as int)) {
                        Some(q) => if q.0 <= u64::MAX {
                            match varint_dec(t.skip(p.1 + q.1 as int)) {
                                Some(w) => if w.0 <= u32::MAX && p.1 + q.1 + w.1 == t.len() {
                                    Some(
                                        ControlMessage::StatsResponse {
                                            bytes_rx: p.0 as u64,
                                            bytes_tx: q.0 as u64,
                                            packets_dropped: w.0 as u32,
                                        },
                                    )
                                } else {
                                    None
                                },
                                None => None,
                            }
                        } else {
                            None
                        },
                        None => None,
                    }
                } else {
                    None
                },
                None => None,
            }
        } else {
            None
        }
    }
}

/// Decoding of a message's payload fields under a given type tag. The whole
/// of `s` must be consumed; an unknown tag or malformed fields decode to
/// nothing.
pub open spec fn spec_decode_fields(tag: u8, s: Seq<u8>) -> Option<SpecMessage> {
    if tag == 0x01 {
        match spec_decode_control(s) {
            Some(c) => Some(SpecMessage::Control(c)),
            None => None,
        }
    } else if tag == 0x02 {
        match varint_dec(s) {
            Some(p) => if p.0 <= MAX_PAYLOAD_SIZE && p.1 + p.0 == s.len() {
                Some(SpecMessage::Data(s.skip(p.1 as int)))
            } else {
                None
            },
            None => None,
        }
    } else if tag == 0x03 {
        match varint_dec(s) {
            Some(p) => if p.0 <= u16::MAX && p.1 == s.len() {
                Some(SpecMessage::Ack { sequence: p.0 as u16 })
            } else {
                None
            },
            None => None,
        }
    } else if tag == 0x04 {
        match varint_dec(s) {
            Some(p) => if p.0 <= u16::MAX && p.1 + 1 == s.len() {
                Some(SpecMessage::Nack { sequence: p.0 as u16, error: s[p.1 as int] })
            } else {
                None
            },
            None => None,
        }
    } else if tag == 0x05 {
        match varint_dec(s) {
            Some(p) => if p.0 <= u32::MAX && p.1 == s.len() {
                Some(SpecMessage::Ping { timestamp: p.0 as u32 })
            } else {
                None
            },
            None => None,
        }
    } else if tag == 0x06 {
        match varint_dec(s) {
            Some(p) => if p.0 <= u32::MAX && p.1 == s.len() {
                Some(SpecMessage::Pong { timestamp: p.0 as u32 })
            } else {
                None
            },
            None => None,
        }
    } else {
        None
    }
}

/// Deserialization of a whole serialized message: tag byte, then fields.
pub open spec fn spec_deserialize_message(s: Seq<u8>) -> Option<SpecMessage> {
    if s.len() < 1 {
        None
    } else {
        spec_decode_fields(s[0], s.skip(1))
    }
}

/// Append all bytes of `src` to `out`.
pub(crate) fn append_bytes(out: &mut Vec<u8>, src: &[u8])
    ensures
        final(out)@ == old(out)@ + src@,
{
    let mut i: usize = 0;
    while i < src.len()
        invariant
            i <= src@.len(),
            out@ == old(out)@ + src@.take(i as int),
        decreases src@.len() - i,
    {
        out.push(src[i]);
        assert(old(out)@ + src@.take(i as int) + seq![src@[i as int]] =~= old(out)@ + src@.take(
            i as int + 1,
        ));
        i = i + 1;
    }
    assert(out@ =~= old(out)@ + src@);
}

/// Overwrite the first `src.len()` bytes of `dst` with `src`, leaving the
/// rest of `dst` as it was.
pub(crate) fn write_prefix(dst: &mut Vec<u8>, src: &Vec<u8>)
    requires
        src@.len() <= old(dst)@.len(),
    ensures
        final(dst)@ == src@ + old(dst)@.skip(src@.len() as int),
        final(dst)@.len() == old(dst)@.len(),
{
    let mut i: usize = 0;
    while i < src.len()
        invariant
            i <= src@.len(),
            src@.len() <= dst@.len(),
            dst@.len() == old(dst)@.len(),
            dst@ == src@.take(i as int) + old(dst)@.skip(i as int),
        decreases src@.len() - i,
    {
        dst[i] = src[i];
        assert(dst@ =~= src@.take(i as int + 1) + old(dst)@.skip(i as int + 1));
        i = i + 1;
    }
    assert(dst@ =~= src@ + old(dst)@.skip(src@.len() as int));
}

/// Append the encoded fields of a control message to `out`.
fn encode_control(c: &ControlMessage, out: &mut Vec<u8>)
    ensures
        final(out)@ == old(out)@ + spec_control_fields(*c),
{
    match *c {
        ControlMessage::HandshakeRequest { version, features } => {
            out.push(0x00);
            out.push(version);
            varint_encode(features as u64, out);
            assert(out@ =~= old(out)@ + spec_control_fields(*c));
        },
        ControlMessage::HandshakeResponse { version, features, session_id } => {
            out.push(0x01);
            out.push(version);
            varint_encode(features as u64, out);
            varint_encode(session_id as u64, out);
            assert(out@ =~= old(out)@ + spec_control_fields(*c));
        },
        ControlMessage::StartStream { video_channel, audio_channel, input_channel } => {
            out.push(0x02);
            out.push(video_channel);
            out.push(audio_channel);
            out.push(input_channel);
            assert(out@ =~= old(out)@ + spec_control_fields(*c));
        },
        ControlMessage::StopStream => {
            out.push(0x03);
            assert(out@ =~= old(out)@ + spec_control_fields(*c));
        },
        ControlMessage::Disconnect { reason } => {
            out.push(0x04);
            out.push(reason);
            assert(out@ =~= old(out)@ + spec_control_fields(*c));
        },
        ControlMessage::StatsRequest => {
            out.push(0x05);
            assert(out@ =~= old(out)@ + spec_control_fields(*c));
        },
        ControlMessage::StatsResponse { bytes_rx, bytes_tx, packets_dropped } => {
            out.push(0x06);
            varint_encode(bytes_rx, out);
            varint_encode(bytes_tx, out);
            varint_encode(packets_dropped as u64, out);
            assert(out@ =~= old(out)@ + spec_control_fields(*c));
        },
    }
}

/// Append a message's encoded payload fields to `out`.
pub(crate) fn encode_fields(m: &Message, out: &mut Vec<u8>)
    ensures
        final(out)@ == old(out)@ + spec_message_fields(m@),
{
    match m {
        Message::Control(c) => {
            encode_control(c, out);
        },
        Message::Data(d) => {
            varint_encode(d.data.len() as u64, out);
            append_bytes(out, d.data.as_slice());
            assert(out@ =~= old(out)@ + spec_message_fields(m@));
        },
        Message::Ack { sequence } => {
            varint_encode(*sequence as u64, out);
        },
        Message::Nack { sequence, error } => {
            varint_encode(*sequence as u64, out);
            out.push(*error);
            assert(out@ =~= old(out)@ + spec_message_fields(m@));
        },
        Message::Ping { timestamp } => {
            varint_encode(*timestamp as u64, out);
        },
        Message::Pong { timestamp } => {
            varint_encode(*timestamp as u64, out);
        },
    }
}

impl Message {
    /// The capacity bound every valid message obeys.
    pub open spec fn wf(&self) -> bool {
        spec_message_wf(self@)
    }

    /// The message kind of this message.
    pub fn message_type(&self) -> (r: MessageType)
        ensures
            r == spec_message_type(self@),
    {
        match self {
            Message::Control(_) => MessageType::Control,
            Message::Data(_) => MessageType::Data,
            Message::Ack { .. } => MessageType::Ack,
            Message::Nack { .. } => MessageType::Nack,
            Message::Ping { .. } => MessageType::Ping,
            Message::Pong { .. } => MessageType::Pong,
        }
    }

    /// Serialize this message into the front of `buffer`: the type tag,
    /// then the encoded fields. Bytes of `buffer` past the serialized form
    /// are left as they were. Returns the number of bytes written; fails
    /// exactly when the serialized form does not fit in `buffer`.
    pub fn serialize(&self, buffer: &mut Vec<u8>) -> (r: Result<usize, FrameError>)
        requires
            self.wf(),
        ensures
            match r {
                Ok(n) => {
                    &&& n == spec_serialize_message(self@).len()
                    &&& n <= old(buffer)@.len()
                    &&& final(buffer)@ == spec_serialize_message(self@) + old(buffer)@.skip(
                        n as int,
                    )
                    &&& final(buffer)@.len() == old(buffer)@.len()
                },
                Err(e) => {
                    &&& e == FrameError::SerializationError
                    &&& spec_serialize_message(self@).len() > old(buffer)@.len()
                    &&& *final(buffer) == *old(buffer)
                },
            },
    {
        let mut tmp: Vec<u8> = Vec::new();
        tmp.push(self.message_type().tag());
        encode_fields(self, &mut tmp);
        assert(tmp@ =~= spec_serialize_message(self@));
        if tmp.len() > buffer.len() {
            return Err(FrameError::SerializationError);
        }
        write_prefix(buffer, &tmp);
        Ok(tmp.len())
    }
}

/// Decode a control message from the encoded fields at `data[start..]`,
/// which must be consumed in full.
#[verifier::rlimit(50)]
fn decode_control(data: &[u8], start: usize) -> (r: Option<ControlMessage>)
    requires
        start <= data@.len(),
    ensures
        r == spec_decode_control(data@.skip(start as int)),
{
    let ghost s = data@.skip(start as int);
    let rem = data.len() - start;
    if rem < 1 {
        return None;
    }
    let idx = data[start];
    let ghost t = s.skip(1);
    proof {
        assert(t =~= data@.skip(start as int + 1));
    }
    if idx == 0x00 {
        if rem < 2 {
            return None;
        }
        let version = data[start + 1];
        proof {
            assert(t.skip(1) =~= data@.skip(start as int + 2));
        }
        match varint_decode(data, start + 2) {
            Some((v, n)) => {
                if v <= u32::MAX as u64 && 2 + n == rem {
                    Some(ControlMessage::HandshakeRequest { version, features: v as u32 })
                } else {
                    None
                }
            },
            None => None,
        }
    } else if idx == 0x01 {
        if rem < 2 {
            return None;
        }
        let version = data[start + 1];
        proof {
            assert(t.skip(1) =~= data@.skip(start as int + 2));
        }
        match varint_decode(data, start + 2) {
            Some((f, nf)) => {
                if f <= u32::MAX as u64 {
                    proof {
                        assert(t.skip(1 + nf as int) =~= data@.skip(start as int + 2 + nf as int));
                    }
                    match varint_decode(data, start + 2 + nf) {
                        Some((sid, ns)) => {
                            if sid <= u32::MAX as u64 && 2 + nf + ns == rem {
                                Some(
                                    ControlMessage::HandshakeResponse {
                                        version,
                                        features: f as u32,
                                        session_id: sid as u32,
                                    },
                                )
                            } else {
                                None
                            }
                        },
                        None => None,
                    }
                } else {
                    None
                }
            },
            None => None,
        }
    } else if idx == 0x02 {
        if rem == 4 {
            Some(
                ControlMessage::StartStream {
                    video_channel: data[start + 1],
                    audio_channel: data[start + 2],
                    input_channel: data[start + 3],
                },
            )
        } else {
            None
        }
    } else if idx == 0x03 {
        if rem == 1 {
            Some(ControlMessage::StopStream)
        } else {
            None
        }
    } else if idx == 0x04 {
        if rem == 2 {
            Some(ControlMessage::Disconnect { reason: data[start + 1] })
        } else {
            None
        }
    } else if idx == 0x05 {
        if rem == 1 {
            Some(ControlMessage::StatsRequest)
        } else {
            None
        }
    } else if idx == 0x06 {
        match varint_decode(data, start + 1) {
            Some((rx, nrx)) => {
                proof {
                    assert(t.skip(nrx as int) =~= data@.skip(start as int + 1 + nrx as int));
                }
                match varint_decode(data, start + 1 + nrx) {
                    Some((tx, ntx)) => {
                        proof {
                            assert(t.skip(nrx + ntx as int) =~= data@.skip(
                                start as int + 1 + nrx as int + ntx as int,
                            ));
                        }
                        match varint_decode(data, start + 1 + nrx + ntx) {
                            Some((pd, npd)) => {
                                if pd <= u32::MAX as u64 && 1 + nrx + ntx + npd == rem {
                                    Some(
                                        ControlMessage::StatsResponse {
                                            bytes_rx: rx,
                                            bytes_tx: tx,
                                            packets_dropped: pd as u32,
                                        },
                                    )
                                } else {
                                    None
                                }
                            },
                            None => None,
                        }
                    },
                    None => None,
                }
            },
            None => None,
        }
    } else {
        None
    }
}

impl Message {
    /// Deserialize a message from its serialized form: a type tag byte,
    /// then the encoded fields, which must be consumed in full.
    pub fn deserialize(data: &[u8]) -> (r: Result<Message, FrameError>)
        ensures
            match r {
                Ok(m) => spec_deserialize_message(data@) == Some(m@) && m.wf(),
                Err(e) => e == FrameError::DeserializationError && spec_deserialize_message(data@)
                    is None,
            },
    {
        if data.len() < 1 {
            return Err(FrameError::DeserializationError);
        }
        let tag = data[0];
        let ghost s = data@.skip(1);
        let rem = data.len() - 1;
        if tag == 0x01 {
            match decode_control(data, 1) {
                Some(c) => Ok(Message::Control(c)),
                None => Err(FrameError::DeserializationError),
            }
        } else if tag == 0x02 {
            match varint_decode(data, 1) {
                Some((v, n)) => {
                    if v <= MAX_PAYLOAD_SIZE as u64 && v == (rem - n) as u64 {
                        let payload = vstd::slice::slice_subrange(data, 1 + n, data.len());
                        assert(s.skip(n as int) =~= payload@);
                        Ok(Message::Data(DataPayload { data: vstd::slice::slice_to_vec(payload) }))
                    } else {
                        Err(FrameError::DeserializationError)
                    }
                },
                None => Err(FrameError::DeserializationError),
            }
        } else if tag == 0x03 {
            match varint_decode(data, 1) {
                Some((v, n)) => {
                    if v <= u16::MAX as u64 && n == rem {
                        Ok(Message::Ack { sequence: v as u16 })
                    } else {
                        Err(FrameError::DeserializationError)
                    }
                },
                None => Err(FrameError::DeserializationError),
            }
        } else if tag == 0x04 {
            match varint_decode(data, 1) {
                Some((v, n)) => {
                    if v <= u16::MAX as u64 && n + 1 == rem {
                        Ok(Message::Nack { sequence: v as u16, error: data[1 + n] })
                    } else {
                        Err(FrameError::DeserializationError)
                    }
                },
                None => Err(FrameError::DeserializationError),
            }
        } else if tag == 0x05 {
            match varint_decode(data, 1) {
                Some((v, n)) => {
                    if v <= u32::MAX as u64 && n == rem {
                        Ok(Message::Ping { timestamp: v as u32 })
                    } else {
                        Err(FrameError::DeserializationError)
                    }
                },
                None => Err(FrameError::DeserializationError),
            }
        } else if tag == 0x06 {
            match varint_decode(data, 1) {
                Some((v, n)) => {
                    if v <= u32::MAX as u64 && n == rem {
                        Ok(Message::Pong { timestamp: v as u32 })
                    } else {
                        Err(FrameError::DeserializationError)
                    }
                },
                None => Err(FrameError::DeserializationError),
            }
        } else {
            Err(FrameError::DeserializationError)
        }
    }
}

/// Law: decoding a control message undoes encoding it.
#[verifier::rlimit(50)]
pub proof fn lemma_control_round_trip(c: ControlMessage)
    ensures
        spec_decode_control(spec_control_fields(c)) == Some(c),
{
    let s = spec_control_fields(c);
    let t = s.skip(1);
    match c {
        ControlMessage::HandshakeRequest { version, features } => {
            let ef = varint_enc(features as nat);
            assert(t =~= seq![version] + ef);
            assert(t.skip(1) =~= ef + Seq::<u8>::empty());
            lemma_varint_round_trip(features as nat, Seq::<u8>::empty());
        },
        ControlMessage::HandshakeResponse { version, features, session_id } => {
            let ef = varint_enc(features as nat);
            let es = varint_enc(session_id as nat);
            assert(t =~= seq![version] + ef + es);
            assert(t.skip(1) =~= ef + es);
            lemma_varint_round_trip(features as nat, es);
            assert(t.skip(1 + ef.len() as int) =~= es + Seq::<u8>::empty());
            lemma_varint_round_trip(session_id as nat, Seq::<u8>::empty());
        },
        ControlMessage::StartStream { .. } => {
        },
        ControlMessage::StopStream => {
        },
        ControlMessage::Disconnect { .. } => {
        },
        ControlMessage::StatsRequest => {
        },
        ControlMessage::StatsResponse { bytes_rx, bytes_tx, packets_dropped } => {
            let erx = varint_enc(bytes_rx as nat);
            let etx = varint_enc(bytes_tx as nat);
            let epd = varint_enc(packets_dropped as nat);
            assert(t =~= erx + (etx + epd));
            lemma_varint_round_trip(bytes_rx as nat, etx + epd);
            assert(t.skip(erx.len() as int) =~= etx + epd);
            lemma_varint_round_trip(bytes_tx as nat, epd);
            assert(t.skip(erx.len() + etx.len() as int) =~= epd + Seq::<u8>::empty());
            lemma_varint_round_trip(packets_dropped as nat, Seq::<u8>::empty());
        },
    }
}

/// Law: decoding a message's payload fields under its own tag undoes
/// encoding them, for every valid message.
pub proof fn lemma_fields_round_trip(m: SpecMessage)
    requires
        spec_message_wf(m),
    ensures
        spec_decode_fields(spec_message_type(m).spec_tag(), spec_message_fields(m)) == Some(m),
{
    let s = spec_message_fields(m);
    match m {
        SpecMessage::Control(c) => {
            lemma_control_round_trip(c);
        },
        SpecMessage::Data(d) => {
            let el = varint_enc(d.len());
            lemma_varint_round_trip(d.len(), d);
            assert(s.skip(el.len() as int) =~= d);
        },
        SpecMessage::Ack { sequence } => {
            assert(s =~= varint_enc(sequence as nat) + Seq::<u8>::empty());
            lemma_varint_round_trip(sequence as nat, Seq::<u8>::empty());
        },
        SpecMessage::Nack { sequence, error } => {
            let es = varint_enc(sequence as nat);
            lemma_varint_round_trip(sequence as nat, seq![error]);
            assert(s[es.len() as int] == error);
        },
        SpecMessage::Ping { timestamp } => {
            assert(s =~= varint_enc(timestamp as nat) + Seq::<u8>::empty());
            lemma_varint_round_trip(timestamp as nat, Seq::<u8>::empty());
        },
        SpecMessage::Pong { timestamp } => {
            assert(s =~= varint_enc(timestamp as nat) + Seq::<u8>::empty());
            lemma_varint_round_trip(timestamp as nat, Seq::<u8>::empty());
        },
    }
}

/// Values of small powers of 128, for varint length bounds.
proof fn lemma_pow128_values()
    ensures
        vstd::arithmetic::power::pow(128, 3) == 0x200000,
        vstd::arithmetic::power::pow(128, 5) == 0x800000000,
        vstd::arithmetic::power::pow(128, 10) == 0x400000000000000000,
{
    reveal_with_fuel(vstd::arithmetic::power::pow, 11);
    assert(vstd::arithmetic::power::pow(128, 0) == 1) by {
        vstd::arithmetic::power::lemma_pow0(128);
    }
    assert(vstd::arithmetic::power::pow(128, 1) == 128);
    assert(vstd::arithmetic::power::pow(128, 2) == 0x4000);
    assert(vstd::arithmetic::power::pow(128, 3) == 0x200000);
    assert(vstd::arithmetic::power::pow(128, 4) == 0x10000000);
    assert(vstd::arithmetic::power::pow(128, 5) == 0x800000000);
    assert(vstd::arithmetic::power::pow(128, 6) == 0x40000000000);
    assert(vstd::arithmetic::power::pow(128, 7) == 0x2000000000000);
    assert(vstd::arithmetic::power::pow(128, 8) == 0x100000000000000);
    assert(vstd::arithmetic::power::pow(128, 9) == 0x8000000000000000);
    assert(vstd::arithmetic::power::pow(128, 10) == 0x400000000000000000);
}

/// Every valid message's encoded payload fields fit comfortably in a
/// 16-bit length field: at most `MAX_PAYLOAD_SIZE` plus the three bytes a
/// payload length varint can take.
pub proof fn lemma_fields_len_bound(m: SpecMessage)
    requires
        spec_message_wf(m),
    ensures
        spec_message_fields(m).len() <= MAX_PAYLOAD_SIZE + 3,
{
    lemma_pow128_values();
    match m {
        SpecMessage::Control(c) => {
            match c {
                ControlMessage::HandshakeRequest { features, .. } => {
                    crate::varint::lemma_varint_enc_len(features as nat, 5);
                },
                ControlMessage::HandshakeResponse { features, session_id, .. } => {
                    crate::varint::lemma_varint_enc_len(features as nat, 5);
                    crate::varint::lemma_varint_enc_len(session_id as nat, 5);
                },
                ControlMessage::StatsResponse { bytes_rx, bytes_tx, packets_dropped } => {
                    crate::varint::lemma_varint_enc_len(bytes_rx as nat, 10);
                    crate::varint::lemma_varint_enc_len(bytes_tx as nat, 10);
                    crate::varint::lemma_varint_enc_len(packets_dropped as nat, 5);
                },
                _ => {},
            }
        },
        SpecMessage::Data(d) => {
            crate::varint::lemma_varint_enc_len(d.len(), 3);
        },
        SpecMessage::Ack { sequence } => {
            crate::varint::lemma_varint_enc_len(sequence as nat, 3);
        },
        SpecMessage::Nack { sequence, .. } => {
            crate::varint::lemma_varint_enc_len(sequence as nat, 3);
        },
        SpecMessage::Ping { timestamp } => {
            crate::varint::lemma_varint_enc_len(timestamp as nat, 5);
        },
        SpecMessage::Pong { timestamp } => {
            crate::varint::lemma_varint_enc_len(timestamp as nat, 5);
        },
    }
}

/// Law: deserializing a serialized message yields the message back, for
/// every valid message.
pub proof fn lemma_message_round_trip(m: SpecMessage)
    requires
        spec_message_wf(m),
    ensures
        spec_deserialize_message(spec_serialize_message(m)) == Some(m),
{
    let s = spec_serialize_message(m);
    assert(s.skip(1) =~= spec_message_fields(m));
    lemma_fields_round_trip(m);
}

} // verus!
