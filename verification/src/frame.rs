//! Wire frames: magic marker, header, type tag, serialized payload and a
//! CRC-16 trailer, plus the builder that assigns sequence numbers.
//!
//! Frame layout, little-endian for multi-byte fields:
//!
//! ```text
//! offset 0..4    magic marker (0xAA 0x57 0x49 0x46)
//! offset 4..6    sequence (u16)
//! offset 6..8    payload_len (u16)
//! offset 8       channel (u8)
//! offset 9       flags (u8)
//! offset 10      message type tag (u8)
//! offset 11..    payload (payload_len bytes)
//! then 2 bytes   CRC-16 over offsets [0, 11 + payload_len)
//! ```

use vstd::prelude::*;

use crate::crc::{crc16, crc16_spec};
use crate::message::{
    append_bytes, encode_fields, lemma_fields_len_bound, lemma_fields_round_trip, spec_decode_fields,
    spec_message_fields, spec_message_type, spec_message_wf, write_prefix, Header, Message,
    SpecMessage,
};

verus! {

/// Errors during frame building and parsing.
#[derive(Debug, Clone, Copy, PartialEq, Eq, Structural)]
pub enum FrameError {
    /// Destination buffer too small for a frame.
    BufferTooSmall,
    /// Frame data too short.
    TooShort,
    /// Invalid magic bytes.
    InvalidMagic,
    /// CRC check failed.
    CrcMismatch,
    /// Serialization failed.
    SerializationError,
    /// Deserialization failed.
    DeserializationError,
}

/// The four magic bytes that open every frame.
pub open spec fn spec_frame_magic() -> Seq<u8> {
    seq![0xAAu8, 0x57u8, 0x49u8, 0x46u8]
}

/// Little-endian byte pair of a 16-bit value.
pub open spec fn spec_le16(v: u16) -> Seq<u8> {
    seq![(v % 256) as u8, (v / 256) as u8]
}

/// The 16-bit value a little-endian byte pair stands for.
pub open spec fn spec_u16_le(b0: u8, b1: u8) -> u16 {
    (b0 + 256 * b1) as u16
}

/// Law: reading back a little-endian byte pair yields the value.
pub proof fn lemma_le16_round_trip(v: u16)
    ensures
        spec_u16_le(spec_le16(v)[0], spec_le16(v)[1]) == v,
{
    vstd::arithmetic::div_mod::lemma_fundamental_div_mod(v as int, 256);
}

/// Append the little-endian byte pair of `v` to `out`.
fn push_le16(v: u16, out: &mut Vec<u8>)
    ensures
        final(out)@ == old(out)@ + spec_le16(v),
{
    out.push((v % 256) as u8);
    out.push((v / 256) as u8);
    assert(out@ =~= old(out)@ + spec_le16(v));
}

/// Read the little-endian 16-bit value at `data[i..i + 2]`.
fn read_u16_le(data: &[u8], i: usize) -> (r: u16)
    requires
        i + 2 <= data@.len(),
    ensures
        r == spec_u16_le(data@[i as int], data@[i as int + 1]),
{
    data[i] as u16 + 256 * (data[i + 1] as u16)
}

/// Everything of a frame that the CRC covers: magic, header, type tag and
/// payload.
pub open spec fn spec_frame_body(sequence: u16, channel: u8, m: SpecMessage) -> Seq<u8> {
    spec_frame_magic() + spec_le16(sequence) + spec_le16(spec_message_fields(m).len() as u16)
        + seq![channel, 0u8, spec_message_type(m).spec_tag()] + spec_message_fields(m)
}

/// The complete on-wire frame of a message: body, then CRC trailer.
pub open spec fn spec_frame(sequence: u16, channel: u8, m: SpecMessage) -> Seq<u8> {
    spec_frame_body(sequence, channel, m) + spec_le16(
        crc16_spec(spec_frame_body(sequence, channel, m)),
    )
}

/// The outcome of parsing a byte sequence as a frame: the ladder of checks
/// a frame must pass, in order, and the header and message it carries.
pub open spec fn spec_parse_frame(s: Seq<u8>) -> Result<(Header, SpecMessage), FrameError> {
    if s.len() < 13 {
        Err(FrameError::TooShort)
    } else if !(s[0] == 0xAA && s[1] == 0x57 && s[2] == 0x49 && s[3] == 0x46) {
        Err(FrameError::InvalidMagic)
    } else {
        let payload_len = spec_u16_le(s[6], s[7]) as int;
        if s.len() < 13 + payload_len {
            Err(FrameError::TooShort)
        } else if spec_u16_le(s[11 + payload_len], s[12 + payload_len]) != crc16_spec(
            s.take(11 + payload_len),
        ) {
            Err(FrameError::CrcMismatch)
        } else {
            match spec_decode_fields(s[10], s.subrange(11, 11 + payload_len)) {
                Some(m) => Ok(
                    (
                        Header {
                            sequence: spec_u16_le(s[4], s[5]),
                            payload_len: spec_u16_le(s[6], s[7]),
                            channel: s[8],
                            flags: s[9],
                        },
                        m,
                    ),
                ),
                None => Err(FrameError::DeserializationError),
            }
        }
    }
}

/// Builder of wire frames; holds the next sequence number to assign.
pub struct FrameBuilder {
    sequence: u16,
}

impl FrameBuilder {
    /// The sequence number the next built frame will carry.
    pub closed spec fn spec_sequence(&self) -> u16 {
        self.sequence
    }

    /// A builder whose first frame carries sequence number zero.
    pub fn new() -> (r: Self)
        ensures
            r.spec_sequence() == 0,
    {
        FrameBuilder { sequence: 0 }
    }

    /// Hand out the next sequence number and advance the counter, wrapping
    /// at the 16-bit boundary.
    pub fn next_sequence(&mut self) -> (r: u16)
        ensures
            r == old(self).spec_sequence(),
            final(self).spec_sequence() == (old(self).spec_sequence() + 1) % 0x10000,
    {
        let current = self.sequence;
        if self.sequence == 0xFFFF {
            self.sequence = 0;
        } else {
            self.sequence = self.sequence + 1;
        }
        current
    }

    /// Build a complete frame for `msg` into the front of `buffer`: magic,
    /// header with the builder's next sequence number, type tag, encoded
    /// payload and CRC. Bytes of `buffer` past the frame are left as they
    /// were. Returns the total frame length. Fails with `BufferTooSmall`
    /// when `buffer` cannot hold even the fixed overhead, and with
    /// `SerializationError` when the payload does not fit; on failure the
    /// builder and the buffer are unchanged.
    pub fn build_frame(&mut self, msg: &Message, channel: u8, buffer: &mut Vec<u8>) -> (r: Result<
        usize,
        FrameError,
    >)
        requires
            msg.wf(),
        ensures
            match r {
                Ok(n) => {
                    &&& n == 13 + spec_message_fields(msg@).len()
                    &&& n <= old(buffer)@.len()
                    &&& final(buffer)@ == spec_frame(old(self).spec_sequence(), channel, msg@) + old(
                        buffer,
                    )@.skip(n as int)
                    &&& final(buffer)@.len() == old(buffer)@.len()
                    &&& final(self).spec_sequence() == (old(self).spec_sequence() + 1) % 0x10000
                },
                Err(e) => {
                    &&& *final(self) == *old(self)
                    &&& *final(buffer) == *old(buffer)
                    &&& (e == FrameError::BufferTooSmall <==> old(buffer)@.len() < 16)
                    &&& (e == FrameError::SerializationError <==> old(buffer)@.len() >= 16 && 13
                        + spec_message_fields(msg@).len() > old(buffer)@.len())
                },
            },
            r is Ok <==> (old(buffer)@.len() >= 16 && 13 + spec_message_fields(msg@).len() <= old(
                buffer,
            )@.len()),
    {
        if buffer.len() < 16 {
            return Err(FrameError::BufferTooSmall);
        }
        let mut fields: Vec<u8> = Vec::new();
        encode_fields(msg, &mut fields);
        proof {
            lemma_fields_len_bound(msg@);
        }
        if fields.len() > buffer.len() - 13 {
            return Err(FrameError::SerializationError);
        }
        let sequence = self.next_sequence();
        let mut tmp: Vec<u8> = Vec::new();
        tmp.push(0xAA);
        tmp.push(0x57);
        tmp.push(0x49);
        tmp.push(0x46);
        push_le16(sequence, &mut tmp);
        push_le16(fields.len() as u16, &mut tmp);
        tmp.push(channel);
        tmp.push(0x00);
        tmp.push(msg.message_type().tag());
        append_bytes(&mut tmp, fields.as_slice());
        assert(tmp@ =~= spec_frame_body(sequence, channel, msg@));
        let crc = crc16(tmp.as_slice());
        push_le16(crc, &mut tmp);
        assert(tmp@ =~= spec_frame(sequence, channel, msg@));
        write_prefix(buffer, &tmp);
        Ok(tmp.len())
    }

    /// Parse a frame: reject short input, a bad magic marker, input shorter
    /// than the declared payload demands, and a CRC mismatch — in that
    /// order, and all before the payload is handed to the message decoder.
    pub fn parse_frame(data: &[u8]) -> (r: Result<(Header, Message), FrameError>)
        ensures
            match r {
                Ok(p) => spec_parse_frame(data@) == Ok::<_, FrameError>((p.0, p.1@)) && p.1.wf(),
                Err(e) => spec_parse_frame(data@) == Err::<(Header, SpecMessage), _>(e),
            },
    {
        if data.len() < 13 {
            return Err(FrameError::TooShort);
        }
        if !(data[0] == 0xAA && data[1] == 0x57 && data[2] == 0x49 && data[3] == 0x46) {
            return Err(FrameError::InvalidMagic);
        }
        let sequence = read_u16_le(data, 4);
        let payload_len = read_u16_le(data, 6) as usize;
        if data.len() - 13 < payload_len {
            return Err(FrameError::TooShort);
        }
        let crc_stored = read_u16_le(data, 11 + payload_len);
        let body = vstd::slice::slice_subrange(data, 0, 11 + payload_len);
        assert(body@ =~= data@.take(11 + payload_len as int));
        let crc_actual = crc16(body);
        if crc_stored != crc_actual {
            return Err(FrameError::CrcMismatch);
        }
        let payload = vstd::slice::slice_subrange(data, 10, 11 + payload_len);
        assert(payload@.skip(1) =~= data@.subrange(11, 11 + payload_len as int));
        match Message::deserialize(payload) {
            Ok(m) => Ok(
                (
                    Header { sequence, payload_len: payload_len as u16, channel: data[8], flags: data[9] },
                    m,
                ),
            ),
            Err(_) => Err(FrameError::DeserializationError),
        }
    }
}

impl Default for FrameBuilder {
    /// A builder whose first frame carries sequence number zero.
    fn default() -> (r: Self)
        ensures
            r.spec_sequence() == 0,
    {
        FrameBuilder::new()
    }
}

/// Law (CRC sensitivity): changing any single byte of a built frame — so,
/// in particular, flipping any single bit — in the sequence, channel,
/// flags, type-tag or payload bytes makes the frame parse fail with
/// `CrcMismatch`, deterministically. The magic marker, the payload-length
/// field and the CRC trailer itself are outside this statement: a change
/// inside the magic marker is rejected as `InvalidMagic`, and one inside
/// the length field can be rejected as `TooShort`, both before the CRC is
/// ever consulted.
pub proof fn lemma_crc_flip_detected(
    sequence: u16,
    channel: u8,
    m: SpecMessage,
    s2: Seq<u8>,
    k: int,
)
    requires
        spec_message_wf(m),
        s2.len() == spec_frame(sequence, channel, m).len(),
        4 <= k < s2.len() - 2,
        k != 6,
        k != 7,
        s2[k] != spec_frame(sequence, channel, m)[k],
        forall|j: int|
            0 <= j < s2.len() && j != k ==> s2[j] == spec_frame(sequence, channel, m)[j],
    ensures
        spec_parse_frame(s2) == Err::<(Header, SpecMessage), FrameError>(FrameError::CrcMismatch),
{
    let s1 = spec_frame(sequence, channel, m);
    let body = spec_frame_body(sequence, channel, m);
    let fields = spec_message_fields(m);
    lemma_fields_len_bound(m);
    lemma_le16_round_trip(fields.len() as u16);
    lemma_le16_round_trip(crc16_spec(body));
    assert(s1.take(11 + fields.len() as int) =~= body);
    assert(s2.take(11 + fields.len() as int).len() == body.len());
    crate::crc::lemma_crc16_single_byte_sensitivity(body, s2.take(11 + fields.len() as int), k);
}

/// Law: a built frame parses back to the message it was built from, under
/// a header carrying the same sequence number and channel, for every valid
/// message.
pub proof fn lemma_frame_round_trip(sequence: u16, channel: u8, m: SpecMessage)
    requires
        spec_message_wf(m),
    ensures
        spec_parse_frame(spec_frame(sequence, channel, m)) == Ok::<_, FrameError>(
            (
                Header {
                    sequence,
                    payload_len: spec_message_fields(m).len() as u16,
                    channel,
                    flags: 0,
                },
                m,
            ),
        ),
{
    let fields = spec_message_fields(m);
    let body = spec_frame_body(sequence, channel, m);
    let s = spec_frame(sequence, channel, m);
    lemma_fields_len_bound(m);
    lemma_le16_round_trip(sequence);
    lemma_le16_round_trip(fields.len() as u16);
    lemma_le16_round_trip(crc16_spec(body));
    assert(s.take(11 + fields.len() as int) =~= body);
    assert(s.subrange(11, 11 + fields.len() as int) =~= fields);
    lemma_fields_round_trip(m);
}

} // verus!
