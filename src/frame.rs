//! The two length-prefixed binary framings of PCM frames: frames pushed in by
//! a peer for the voice filter, and loopback frames sent out to a peer.
//!
//! A packet is a 4-byte little-endian payload length followed by the payload.
//! Every integer is little-endian; PCM is carried as raw 32-bit float bytes.
use crate::wire::{
    append_bytes, copy_range, le_value, lemma_le_value_bound, lemma_pow256_values, push_le, read_le,
};
use vstd::prelude::*;
use vstd::string::StringSliceAdditionalSpecFns;
use vstd::utf8::{decode_utf8, encode_utf8, valid_utf8};

verus! {

/// Largest payload accepted or produced, in bytes.
pub const MAX_BINARY_FRAME_BYTES: usize = 4194304;

/// Relies on `String::from_utf8`: it succeeds exactly on well-formed UTF-8
/// and then holds the decoded text.
#[verifier::external_body]
fn string_from_utf8(bytes: Vec<u8>) -> (r: Option<String>)
    ensures
        r.is_some() == valid_utf8(bytes@),
        r.is_some() ==> r.unwrap()@ == decode_utf8(bytes@),
{
    String::from_utf8(bytes).ok()
}

/// The `n`-byte little-endian field at `off`.
pub open spec fn field(p: Seq<u8>, off: int, n: int) -> nat {
    le_value(p.subrange(off, off + n))
}

/// A frame pushed in by a peer for the voice filter.
pub struct VoiceFilterBinaryFrame {
    pub session_id: String,
    pub sequence: u64,
    pub sample_rate: usize,
    pub channels: usize,
    pub frame_count: usize,
    pub protocol_version: u32,
    /// Interleaved 32-bit float samples, as little-endian bytes.
    pub pcm: Vec<u8>,
}

/// Length of the session id of an inbound payload.
pub open spec fn in_sid_len(p: Seq<u8>) -> int {
    field(p, 0, 2) as int
}

/// Whether `p` is a well-formed inbound payload: a non-empty session id, then
/// sequence (8 bytes), sample rate (4), channels (2), frame count (4),
/// protocol version (4), PCM length (4) and exactly that many PCM bytes; the
/// sample rate is positive, there are one or two channels, and the PCM is a
/// non-empty whole number of 4-byte samples.
pub open spec fn is_inbound_payload(p: Seq<u8>) -> bool {
    let l = in_sid_len(p);
    &&& p.len() >= 2
    &&& l > 0
    &&& p.len() >= 28 + l
    &&& field(p, 10 + l, 4) > 0
    &&& 1 <= field(p, 14 + l, 2) <= 2
    &&& field(p, 24 + l, 4) > 0
    &&& field(p, 24 + l, 4) % 4 == 0
    &&& p.len() == 28 + l + field(p, 24 + l, 4)
}

/// The session id bytes of an inbound payload.
pub open spec fn in_sid(p: Seq<u8>) -> Seq<u8> {
    p.subrange(2, 2 + in_sid_len(p))
}

/// Whether `f` holds what the well-formed inbound payload `p` carries.
pub open spec fn frame_of_payload(f: VoiceFilterBinaryFrame, p: Seq<u8>) -> bool {
    let l = in_sid_len(p);
    &&& valid_utf8(in_sid(p))
    &&& f.session_id@ == decode_utf8(in_sid(p))
    &&& f.sequence == field(p, 2 + l, 8)
    &&& f.sample_rate == field(p, 10 + l, 4)
    &&& f.channels == field(p, 14 + l, 2)
    &&& f.frame_count == field(p, 16 + l, 4)
    &&& f.protocol_version == field(p, 20 + l, 4)
    &&& f.pcm@ == p.subrange(28 + l, p.len() as int)
}

/// Whether a declared payload length is acceptable on the inbound stream.
pub open spec fn payload_length_ok(n: nat) -> bool {
    0 < n <= MAX_BINARY_FRAME_BYTES
}

/// Whether `packet` is a length prefix followed by exactly that many bytes of
/// a well-formed inbound payload whose session id is UTF-8.
pub open spec fn is_inbound_packet(packet: Seq<u8>) -> bool {
    &&& packet.len() >= 4
    &&& payload_length_ok(field(packet, 0, 4))
    &&& packet.len() == 4 + field(packet, 0, 4)
    &&& is_inbound_payload(packet.subrange(4, packet.len() as int))
    &&& valid_utf8(in_sid(packet.subrange(4, packet.len() as int)))
}

/// Checks the length prefix read from the inbound stream: a zero or oversized
/// length ends the connection.
pub fn binary_frame_length_accepted(declared: u32) -> (r: bool)
    ensures
        r == payload_length_ok(declared as nat),
{
    declared > 0 && declared as usize <= MAX_BINARY_FRAME_BYTES
}

/// Reads the length prefix of a packet.
pub fn read_length_prefix(prefix: &[u8]) -> (r: u32)
    requires
        prefix@.len() >= 4,
    ensures
        r as nat == field(prefix@, 0, 4),
{
    proof {
        lemma_le_value_bound(prefix@.subrange(0, 4));
        lemma_pow256_values();
    }
    read_le(prefix, 0, 4) as u32
}

/// Parses an inbound payload (the bytes after the length prefix).
pub fn parse_voice_filter_binary_frame(payload: &[u8]) -> (r: Result<VoiceFilterBinaryFrame, String>)
    ensures
        r.is_ok() <==> is_inbound_payload(payload@) && valid_utf8(in_sid(payload@)),
        r.is_ok() ==> frame_of_payload(r.unwrap(), payload@),
{
    let len = payload.len();
    if len < 2 {
        return Err(String::from_str("Binary voice filter frame is truncated"));
    }
    proof {
        lemma_pow256_values();
        lemma_le_value_bound(payload@.subrange(0, 2));
    }
    let sid_len = read_le(payload, 0, 2) as usize;
    if sid_len == 0 {
        return Err(String::from_str("Binary voice filter frame is missing a session id"));
    }
    if len - 2 < sid_len + 26 {
        return Err(String::from_str("Binary voice filter frame is truncated"));
    }
    let sid_end = 2 + sid_len;
    let sequence = read_le(payload, sid_end, 8);
    let sample_rate = read_le(payload, sid_end + 8, 4);
    let channels = read_le(payload, sid_end + 12, 2);
    let frame_count = read_le(payload, sid_end + 14, 4);
    let protocol_version = read_le(payload, sid_end + 18, 4);
    let pcm_len = read_le(payload, sid_end + 22, 4);
    proof {
        lemma_pow256_values();
        lemma_le_value_bound(payload@.subrange(sid_end + 8, sid_end + 12));
        lemma_le_value_bound(payload@.subrange(sid_end + 12, sid_end + 14));
        lemma_le_value_bound(payload@.subrange(sid_end + 14, sid_end + 18));
        lemma_le_value_bound(payload@.subrange(sid_end + 18, sid_end + 22));
        lemma_le_value_bound(payload@.subrange(sid_end + 22, sid_end + 26));
    }
    if sample_rate == 0 {
        return Err(String::from_str("Binary voice filter frame has a zero sample rate"));
    }
    if channels == 0 || channels > 2 {
        return Err(String::from_str("Binary voice filter frame has an unsupported channel count"));
    }
    if pcm_len == 0 {
        return Err(String::from_str("Binary voice filter frame has no PCM payload"));
    }
    if pcm_len % 4 != 0 {
        return Err(String::from_str("Binary voice filter PCM payload is not f32-aligned"));
    }
    let header_end = sid_end + 26;
    if len - header_end != pcm_len as usize {
        return Err(String::from_str("Binary voice filter frame payload length mismatch"));
    }
    let sid_bytes = copy_range(payload, 2, sid_end);
    let session_id = match string_from_utf8(sid_bytes) {
        Some(s) => s,
        None => {
            return Err(String::from_str("Binary voice filter frame has an invalid UTF-8 session id"));
        },
    };
    let pcm = copy_range(payload, header_end, len);
    Ok(VoiceFilterBinaryFrame {
        session_id,
        sequence,
        sample_rate: sample_rate as usize,
        channels: channels as usize,
        frame_count: frame_count as usize,
        protocol_version: protocol_version as u32,
        pcm,
    })
}

/// Whether the inbound encoder accepts these values: a session id of 1 to
/// 65535 bytes, a positive sample rate, one or two channels, a non-empty whole
/// number of 4-byte samples, and a payload within the size limit.
pub open spec fn inbound_values_ok(sid: Seq<u8>, sample_rate: u32, channels: u16, pcm: Seq<u8>) -> bool {
    &&& 0 < sid.len() <= 0xffff
    &&& sample_rate > 0
    &&& 1 <= channels <= 2
    &&& pcm.len() > 0
    &&& pcm.len() % 4 == 0
    &&& 28 + sid.len() + pcm.len() <= MAX_BINARY_FRAME_BYTES
}

/// Whether the inbound payload `p` carries exactly these values.
pub open spec fn inbound_payload_carries(
    p: Seq<u8>,
    sid: Seq<u8>,
    sequence: u64,
    sample_rate: u32,
    channels: u16,
    frame_count: u32,
    protocol_version: u32,
    pcm: Seq<u8>,
) -> bool {
    let l = sid.len() as int;
    &&& p.len() == 28 + l + pcm.len()
    &&& in_sid_len(p) == l
    &&& in_sid(p) == sid
    &&& field(p, 2 + l, 8) == sequence
    &&& field(p, 10 + l, 4) == sample_rate
    &&& field(p, 14 + l, 2) == channels
    &&& field(p, 16 + l, 4) == frame_count
    &&& field(p, 20 + l, 4) == protocol_version
    &&& field(p, 24 + l, 4) == pcm.len()
    &&& p.subrange(28 + l, p.len() as int) == pcm
}

/// The payload of a packet, after its length prefix.
pub open spec fn packet_payload(packet: Seq<u8>) -> Seq<u8> {
    packet.subrange(4, packet.len() as int)
}

/// Builds an inbound packet (length prefix and payload) for the voice filter,
/// or `None` where the values cannot be framed.
pub fn encode_voice_filter_binary_frame(
    session_id: &str,
    sequence: u64,
    sample_rate: u32,
    channels: u16,
    frame_count: u32,
    protocol_version: u32,
    pcm: &[u8],
) -> (r: Option<Vec<u8>>)
    ensures
        r.is_some() <==> inbound_values_ok(session_id.spec_bytes(), sample_rate, channels, pcm@),
        r.is_some() ==> r.unwrap()@.len() >= 4 && field(r.unwrap()@, 0, 4) == r.unwrap()@.len() - 4
            && inbound_payload_carries(
            packet_payload(r.unwrap()@),
            session_id.spec_bytes(),
            sequence,
            sample_rate,
            channels,
            frame_count,
            protocol_version,
            pcm@,
        ),
{
    let sid = session_id.as_bytes();
    let sid_len = sid.len();
    let pcm_len = pcm.len();
    if sid_len == 0 || sid_len > 0xffff || sample_rate == 0 || channels == 0 || channels > 2
        || pcm_len == 0 || pcm_len % 4 != 0 || pcm_len > MAX_BINARY_FRAME_BYTES
        || 28 + sid_len > MAX_BINARY_FRAME_BYTES - pcm_len {
        return None;
    }
    let payload_len = 28 + sid_len + pcm_len;
    proof {
        lemma_pow256_values();
    }
    let mut packet: Vec<u8> = Vec::new();
    push_le(&mut packet, payload_len as u64, 4);
    push_le(&mut packet, sid_len as u64, 2);
    append_bytes(&mut packet, sid);
    let ghost s1 = packet@;
    push_le(&mut packet, sequence, 8);
    let ghost s2 = packet@;
    push_le(&mut packet, sample_rate as u64, 4);
    let ghost s3 = packet@;
    push_le(&mut packet, channels as u64, 2);
    let ghost s4 = packet@;
    push_le(&mut packet, frame_count as u64, 4);
    let ghost s5 = packet@;
    push_le(&mut packet, protocol_version as u64, 4);
    let ghost s6 = packet@;
    push_le(&mut packet, pcm_len as u64, 4);
    let ghost s7 = packet@;
    append_bytes(&mut packet, pcm);
    proof {
        let p = packet_payload(packet@);
        let l = sid_len as int;
        assert(packet@.len() == 32 + l + pcm_len);
        assert(p.subrange(0, 2) =~= packet@.subrange(4, 6));
        assert(in_sid(p) =~= packet@.subrange(6, 6 + l));
        assert(p.subrange(2 + l, 10 + l) =~= packet@.subrange(6 + l, 14 + l));
        assert(p.subrange(10 + l, 14 + l) =~= packet@.subrange(14 + l, 18 + l));
        assert(p.subrange(14 + l, 16 + l) =~= packet@.subrange(18 + l, 20 + l));
        assert(p.subrange(16 + l, 20 + l) =~= packet@.subrange(20 + l, 24 + l));
        assert(p.subrange(20 + l, 24 + l) =~= packet@.subrange(24 + l, 28 + l));
        assert(p.subrange(24 + l, 28 + l) =~= packet@.subrange(28 + l, 32 + l));
        assert(p.subrange(28 + l, p.len() as int) =~= packet@.subrange(32 + l, packet@.len() as int));
    }
    Some(packet)
}

/// Parses a whole inbound packet: the length prefix must be positive, within
/// the size limit and equal to the number of bytes that follow it.
pub fn parse_voice_filter_binary_packet(packet: &[u8]) -> (r: Result<VoiceFilterBinaryFrame, String>)
    ensures
        r.is_ok() <==> is_inbound_packet(packet@),
        r.is_ok() ==> frame_of_payload(r.unwrap(), packet_payload(packet@)),
{
    let len = packet.len();
    if len < 4 {
        return Err(String::from_str("Binary voice filter packet is truncated"));
    }
    let declared = read_length_prefix(packet);
    if !binary_frame_length_accepted(declared) {
        return Err(String::from_str("Binary voice filter packet has an invalid length"));
    }
    if len - 4 != declared as usize {
        return Err(String::from_str("Binary voice filter packet length does not match its prefix"));
    }
    parse_voice_filter_binary_frame(vstd::slice::slice_subrange(packet, 4, len))
}

/// Whether the outbound encoder accepts these values: session and target ids
/// of 1 to 65535 bytes, a sample rate and frame count of 1 to `u32::MAX`, 1 to
/// `u16::MAX` channels, and a non-empty whole number of 4-byte samples that
/// divides into the channels, in a payload within the size limit.
pub open spec fn outbound_values_ok(
    sid: Seq<u8>,
    tid: Seq<u8>,
    sample_rate: usize,
    channels: usize,
    frame_count: usize,
    pcm: Seq<u8>,
) -> bool {
    &&& 0 < sid.len() <= 0xffff
    &&& 0 < tid.len() <= 0xffff
    &&& 0 < sample_rate <= u32::MAX
    &&& 0 < channels <= u16::MAX
    &&& 0 < frame_count <= u32::MAX
    &&& pcm.len() > 0
    &&& pcm.len() % 4 == 0
    &&& (pcm.len() / 4) % (channels as nat) == 0
    &&& 34 + sid.len() + tid.len() + pcm.len() <= MAX_BINARY_FRAME_BYTES
}

/// Whether the outbound payload `p` carries exactly these values: session id
/// length (2 bytes) and bytes, target id length (2) and bytes, sequence (8),
/// sample rate (4), channels (2), frame count (4), protocol version (4),
/// dropped frame count (4), PCM length (4) and the PCM bytes.
pub open spec fn outbound_payload_carries(
    p: Seq<u8>,
    sid: Seq<u8>,
    tid: Seq<u8>,
    sequence: u64,
    sample_rate: usize,
    channels: usize,
    frame_count: usize,
    protocol_version: u32,
    dropped_frame_count: u32,
    pcm: Seq<u8>,
) -> bool {
    let l = sid.len() as int;
    let m = l + tid.len();
    &&& p.len() == 34 + m + pcm.len()
    &&& field(p, 0, 2) == l
    &&& p.subrange(2, 2 + l) == sid
    &&& field(p, 2 + l, 2) == tid.len()
    &&& p.subrange(4 + l, 4 + m) == tid
    &&& field(p, 4 + m, 8) == sequence
    &&& field(p, 12 + m, 4) == sample_rate
    &&& field(p, 16 + m, 2) == channels
    &&& field(p, 18 + m, 4) == frame_count
    &&& field(p, 22 + m, 4) == protocol_version
    &&& field(p, 26 + m, 4) == dropped_frame_count
    &&& field(p, 30 + m, 4) == pcm.len()
    &&& p.subrange(34 + m, p.len() as int) == pcm
}

#[verifier::rlimit(100)]
/// Builds an outbound loopback packet (length prefix and payload), or `None`
/// where the values cannot be framed.
pub fn encode_app_audio_binary_frame(
    session_id: &str,
    target_id: &str,
    sequence: u64,
    sample_rate: usize,
    channels: usize,
    frame_count: usize,
    protocol_version: u32,
    dropped_frame_count: u32,
    pcm: &[u8],
) -> (r: Option<Vec<u8>>)
    ensures
        r.is_some() <==> outbound_values_ok(
            session_id.spec_bytes(),
            target_id.spec_bytes(),
            sample_rate,
            channels,
            frame_count,
            pcm@,
        ),
        r.is_some() ==> r.unwrap()@.len() >= 4 && field(r.unwrap()@, 0, 4) == r.unwrap()@.len() - 4
            && outbound_payload_carries(
            packet_payload(r.unwrap()@),
            session_id.spec_bytes(),
            target_id.spec_bytes(),
            sequence,
            sample_rate,
            channels,
            frame_count,
            protocol_version,
            dropped_frame_count,
            pcm@,
        ),
{
    let sid = session_id.as_bytes();
    let tid = target_id.as_bytes();
    let sid_len = sid.len();
    let tid_len = tid.len();
    let pcm_len = pcm.len();
    if sid_len == 0 || sid_len > 0xffff || tid_len == 0 || tid_len > 0xffff {
        return None;
    }
    if sample_rate == 0 || sample_rate > 0xffff_ffff || channels == 0 || channels > 0xffff {
        return None;
    }
    if frame_count == 0 || frame_count > 0xffff_ffff {
        return None;
    }
    if pcm_len == 0 || pcm_len % 4 != 0 || (pcm_len / 4) % channels != 0 {
        return None;
    }
    if pcm_len > MAX_BINARY_FRAME_BYTES || 34 + sid_len + tid_len > MAX_BINARY_FRAME_BYTES - pcm_len {
        return None;
    }
    let payload_len = 34 + sid_len + tid_len + pcm_len;
    proof {
        lemma_pow256_values();
    }
    let mut packet: Vec<u8> = Vec::new();
    push_le(&mut packet, payload_len as u64, 4);
    push_le(&mut packet, sid_len as u64, 2);
    append_bytes(&mut packet, sid);
    push_le(&mut packet, tid_len as u64, 2);
    append_bytes(&mut packet, tid);
    push_le(&mut packet, sequence, 8);
    push_le(&mut packet, sample_rate as u64, 4);
    push_le(&mut packet, channels as u64, 2);
    push_le(&mut packet, frame_count as u64, 4);
    push_le(&mut packet, protocol_version as u64, 4);
    push_le(&mut packet, dropped_frame_count as u64, 4);
    push_le(&mut packet, pcm_len as u64, 4);
    append_bytes(&mut packet, pcm);
    proof {
        let p = packet_payload(packet@);
        let l = sid_len as int;
        let m = l + tid_len;
        assert(p.subrange(0, 2) =~= packet@.subrange(4, 6));
        assert(p.subrange(2, 2 + l) =~= packet@.subrange(6, 6 + l));
        assert(p.subrange(2 + l, 4 + l) =~= packet@.subrange(6 + l, 8 + l));
        assert(p.subrange(4 + l, 4 + m) =~= packet@.subrange(8 + l, 8 + m));
        assert(p.subrange(4 + m, 12 + m) =~= packet@.subrange(8 + m, 16 + m));
        assert(p.subrange(12 + m, 16 + m) =~= packet@.subrange(16 + m, 20 + m));
        assert(p.subrange(16 + m, 18 + m) =~= packet@.subrange(20 + m, 22 + m));
        assert(p.subrange(18 + m, 22 + m) =~= packet@.subrange(22 + m, 26 + m));
        assert(p.subrange(22 + m, 26 + m) =~= packet@.subrange(26 + m, 30 + m));
        assert(p.subrange(26 + m, 30 + m) =~= packet@.subrange(30 + m, 34 + m));
        assert(p.subrange(30 + m, 34 + m) =~= packet@.subrange(34 + m, 38 + m));
        assert(p.subrange(34 + m, p.len() as int) =~= packet@.subrange(38 + m, packet@.len() as int));
    }
    Some(packet)
}

/// Encoding an inbound frame and parsing the packet back gives every header
/// field, the session id and every PCM byte unchanged.
pub proof fn lemma_inbound_round_trip(
    packet: Seq<u8>,
    session_id: Seq<char>,
    sequence: u64,
    sample_rate: u32,
    channels: u16,
    frame_count: u32,
    protocol_version: u32,
    pcm: Seq<u8>,
    parsed: VoiceFilterBinaryFrame,
)
    requires
        inbound_values_ok(encode_utf8(session_id), sample_rate, channels, pcm),
        packet.len() >= 4,
        field(packet, 0, 4) == packet.len() - 4,
        inbound_payload_carries(
            packet_payload(packet),
            encode_utf8(session_id),
            sequence,
            sample_rate,
            channels,
            frame_count,
            protocol_version,
            pcm,
        ),
    ensures
        is_inbound_packet(packet),
        frame_of_payload(parsed, packet_payload(packet)) ==> {
            &&& parsed.session_id@ == session_id
            &&& parsed.sequence == sequence
            &&& parsed.sample_rate == sample_rate
            &&& parsed.channels == channels
            &&& parsed.frame_count == frame_count
            &&& parsed.protocol_version == protocol_version
            &&& parsed.pcm@ == pcm
        },
{
    vstd::utf8::encode_utf8_valid_utf8(session_id);
    vstd::utf8::encode_utf8_decode_utf8(session_id);
}

} // verus!
