use capture_sidecar::frame::{
    binary_frame_length_accepted, encode_app_audio_binary_frame, encode_voice_filter_binary_frame,
    parse_voice_filter_binary_frame, parse_voice_filter_binary_packet, read_length_prefix,
    MAX_BINARY_FRAME_BYTES,
};

fn pcm_of(samples: &[f32]) -> Vec<u8> {
    samples.iter().flat_map(|s| s.to_le_bytes()).collect()
}

#[test]
fn inbound_frame_round_trips() {
    let pcm = pcm_of(&[0.25, -0.5, 1.0, -1.0]);
    let packet = encode_voice_filter_binary_frame("session-1", 42, 48000, 2, 2, 1, &pcm).unwrap();
    assert_eq!(read_length_prefix(&packet) as usize, packet.len() - 4);
    let frame = parse_voice_filter_binary_packet(&packet).unwrap();
    assert_eq!(frame.session_id, "session-1");
    assert_eq!(frame.sequence, 42);
    assert_eq!(frame.sample_rate, 48000);
    assert_eq!(frame.channels, 2);
    assert_eq!(frame.frame_count, 2);
    assert_eq!(frame.protocol_version, 1);
    assert_eq!(frame.pcm, pcm);
}

#[test]
fn inbound_layout_is_little_endian() {
    let packet = encode_voice_filter_binary_frame("ab", 0x0102030405060708, 48000, 1, 1, 1, &[1, 2, 3, 4]).unwrap();
    let expected: Vec<u8> = [
        &34u32.to_le_bytes()[..],
        &2u16.to_le_bytes(),
        b"ab",
        &0x0102030405060708u64.to_le_bytes(),
        &48000u32.to_le_bytes(),
        &1u16.to_le_bytes(),
        &1u32.to_le_bytes(),
        &1u32.to_le_bytes(),
        &4u32.to_le_bytes(),
        &[1, 2, 3, 4],
    ]
    .concat();
    assert_eq!(packet, expected);
}

#[test]
fn declared_length_longer_than_payload_is_rejected() {
    let pcm = vec![0u8; 1020 - 28 - 4];
    let packet = encode_voice_filter_binary_frame("abcd", 1, 48000, 1, 247, 1, &pcm).unwrap();
    assert_eq!(packet.len(), 4 + 1020);
    let mut lying = packet.clone();
    lying[..4].copy_from_slice(&1024u32.to_le_bytes());
    assert!(parse_voice_filter_binary_packet(&lying).is_err());
    assert!(parse_voice_filter_binary_packet(&packet).is_ok());
}

#[test]
fn inbound_parser_rejects_bad_headers() {
    let pcm = pcm_of(&[0.0, 0.0]);
    let good = encode_voice_filter_binary_frame("s", 0, 48000, 1, 2, 1, &pcm).unwrap();
    let payload = &good[4..];
    assert!(parse_voice_filter_binary_frame(payload).is_ok());
    // zero-length session id
    let mut no_id = payload.to_vec();
    no_id[0] = 0;
    assert!(parse_voice_filter_binary_frame(&no_id).is_err());
    // truncated
    assert!(parse_voice_filter_binary_frame(&payload[..payload.len() - 1]).is_err());
    assert!(parse_voice_filter_binary_frame(&payload[..1]).is_err());
    // zero sample rate: bytes 11..15 after a 1-byte id
    let mut zero_rate = payload.to_vec();
    zero_rate[11..15].copy_from_slice(&0u32.to_le_bytes());
    assert!(parse_voice_filter_binary_frame(&zero_rate).is_err());
    // three channels
    let mut three = payload.to_vec();
    three[15..17].copy_from_slice(&3u16.to_le_bytes());
    assert!(parse_voice_filter_binary_frame(&three).is_err());
    // PCM length not a multiple of 4
    let mut odd = payload.to_vec();
    odd.pop();
    odd[25..29].copy_from_slice(&7u32.to_le_bytes());
    assert!(parse_voice_filter_binary_frame(&odd).is_err());
    // session id that is not UTF-8
    let mut bad_utf8 = payload.to_vec();
    bad_utf8[2] = 0xff;
    assert!(parse_voice_filter_binary_frame(&bad_utf8).is_err());
}

#[test]
fn inbound_encoder_refuses_unframeable_values() {
    let pcm = pcm_of(&[0.0]);
    assert!(encode_voice_filter_binary_frame("", 0, 48000, 1, 1, 1, &pcm).is_none());
    assert!(encode_voice_filter_binary_frame("s", 0, 0, 1, 1, 1, &pcm).is_none());
    assert!(encode_voice_filter_binary_frame("s", 0, 48000, 3, 1, 1, &pcm).is_none());
    assert!(encode_voice_filter_binary_frame("s", 0, 48000, 1, 1, 1, &[]).is_none());
    assert!(encode_voice_filter_binary_frame("s", 0, 48000, 1, 1, 1, &[0, 0, 0]).is_none());
}

#[test]
fn frame_length_limits() {
    assert!(!binary_frame_length_accepted(0));
    assert!(binary_frame_length_accepted(1));
    assert!(binary_frame_length_accepted(MAX_BINARY_FRAME_BYTES as u32));
    assert!(!binary_frame_length_accepted(MAX_BINARY_FRAME_BYTES as u32 + 1));
}

#[test]
fn outbound_frame_layout() {
    let pcm = pcm_of(&[0.5, -0.5]);
    let packet =
        encode_app_audio_binary_frame("sid", "pid:9", 7, 48000, 2, 1, 1, 3, &pcm).unwrap();
    let expected: Vec<u8> = [
        &(34u32 + 3 + 5 + 8).to_le_bytes()[..],
        &3u16.to_le_bytes(),
        b"sid",
        &5u16.to_le_bytes(),
        b"pid:9",
        &7u64.to_le_bytes(),
        &48000u32.to_le_bytes(),
        &2u16.to_le_bytes(),
        &1u32.to_le_bytes(),
        &1u32.to_le_bytes(),
        &3u32.to_le_bytes(),
        &8u32.to_le_bytes(),
        &pcm,
    ]
    .concat();
    assert_eq!(packet, expected);
}

#[test]
fn outbound_encoder_refuses_unframeable_values() {
    let pcm = pcm_of(&[0.5, -0.5, 0.25]);
    assert!(encode_app_audio_binary_frame("sid", "t", 0, 48000, 2, 1, 1, 0, &pcm).is_none());
    assert!(encode_app_audio_binary_frame("", "t", 0, 48000, 1, 3, 1, 0, &pcm).is_none());
    assert!(encode_app_audio_binary_frame("sid", "", 0, 48000, 1, 3, 1, 0, &pcm).is_none());
    assert!(encode_app_audio_binary_frame("sid", "t", 0, 0, 1, 3, 1, 0, &pcm).is_none());
    assert!(encode_app_audio_binary_frame("sid", "t", 0, 48000, 1, 0, 1, 0, &pcm).is_none());
    assert!(encode_app_audio_binary_frame("sid", "t", 0, 48000, 1, 3, 1, 0, &[]).is_none());
    assert!(encode_app_audio_binary_frame("sid", "t", 0, 48000, 1, 3, 1, 0, &pcm).is_some());
}
