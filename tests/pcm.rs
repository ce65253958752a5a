use capture_sidecar::pcm::{decode_f32le_base64, encode_f32le_base64};

#[test]
fn base64_round_trip_is_bitwise() {
    let samples = [0.0f32, -0.0, 1.0, -1.0, 0.123456, f32::MIN_POSITIVE, 3.5e-12];
    let bytes: Vec<u8> = samples.iter().flat_map(|s| s.to_le_bytes()).collect();
    let text = encode_f32le_base64(&bytes);
    let decoded = decode_f32le_base64(&text).unwrap();
    assert_eq!(decoded, bytes);
    let back: Vec<u32> = decoded
        .chunks_exact(4)
        .map(|c| f32::from_le_bytes([c[0], c[1], c[2], c[3]]).to_bits())
        .collect();
    let original: Vec<u32> = samples.iter().map(|s| s.to_bits()).collect();
    assert_eq!(back, original);
}

#[test]
fn base64_known_value() {
    assert_eq!(encode_f32le_base64(&1.0f32.to_le_bytes()), "AACAPw==");
    assert_eq!(decode_f32le_base64("AACAPw==").unwrap(), 1.0f32.to_le_bytes().to_vec());
    assert_eq!(encode_f32le_base64(&[]), "");
}

#[test]
fn base64_decode_errors() {
    assert!(decode_f32le_base64("not base64!").is_err());
    // three bytes: not a whole sample
    assert!(decode_f32le_base64("AAAA").is_err());
}
