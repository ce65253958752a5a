//! PCM carried as base64 text inside JSON events: 32-bit float samples,
//! little-endian, interleaved.
use vstd::prelude::*;

verus! {

/// The standard (padded) base64 text of the bytes `b`.
pub uninterp spec fn base64_text(b: Seq<u8>) -> Seq<char>;

/// The bytes that the standard (padded) base64 text `s` stands for, or `None`
/// where `s` is not such text.
pub uninterp spec fn base64_bytes(s: Seq<char>) -> Option<Seq<u8>>;

/// Relies on base64's `Engine::encode` with the `STANDARD` engine, which
/// depends on the bytes alone (it panics only when the output length
/// overflows `usize`), and whose output `Engine::decode` with the same engine
/// turns back into the same bytes.
#[verifier::external_body]
fn base64_encode(b: &[u8]) -> (r: String)
    requires
        b@.len() <= usize::MAX / 2,
    ensures
        r@ == base64_text(b@),
        base64_bytes(r@) == Some(b@),
{
    base64::Engine::encode(&base64::engine::general_purpose::STANDARD, b)
}

/// Relies on base64's `Engine::decode` with the `STANDARD` engine, which
/// depends on the text alone.
#[verifier::external_body]
fn base64_decode(s: &str) -> (r: Option<Vec<u8>>)
    ensures
        r.is_some() == base64_bytes(s@).is_some(),
        r.is_some() ==> r.unwrap()@ == base64_bytes(s@).unwrap(),
{
    base64::Engine::decode(&base64::engine::general_purpose::STANDARD, s).ok()
}

/// Encodes PCM bytes as base64 text for a frame event.
pub fn encode_f32le_base64(pcm: &[u8]) -> (r: String)
    requires
        pcm@.len() <= usize::MAX / 2,
    ensures
        r@ == base64_text(pcm@),
        base64_bytes(r@) == Some(pcm@),
{
    base64_encode(pcm)
}

/// Decodes the base64 PCM of a pushed frame into its little-endian sample
/// bytes; fails where the text is not base64 or the bytes are not a whole
/// number of 4-byte samples.
pub fn decode_f32le_base64(pcm_base64: &str) -> (r: Result<Vec<u8>, String>)
    ensures
        r.is_ok() <==> base64_bytes(pcm_base64@).is_some() && base64_bytes(pcm_base64@).unwrap().len()
            % 4 == 0,
        r.is_ok() ==> r.unwrap()@ == base64_bytes(pcm_base64@).unwrap(),
{
    match base64_decode(pcm_base64) {
        None => Err(String::from_str("Failed to decode PCM base64")),
        Some(bytes) => {
            if bytes.len() % 4 != 0 {
                Err(String::from_str("Invalid PCM byte length"))
            } else {
                Ok(bytes)
            }
        },
    }
}

/// Decoding the text that encoding gave for a whole number of samples gives
/// back exactly the same bytes.
pub proof fn lemma_pcm_round_trip(pcm: Seq<u8>, text: Seq<char>)
    requires
        base64_bytes(text) == Some(pcm),
        pcm.len() % 4 == 0,
    ensures
        base64_bytes(text).is_some() && base64_bytes(text).unwrap().len() % 4 == 0,
        base64_bytes(text).unwrap() == pcm,
{
}

} // verus!
