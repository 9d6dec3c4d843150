//! The outside cryptography and encodings: HMAC-SHA256, constant-time comparison, operating
//! system randomness and URL-safe base64.

use base64::Engine;
use subtle::ConstantTimeEq;
use vstd::prelude::*;

verus! {

/// The longest HMAC key: its length in bits fits in 64 bits.
pub const MAX_KEY_BYTES: u64 = 0x1fff_ffff_ffff_ffff;

/// The longest signed message: with one block of 64 bytes ahead of it, its length in bits fits
/// in 64 bits.
pub const MAX_SIGNED_BYTES: u64 = 0x1fff_ffff_ffff_ffbf;

/// The HMAC-SHA256 of a message under a key.
pub uninterp spec fn hmac_sha256(key: Seq<u8>, message: Seq<u8>) -> Seq<u8>;

/// The error of a failed verification, which tells nothing.
#[verifier::external_type_specification]
#[verifier::external_body]
pub struct ExUnspecified(ring::error::Unspecified);

/// `ring::hmac::sign` with `HMAC_SHA256`. The contract claims that the tag is determined by key
/// and message, and that it has 32 bytes. A longer key or message would make ring panic.
#[verifier::external_body]
pub(crate) fn hmac_sign(key: &[u8], message: &[u8]) -> (tag: Vec<u8>)
    requires
        key@.len() <= MAX_KEY_BYTES,
        message@.len() <= MAX_SIGNED_BYTES,
    ensures
        tag@ == hmac_sha256(key@, message@),
        tag@.len() == 32,
{
    let key = ring::hmac::Key::new(ring::hmac::HMAC_SHA256, key);
    ring::hmac::sign(&key, message).as_ref().to_vec()
}

/// Whether a tag is the HMAC-SHA256 of a message that is short enough to be signed.
pub open spec fn signed_by(key: Seq<u8>, message: Seq<u8>, tag: Seq<u8>) -> bool {
    message.len() <= MAX_SIGNED_BYTES && tag == hmac_sha256(key, message)
}

/// `ring::hmac::verify` with `HMAC_SHA256`. The contract claims that it accepts exactly the tag
/// that signing gives, and nothing for a message that is too long to sign. A longer key would make
/// ring panic.
#[verifier::external_body]
pub(crate) fn hmac_verify(
    key: &[u8],
    message: &[u8],
    tag: &[u8],
) -> (verified: Result<(), ring::error::Unspecified>)
    requires
        key@.len() <= MAX_KEY_BYTES,
    ensures
        verified.is_ok() == signed_by(key@, message@, tag@),
{
    let key = ring::hmac::Key::new(ring::hmac::HMAC_SHA256, key);
    ring::hmac::verify(&key, message, tag)
}

/// `ConstantTimeEq::ct_eq` of the subtle crate on byte slices. The contract claims that it tells
/// whether both hold the same bytes; that it takes the same time for all slices of one length is
/// not stated.
#[verifier::external_body]
pub(crate) fn bytes_ct_eq(left: &[u8], right: &[u8]) -> (same: bool)
    ensures
        same == (left@ == right@),
{
    bool::from(left.ct_eq(right))
}

/// The error of the operating system's random generator.
#[verifier::external_type_specification]
#[verifier::external_body]
pub struct ExRandomError(getrandom::Error);

/// `getrandom::fill` on a buffer of the given length. The contract claims the length of what
/// comes back; the bytes are random.
#[verifier::external_body]
pub(crate) fn random_bytes(count: usize) -> (random: Result<Vec<u8>, getrandom::Error>)
    requires
        count <= usize::MAX / 4,
    ensures
        random matches Ok(bytes) ==> bytes@.len() == count,
{
    let mut bytes = vec![0_u8; count];
    getrandom::fill(&mut bytes)?;
    Ok(bytes)
}

/// The random generator was asked for so many bytes, and this is what it gave: bytes, or nothing
/// where it failed.
pub closed spec fn random_reading(count: usize, drawn: Option<Seq<u8>>) -> bool {
    exists|random: Result<Vec<u8>, getrandom::Error>| #[trigger]
        call_ensures(random_bytes, (count,), random) && drawn == match random {
            Ok(bytes) => Some(bytes@),
            Err(_) => None,
        }
}

/// Asks the random generator for so many bytes.
pub(crate) fn draw_bytes(count: usize) -> (drawn: Option<Vec<u8>>)
    requires
        count <= usize::MAX / 4,
    ensures
        drawn matches Some(bytes) ==> bytes@.len() == count,
        random_reading(
            count,
            match drawn {
                Some(bytes) => Some(bytes@),
                None => None,
            },
        ),
{
    match random_bytes(count) {
        Ok(bytes) => Some(bytes),
        Err(_) => None,
    }
}

/// The URL-safe base64 text of some bytes, without padding.
pub uninterp spec fn base64_url(bytes: Seq<u8>) -> Seq<char>;

/// The bytes that a URL-safe base64 text without padding stands for, if it is one.
pub uninterp spec fn base64_url_decoded(text: Seq<char>) -> Option<Seq<u8>>;

/// A character of the URL-safe alphabet.
pub open spec fn url_safe(c: char) -> bool {
    'A' <= c <= 'Z' || 'a' <= c <= 'z' || '0' <= c <= '9' || c == '-' || c == '_'
}

/// The number of characters that encode some bytes: four for three, and one more than its length
/// for a shorter rest.
pub open spec fn encoded_len(bytes: int) -> int {
    bytes / 3 * 4 + if bytes % 3 == 0 {
        0
    } else {
        bytes % 3 + 1
    }
}

/// A text of the URL-safe alphabet that is as long as the encoding of so many bytes.
pub open spec fn url_text(text: Seq<char>, bytes: int) -> bool {
    text.len() == encoded_len(bytes) && forall|i: int|
        0 <= i < text.len() ==> url_safe(#[trigger] text[i])
}

/// Why a text is not base64.
#[verifier::external_type_specification]
#[verifier::external_body]
pub struct ExDecodeError(base64::DecodeError);

/// `Engine::encode` of `base64::engine::general_purpose::URL_SAFE_NO_PAD`. The contract claims
/// that the text is determined by the bytes, has the encoded length, uses the URL-safe alphabet
/// only, and decodes to the bytes again.
#[verifier::external_body]
pub(crate) fn base64_encode(bytes: &[u8]) -> (text: String)
    requires
        bytes@.len() <= usize::MAX / 4,
    ensures
        text@ == base64_url(bytes@),
        url_text(text@, bytes@.len() as int),
        base64_url_decoded(text@) == Some(bytes@),
{
    base64::engine::general_purpose::URL_SAFE_NO_PAD.encode(bytes)
}

/// `Engine::decode` of `base64::engine::general_purpose::URL_SAFE_NO_PAD`. The contract claims
/// that the outcome is determined by the text, and that only the canonical text of some bytes
/// decodes to them: other characters, padding and stray trailing bits are errors.
#[verifier::external_body]
pub(crate) fn base64_decode(text: &str) -> (decoded: Result<Vec<u8>, base64::DecodeError>)
    ensures
        match decoded {
            Ok(bytes) => base64_url_decoded(text@) == Some(bytes@) && base64_url(bytes@) == text@
                && url_text(text@, bytes@.len() as int),
            Err(_) => base64_url_decoded(text@) is None,
        },
{
    base64::engine::general_purpose::URL_SAFE_NO_PAD.decode(text)
}

} // verus!
