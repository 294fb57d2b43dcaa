//! Base64 texts, Ed25519 public keys and signatures.

use vstd::prelude::*;

use crate::text;

verus! {

/// The bytes that a padded standard Base64 text stands for, where it is one.
pub uninterp spec fn base64_decoded(s: Seq<char>) -> Option<Seq<u8>>;

/// `base64::engine::general_purpose::STANDARD.decode`. Which texts decode, and
/// to what, is not stated.
#[verifier::external_body]
fn base64_decode(s: &str) -> (r: Option<Vec<u8>>)
    ensures
        match r {
            Some(bytes) => base64_decoded(s@) == Some(bytes@),
            None => base64_decoded(s@) is None,
        },
{
    base64::Engine::decode(&base64::engine::general_purpose::STANDARD, s).ok()
}

/// The padded standard Base64 text of a byte string.
pub uninterp spec fn base64_text(bytes: Seq<u8>) -> Seq<char>;

/// `base64::engine::general_purpose::STANDARD.encode`. What it writes, `decode`
/// of the same engine reads back. The size is kept where its own length
/// calculation cannot overflow.
#[verifier::external_body]
pub(crate) fn base64_encode(bytes: &[u8]) -> (s: String)
    requires
        bytes@.len() <= 0x1000_0000,
    ensures
        s@ == base64_text(bytes@),
        base64_decoded(s@) == Some(bytes@),
{
    base64::Engine::encode(&base64::engine::general_purpose::STANDARD, bytes)
}

/// The bytes of a Base64 text that stands for exactly `n` of them.
pub open spec fn fixed_bytes(s: Seq<char>, n: nat) -> Option<Seq<u8>> {
    match base64_decoded(s) {
        Some(bytes) => if bytes.len() == n {
            Some(bytes)
        } else {
            None
        },
        None => None,
    }
}

pub fn decode_fixed(s: &str, n: usize) -> (r: Option<Vec<u8>>)
    ensures
        match r {
            Some(bytes) => fixed_bytes(s@, n as nat) == Some(bytes@) && bytes@.len() == n,
            None => fixed_bytes(s@, n as nat) is None,
        },
{
    match base64_decode(s) {
        Some(bytes) => if bytes.len() == n {
            Some(bytes)
        } else {
            None
        },
        None => None,
    }
}

/// Whether thirty-two bytes are the compressed form of a point on the curve.
pub uninterp spec fn is_curve_point(bytes: Seq<u8>) -> bool;

/// `ed25519_dalek::VerifyingKey::from_bytes`: whether the bytes decompress to a
/// point. Which ones do is not stated.
#[verifier::external_body]
fn curve_point(bytes: &[u8]) -> (b: bool)
    requires
        bytes@.len() == 32,
    ensures
        b == is_curve_point(bytes@),
{
    let key: &[u8; 32] = bytes.try_into().expect("thirty-two bytes");
    ed25519_dalek::VerifyingKey::from_bytes(key).is_ok()
}

/// Whether the point that thirty-two bytes decompress to has a small order.
pub uninterp spec fn is_small_order(bytes: Seq<u8>) -> bool;

/// `ed25519_dalek::VerifyingKey::is_weak`: whether the key has a small order, so
/// that a signature could be made that fits almost any message. Which keys do is
/// not stated.
#[verifier::external_body]
fn small_order(bytes: &[u8]) -> (b: bool)
    requires
        bytes@.len() == 32,
        is_curve_point(bytes@),
    ensures
        b == is_small_order(bytes@),
{
    let key: &[u8; 32] = bytes.try_into().expect("thirty-two bytes");
    ed25519_dalek::VerifyingKey::from_bytes(key).expect("a point").is_weak()
}

/// Whether a signature of a message fits a key.
pub uninterp spec fn signature_fits(key: Seq<u8>, message: Seq<u8>, signature: Seq<u8>) -> bool;

/// `ed25519_dalek::VerifyingKey::verify_strict`, over a key and a signature made
/// from their bytes; `false` where the key is no point of the curve. Which
/// signatures fit is not stated.
#[verifier::external_body]
fn strictly_verifies(key: &[u8], message: &[u8], signature: &[u8]) -> (b: bool)
    requires
        key@.len() == 32,
        signature@.len() == 64,
    ensures
        b == signature_fits(key@, message@, signature@),
        b ==> is_curve_point(key@),
{
    let key: &[u8; 32] = key.try_into().expect("thirty-two bytes");
    let signature: &[u8; 64] = signature.try_into().expect("sixty-four bytes");
    let signature = ed25519_dalek::Signature::from_bytes(signature);
    match ed25519_dalek::VerifyingKey::from_bytes(key) {
        Ok(key) => key.verify_strict(message, &signature).is_ok(),
        Err(_) => false,
    }
}

/// Whether the `y` coordinate in thirty-two bytes, lowest first and without the
/// sign bit, is below the field's prime `2^255 - 19`.
pub open spec fn is_canonical(bytes: Seq<u8>) -> bool {
    !(bytes[31] % 128 == 127 && bytes[0] >= 237 && forall|i: int|
        1 <= i < 31 ==> #[trigger] bytes[i] == 255)
}

fn canonical(bytes: &[u8]) -> (b: bool)
    requires
        bytes@.len() == 32,
    ensures
        b == is_canonical(bytes@),
{
    if bytes[31] % 128 != 127 || bytes[0] < 237 {
        return true;
    }
    let mut i: usize = 1;
    while i < 31
        invariant
            1 <= i <= 31,
            bytes@.len() == 32,
            forall|k: int| 1 <= k < i ==> #[trigger] bytes@[k] == 255,
        decreases 31 - i,
    {
        if bytes[i] != 255 {
            return true;
        }
        i = i + 1;
    }
    false
}

/// Whether thirty-two bytes are a key that may be registered: a canonical point
/// of the curve that is not of small order.
pub open spec fn is_sound_key(bytes: Seq<u8>) -> bool {
    is_canonical(bytes) && is_curve_point(bytes) && !is_small_order(bytes)
}

/// The key in a Base64 text, where it is one that may be registered.
pub open spec fn public_key_of(raw: Seq<char>) -> Option<Seq<u8>> {
    match fixed_bytes(raw, 32) {
        Some(bytes) => if is_sound_key(bytes) {
            Some(bytes)
        } else {
            None
        },
        None => None,
    }
}

/// Rejects non-canonical and small-order points, so that a node cannot register
/// a key whose signatures anyone could forge.
pub fn parse_public_key(raw: &str) -> (r: Option<Vec<u8>>)
    ensures
        match r {
            Some(bytes) => public_key_of(raw@) == Some(bytes@) && bytes@.len() == 32,
            None => public_key_of(raw@) is None,
        },
{
    match decode_fixed(raw, 32) {
        Some(bytes) => if canonical(bytes.as_slice()) && curve_point(bytes.as_slice())
            && !small_order(bytes.as_slice()) {
            Some(bytes)
        } else {
            None
        },
        None => None,
    }
}

/// Whether a Base64 signature of `nonce` fits a Base64 key.
pub open spec fn proves(key: Seq<char>, nonce: Seq<u8>, signature: Seq<char>) -> bool {
    match (fixed_bytes(key, 32), fixed_bytes(signature, 64)) {
        (Some(k), Some(s)) => signature_fits(k, nonce, s),
        _ => false,
    }
}

/// Whether the signature over `nonce` fits; both come as their bytes.
pub fn verify(key: &Vec<u8>, nonce: &Vec<u8>, signature: &Vec<u8>) -> (b: bool)
    requires
        key@.len() == 32,
        signature@.len() == 64,
    ensures
        b == signature_fits(key@, nonce@, signature@),
{
    strictly_verifies(key.as_slice(), nonce.as_slice(), signature.as_slice())
}

/// The first sixteen hexadecimal digits of the digest of a key's text: enough to
/// compare, short enough to read aloud.
pub open spec fn fingerprint_of_key(public_key_b64: Seq<char>) -> Seq<char> {
    crate::digest::text_digest_of(public_key_b64).take(16)
}

pub fn key_fingerprint(public_key_b64: &str) -> (f: String)
    ensures
        f@ == fingerprint_of_key(public_key_b64@),
        f@.len() == 16,
{
    let digits = text::chars_of(crate::digest::text_digest(public_key_b64).as_str());
    let mut short: Vec<char> = Vec::new();
    let mut i: usize = 0;
    while i < 16
        invariant
            i <= 16,
            digits@.len() == 64,
            short@ == digits@.take(i as int),
        decreases 16 - i,
    {
        short.push(digits[i]);
        i = i + 1;
    }
    text::from_chars(&short)
}

/// A key and a signature are texts that decode to the right number of bytes. A
/// signature proves a key exactly where both do and the signature fits the nonce
/// under the key; a public key is one exactly where its bytes are sound.
pub proof fn law_keys_and_signatures_have_their_length(
    key: Seq<char>,
    nonce: Seq<u8>,
    signature: Seq<char>,
    n: nat,
)
    ensures
        fixed_bytes(key, n) is Some <==> (base64_decoded(key) matches Some(bytes) && bytes.len() == n),
        fixed_bytes(key, n) matches Some(bytes) ==> base64_decoded(key) == Some(bytes),
        public_key_of(key) is Some <==> (base64_decoded(key) matches Some(bytes) && bytes.len() == 32
            && is_canonical(bytes) && is_curve_point(bytes) && !is_small_order(bytes)),
        public_key_of(key) matches Some(bytes) ==> base64_decoded(key) == Some(bytes),
        proves(key, nonce, signature) <==> (base64_decoded(key) matches Some(k) && (base64_decoded(
            signature,
        ) matches Some(s) && k.len() == 32 && s.len() == 64 && signature_fits(k, nonce, s))),
{
}

} // verus!
