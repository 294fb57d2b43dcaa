use base64::Engine as _;
use ed25519_dalek::{Signer, SigningKey};
use jarvisd::signing::{decode_fixed, key_fingerprint, parse_public_key, verify};

fn encode(bytes: &[u8]) -> String {
    base64::engine::general_purpose::STANDARD.encode(bytes)
}

#[test]
fn a_signature_over_the_nonce_verifies_and_nothing_else_does() {
    let key = SigningKey::from_bytes(&[7u8; 32]);
    let public = encode(key.verifying_key().as_bytes());
    let parsed = parse_public_key(&public).expect("a real key");
    assert_eq!(parsed, key.verifying_key().as_bytes().to_vec());
    let nonce = vec![1u8; 32];
    let signature = key.sign(&nonce).to_bytes().to_vec();
    assert!(verify(&parsed, &nonce, &signature));
    assert!(!verify(&parsed, &vec![2u8; 32], &signature));
    let mut damaged = signature.clone();
    damaged[0] ^= 1;
    assert!(!verify(&parsed, &nonce, &damaged));
    let other = SigningKey::from_bytes(&[8u8; 32]);
    assert!(!verify(&other.verifying_key().as_bytes().to_vec(), &nonce, &signature));
}

#[test]
fn keys_that_are_no_keys_are_refused() {
    assert!(parse_public_key("not base64!").is_none());
    assert!(parse_public_key(&encode(&[1u8; 31])).is_none());
    // A point of small order.
    let mut identity = [0u8; 32];
    identity[0] = 1;
    assert!(parse_public_key(&encode(&identity)).is_none());
    // Not on the curve.
    let mut off = [0u8; 32];
    off[0] = 2;
    assert!(parse_public_key(&encode(&off)).is_none());
    assert_eq!(decode_fixed(&encode(&[1, 2, 3]), 3), Some(vec![1, 2, 3]));
    assert_eq!(decode_fixed(&encode(&[1, 2, 3]), 4), None);
}

#[test]
fn fingerprints_tell_keys_apart() {
    let a = encode(SigningKey::from_bytes(&[7u8; 32]).verifying_key().as_bytes());
    let b = encode(SigningKey::from_bytes(&[8u8; 32]).verifying_key().as_bytes());
    assert_ne!(key_fingerprint(&a), key_fingerprint(&b));
    assert_eq!(key_fingerprint(&a), key_fingerprint(&a));
    assert_ne!(key_fingerprint(&a), a);
}
