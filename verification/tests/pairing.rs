use base64::Engine as _;
use ed25519_dalek::{Signer, SigningKey};
use jarvisd::identity::{DeviceClass, DeviceContext};
use jarvisd::ids::fresh_id;
use jarvisd::pairing::{
    complete, conclude, node_pairing, open_window, requested_class, start,
    NodePairCompleteRequest, NodePairOutcome, NodePairStartRequest, PairingState,
    CHALLENGE_TTL_SECS, MAX_FAILED_ATTEMPTS, MAX_OPEN_CHALLENGES, WINDOW_TTL_SECS,
};
use jarvisd::problem::{ErrorCode, RepositoryError};
use jarvisd::time::Timestamp;

const NOW: Timestamp = Timestamp { nanos: 1_700_000_000_000_000_000 };

fn at(secs: u64) -> Timestamp {
    Timestamp { nanos: NOW.nanos + i128::from(secs) * 1_000_000_000 }
}

fn encode(bytes: &[u8]) -> String {
    base64::engine::general_purpose::STANDARD.encode(bytes)
}

fn decode(s: &str) -> Vec<u8> {
    base64::engine::general_purpose::STANDARD.decode(s).unwrap()
}

fn key() -> SigningKey {
    SigningKey::from_bytes(&[7u8; 32])
}

fn ask(code: &str, class: &str) -> NodePairStartRequest {
    NodePairStartRequest {
        device_name: "Hall panel".to_owned(),
        public_key: encode(key().verifying_key().as_bytes()),
        requested_class: class.to_owned(),
        pairing_code: code.to_owned(),
    }
}

fn opened() -> PairingState {
    let mut state = PairingState::new();
    state.open_window_with("123456".to_owned(), NOW);
    state
}

fn owner(scopes: &[&str]) -> DeviceContext {
    DeviceContext {
        device_id: fresh_id(),
        user_id: fresh_id(),
        class: DeviceClass::OwnerUi,
        scopes: scopes.iter().map(|s| (*s).to_owned()).collect(),
    }
}

#[test]
fn a_node_that_proves_its_key_pairs_and_a_challenge_is_spent() {
    let mut state = opened();
    let challenge = start(&mut state, &ask("123456", "display-node"), NOW).ok().expect("issued");
    let signature = encode(&key().sign(&decode(&challenge.challenge)).to_bytes());
    let answer = NodePairCompleteRequest { challenge_id: challenge.challenge_id, signature };
    let proven = complete(&mut state, &answer, at(1)).ok().expect("proven");
    assert_eq!(proven.class, DeviceClass::DisplayNode);
    assert!(complete(&mut state, &answer, at(1)).is_err());

    let scopes = vec!["display-agent".to_owned()];
    let pairing = node_pairing(&proven, &scopes, &Some("fp".to_owned()), at(1));
    assert_eq!(pairing.device.name, "Hall panel");
    assert_eq!(pairing.device.class, DeviceClass::DisplayNode);
    assert_eq!(pairing.response.server_fingerprint.as_deref(), Some("fp"));
    assert!(conclude(&mut state, Ok(NodePairOutcome::Paired)).is_ok());
    // The window is spent too.
    assert!(start(&mut state, &ask("123456", "display-node"), at(2)).is_err());
}

#[test]
fn a_wrong_signature_and_a_late_one_prove_nothing() {
    let mut state = opened();
    let challenge = start(&mut state, &ask("123456", "room-node"), NOW).ok().expect("issued");
    let forged = encode(&key().sign(b"something else").to_bytes());
    let answer =
        NodePairCompleteRequest { challenge_id: challenge.challenge_id, signature: forged };
    let refused = complete(&mut state, &answer, NOW).err().expect("refused");
    assert_eq!(refused.problem.code, ErrorCode::IdentityChallengeRejected);
    assert!(refused.audit.is_some());

    let mut state = opened();
    let challenge = start(&mut state, &ask("123456", "room-node"), NOW).ok().expect("issued");
    let signature = encode(&key().sign(&decode(&challenge.challenge)).to_bytes());
    let answer = NodePairCompleteRequest { challenge_id: challenge.challenge_id, signature };
    assert!(complete(&mut state, &answer, at(CHALLENGE_TTL_SECS + 1)).is_err());
}

#[test]
fn a_spent_challenge_stays_spent_whatever_comes_between() {
    let mut state = opened();
    let first = start(&mut state, &ask("123456", "room-node"), NOW).ok().expect("issued");
    let right = NodePairCompleteRequest {
        challenge_id: first.challenge_id.clone(),
        signature: encode(&key().sign(&decode(&first.challenge)).to_bytes()),
    };
    let wrong = NodePairCompleteRequest {
        challenge_id: first.challenge_id,
        signature: encode(&key().sign(b"something else").to_bytes()),
    };
    assert!(complete(&mut state, &wrong, NOW).is_err());
    for n in 1..5u64 {
        let other = start(&mut state, &ask("123456", "room-node"), at(n)).ok().expect("issued");
        assert!(complete(&mut state, &right, at(n)).is_err());
        let other = NodePairCompleteRequest {
            challenge_id: other.challenge_id,
            signature: encode(&key().sign(&decode(&other.challenge)).to_bytes()),
        };
        assert!(complete(&mut state, &other, at(n)).is_ok());
    }
    assert!(complete(&mut state, &right, NOW).is_err());
}

#[test]
fn the_window_expires_and_wrong_codes_lock_it() {
    let mut state = opened();
    assert!(state.check_code("123456", at(WINDOW_TTL_SECS - 1)));
    assert!(!state.check_code("123456", at(WINDOW_TTL_SECS + 1)));

    let mut state = opened();
    for _ in 0..MAX_FAILED_ATTEMPTS {
        assert!(!state.check_code("000000", NOW));
    }
    assert!(!state.check_code("123456", NOW));
}

#[test]
fn open_challenges_are_bounded() {
    let mut state = opened();
    for _ in 0..MAX_OPEN_CHALLENGES {
        assert!(start(&mut state, &ask("123456", "voice-node"), NOW).is_ok());
    }
    assert!(start(&mut state, &ask("123456", "voice-node"), NOW).is_err());
    // Expired ones make room.
    assert!(start(&mut state, &ask("123456", "voice-node"), at(CHALLENGE_TTL_SECS + 1)).is_ok());
}

#[test]
fn no_node_becomes_the_owner() {
    assert_eq!(requested_class("owner-ui"), None);
    assert_eq!(requested_class("room-node"), Some(DeviceClass::RoomNode));
    assert_eq!(requested_class("toaster"), None);
    let mut state = opened();
    let refused = start(&mut state, &ask("123456", "owner-ui"), NOW).err().expect("refused");
    assert_eq!(refused.problem.code, ErrorCode::IdentityClassNotGrantable);
    let mut bad = ask("123456", "room-node");
    bad.device_name = "a\nb".to_owned();
    assert!(start(&mut opened(), &bad, NOW).is_err());
    let mut bad = ask("123456", "room-node");
    bad.public_key = "AAAA".to_owned();
    assert!(start(&mut opened(), &bad, NOW).is_err());
}

#[test]
fn only_the_owner_opens_a_window() {
    let mut state = PairingState::new();
    assert!(open_window(&mut state, &owner(&[]), NOW).is_err());
    let (window, _) = open_window(&mut state, &owner(&["ui"]), NOW).ok().expect("opened");
    assert_eq!(window.pairing_code.len(), 7);
    assert!(state.check_code(&window.pairing_code, at(1)));
}

#[test]
fn pairing_outcomes_are_told_apart() {
    let mut state = opened();
    assert!(conclude(&mut state, Ok(NodePairOutcome::NoOwner)).is_err());
    assert!(conclude(&mut state, Ok(NodePairOutcome::KeyAlreadyPaired)).is_err());
    assert!(conclude(&mut state, Err(RepositoryError::Storage("pg".to_owned()))).is_err());
}
