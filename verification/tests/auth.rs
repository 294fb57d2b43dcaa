use jarvisd::auth::{
    codes_match, generate_pairing_code, generate_token, lookup_key, pair, pairing_code_from,
    presented_token, require_device, token_lookup, ws_subprotocol_token, BootstrapWindow, Handshake, PairRequest,
    MAX_FAILED_PAIR_ATTEMPTS,
};
use jarvisd::identity::{Device, DeviceClass};
use jarvisd::ids::{fresh_id, is_id};
use jarvisd::problem::{ErrorCode, RepositoryError};
use jarvisd::time::Timestamp;

const NOW: Timestamp = Timestamp { nanos: 1_700_000_000_000_000_000 };

fn request(code: &str) -> PairRequest {
    PairRequest { device_name: "Kitchen".to_owned(), pairing_code: code.to_owned() }
}

fn window(code: &str) -> BootstrapWindow {
    BootstrapWindow { code: Some(code.to_owned()), failed_attempts: 0 }
}

#[test]
fn pairing_codes_are_six_digits() {
    assert_eq!(pairing_code_from(&[0, 0, 0, 7]), "000-007");
    assert_eq!(pairing_code_from(&[0, 0x0f, 0x42, 0x41]), "000-001");
    let code = generate_pairing_code();
    let (head, tail) = code.split_once('-').expect("two groups");
    assert_eq!((head.len(), tail.len()), (3, 3));
    assert!(head.bytes().chain(tail.bytes()).all(|b| b.is_ascii_digit()));
}

#[test]
fn tokens_are_random_and_looked_up_by_their_digest() {
    let a = generate_token();
    let b = generate_token();
    assert_eq!(a.len(), 64);
    assert_ne!(a, b);
    assert!(a.bytes().all(|c| c.is_ascii_hexdigit() && !c.is_ascii_uppercase()));
    // The digest of "abc".
    assert!(lookup_key("abc")
        .contains("ba7816bf8f01cfea414140de5dae2223b00361a396177a9cb410ff61f20015ad"));
    assert_ne!(lookup_key(&a), a);
}

#[test]
fn identifiers_are_fresh_and_well_formed() {
    let a = fresh_id();
    assert!(is_id(&a), "{a}");
    assert_ne!(a, fresh_id());
    assert!(!is_id("01J8Z000000000000000000001\n"));
    assert!(!is_id("01j8z00000000000000000000l"));
}

#[test]
fn a_bootstrap_window_opens_only_where_no_device_is_paired() {
    assert!(BootstrapWindow::bootstrap(Ok(0)).current_pairing_code().is_some());
    assert!(BootstrapWindow::bootstrap(Ok(1)).current_pairing_code().is_none());
}

#[test]
fn a_code_pairs_once_and_five_wrong_ones_close_the_window() {
    let mut open = window("123456");
    let scopes = vec!["ui".to_owned()];
    let paired = pair(&mut open, &request("123456"), &scopes, NOW).ok().unwrap();
    assert_eq!(paired.device.class, DeviceClass::OwnerUi);
    assert_eq!(paired.response.scopes, ["ui"]);
    assert_ne!(paired.device.token_hash, paired.response.device_token);
    assert!(pair(&mut open, &request("123456"), &scopes, NOW).is_err());

    let mut open = window("123456");
    for _ in 0..MAX_FAILED_PAIR_ATTEMPTS {
        assert!(pair(&mut open, &request("000000"), &scopes, NOW).is_err());
    }
    let refused = pair(&mut open, &request("123456"), &scopes, NOW).err().unwrap();
    assert_eq!(refused.code, ErrorCode::AuthPairingInvalid);
    assert!(open.current_pairing_code().is_none());
    assert!(codes_match("123456", "123456"));
    assert!(!codes_match("123456", "12345"));
}

#[test]
fn tokens_come_from_the_header_or_a_socket_handshake() {
    let socket = |protocols: &[&str]| Handshake {
        has_key: true,
        upgrade: Some(b"WebSocket".to_vec()),
        protocols: protocols.iter().map(|p| (*p).to_owned()).collect(),
    };
    let plain = Handshake { has_key: false, upgrade: None, protocols: Vec::new() };
    assert_eq!(presented_token(Some("Bearer abc"), &plain), Some("abc".to_owned()));
    assert_eq!(presented_token(Some("Basic abc"), &plain), None);
    assert_eq!(presented_token(None, &plain), None);
    let offered = socket(&["jarvis.device.v1, tok"]);
    assert_eq!(ws_subprotocol_token(&offered), Some("tok".to_owned()));
    assert_eq!(presented_token(None, &offered), Some("tok".to_owned()));
    assert_eq!(token_lookup(None, &offered).ok(), Some(lookup_key("tok")));
    assert_eq!(token_lookup(Some("Basic abc"), &plain).err().unwrap().status, 401);
    // A request that is no handshake carries no token in its protocols.
    let mut faked = socket(&["jarvis.device.v1, tok"]);
    faked.has_key = false;
    assert_eq!(ws_subprotocol_token(&faked), None);
}

#[test]
fn only_a_known_active_device_gets_in() {
    let device = Device {
        id: fresh_id(),
        user_id: fresh_id(),
        name: "Kitchen".to_owned(),
        token_hash: "h".to_owned(),
        public_key: None,
        class: DeviceClass::RoomNode,
        created_at: NOW,
        last_seen_at: None,
        revoked_at: None,
        revoked_reason: None,
    };
    let id = device.id.clone();
    let context = require_device(Ok(Some(device)), vec!["x".to_owned()]).ok().unwrap();
    assert_eq!(context.device_id, id);
    assert_eq!(context.class, DeviceClass::RoomNode);
    assert!(context.holds("x"));
    assert!(!context.holds_ui());
    let unknown = require_device(Ok(None), Vec::new()).err().unwrap();
    assert_eq!((unknown.status, unknown.code), (401, ErrorCode::AuthInvalidToken));
    let down = require_device(Err(RepositoryError::Storage("pg".to_owned())), Vec::new());
    assert!(down.is_err());
}
