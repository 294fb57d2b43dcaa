use jarvisd::devices::{
    after_revocation, list, read_back, require_owner_ui, revoke, ClassProfile, ConnectedDevices,
    Gate, RevocationOutcome, RevocationStep, SurfacePlacement, SurfaceState, MAX_REASON_CHARS,
};
use jarvisd::display::Surface;
use jarvisd::identity::{Device, DeviceClass, DeviceContext};
use jarvisd::ids::fresh_id;
use jarvisd::problem::{ErrorCode, RepositoryError};
use jarvisd::time::Timestamp;

const NOW: Timestamp = Timestamp { nanos: 1_700_000_000_000_000_000 };

fn caller(scopes: &[&str]) -> DeviceContext {
    DeviceContext {
        device_id: fresh_id(),
        user_id: fresh_id(),
        class: DeviceClass::OwnerUi,
        scopes: scopes.iter().map(|s| (*s).to_owned()).collect(),
    }
}

fn device(name: &str) -> (Device, ClassProfile) {
    (
        Device {
            id: fresh_id(),
            user_id: fresh_id(),
            name: name.to_owned(),
            token_hash: "h".to_owned(),
            public_key: None,
            class: DeviceClass::VoiceNode,
            created_at: NOW,
            last_seen_at: None,
            revoked_at: Some(NOW),
            revoked_reason: Some("lost".to_owned()),
        },
        ClassProfile { scopes: vec!["voice".to_owned()], executes_tools: false },
    )
}

#[test]
fn only_the_owner_passes() {
    assert!(matches!(require_owner_ui(Some(&caller(&["ui"])), "/x", NOW), Gate::Pass));
    match require_owner_ui(Some(&caller(&["voice"])), "/x", NOW) {
        Gate::Refuse { problem, audit } => {
            assert_eq!((problem.status, problem.code), (403, ErrorCode::AuthScopeMissing));
            assert!(audit.is_some());
        }
        Gate::Pass => panic!("a node must not pass"),
    }
    assert!(matches!(require_owner_ui(None, "/x", NOW), Gate::Refuse { .. }));
}

#[test]
fn devices_are_listed_for_the_owner_alone() {
    let shown = list(&caller(&["ui"]), Ok(vec![device("Kitchen")])).ok().unwrap();
    assert_eq!(shown[0].name, "Kitchen");
    assert_eq!(shown[0].device_class, "voice-node");
    assert_eq!(shown[0].revoked_reason.as_deref(), Some("lost"));
    assert_eq!(shown[0].revoked_at.as_deref(), Some("2023-11-14T22:13:20Z"));
    assert!(list(&caller(&[]), Ok(vec![device("Kitchen")])).is_err());
    assert!(list(&caller(&["ui"]), Err(RepositoryError::Storage("pg".to_owned()))).is_err());
}

#[test]
fn a_revocation_is_bounded_recorded_and_read_back() {
    let owner = caller(&["ui"]);
    let (target, profile) = device("Kitchen");
    let id = target.id.clone();
    let r = revoke(&owner, &id, Some("  lost  "), NOW).ok().unwrap();
    assert_eq!(r.reason.as_deref(), Some("lost"));
    assert_eq!(r.target, id);
    assert!(revoke(&owner, "nope", None, NOW).is_err());
    assert!(revoke(&caller(&[]), &id, None, NOW).is_err());
    assert!(revoke(&owner, &id, Some(&"x".repeat(MAX_REASON_CHARS + 1)), NOW).is_err());
    assert!(revoke(&owner, &id, Some("a\u{7}b"), NOW).is_err());

    assert!(matches!(
        after_revocation(Ok(RevocationOutcome::Revoked), &owner, &id, NOW),
        RevocationStep::Announce { .. }
    ));
    match after_revocation(Ok(RevocationOutcome::LastOwnerDevice), &owner, &id, NOW) {
        RevocationStep::Refuse { problem, audit } => {
            assert_eq!(problem.code, ErrorCode::IdentityLastOwnerDevice);
            assert!(audit.is_some());
        }
        _ => panic!("the last owner device stays"),
    }
    match after_revocation(Ok(RevocationOutcome::NotFound), &owner, &id, NOW) {
        RevocationStep::Refuse { problem, .. } => assert_eq!(problem.status, 404),
        _ => panic!("nothing to announce"),
    }
    assert_eq!(read_back(Ok(vec![(target, profile)]), &id).ok().unwrap().device_id, id);
    assert!(read_back(Ok(Vec::new()), &id).is_err());
}

#[test]
fn presence_and_placements_are_remembered_and_forgotten() {
    let mut present = ConnectedDevices::new();
    present.mark_present("a");
    assert!(present.is_connected("a"));
    assert!(!present.is_connected("b"));
    // A second socket of the same device keeps it connected until both are gone.
    present.mark_present("a");
    present.mark_present("b");
    present.mark_gone("a");
    assert!(present.is_connected("a"));
    present.mark_gone("a");
    assert!(!present.is_connected("a"));
    assert!(present.is_connected("b"));
    present.mark_gone("a");
    assert!(present.is_connected("b"));

    let mut surfaces = SurfaceState::new();
    let placement =
        SurfacePlacement { surface: Surface::ArtifactCanvas, monitor: "DP-1".to_owned() };
    surfaces.remember("a", placement);
    assert_eq!(surfaces.current("a").map(|p| p.monitor.as_str()), Some("DP-1"));
    surfaces.forget("a");
    assert!(surfaces.current("a").is_none());
}
