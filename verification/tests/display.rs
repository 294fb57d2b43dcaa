use jarvisd::devices::{ConnectedDevices, SurfaceState};
use jarvisd::display::{
    after_record, conclude, monitor_id_ok, open_artifact, profile_from_config, resolve_node, surface_from_wire,
    DisplayDevice, DisplayProfile, NodeTargets, OpenArtifactRequest, Surface,
};
use jarvisd::identity::{Device, DeviceClass, DeviceContext};
use jarvisd::ids::fresh_id;
use jarvisd::problem::{ErrorCode, RepositoryError};
use jarvisd::text_map::TextMap;
use jarvisd::time::Timestamp;

const NOW: Timestamp = Timestamp { nanos: 1_700_000_000_000_000_000 };

fn caller() -> DeviceContext {
    DeviceContext {
        device_id: fresh_id(),
        user_id: fresh_id(),
        class: DeviceClass::OwnerUi,
        scopes: vec!["ui".to_owned()],
    }
}

fn screen(id: &str, presents: bool, revoked: bool) -> DisplayDevice {
    DisplayDevice {
        device: Device {
            id: id.to_owned(),
            user_id: fresh_id(),
            name: "Hall".to_owned(),
            token_hash: "h".to_owned(),
            public_key: None,
            class: DeviceClass::DisplayNode,
            created_at: NOW,
            last_seen_at: None,
            revoked_at: if revoked { Some(NOW) } else { None },
            revoked_reason: None,
        },
        presents,
    }
}

fn targets(device: DisplayDevice, connected: bool) -> NodeTargets {
    let id = device.device.id.clone();
    let mut aliases = TextMap::new();
    aliases.insert("hall".to_owned(), id.clone());
    let mut present = ConnectedDevices::new();
    if connected {
        present.mark_present(&id);
    }
    NodeTargets { aliases, devices: Ok(vec![device]), connected: present }
}

fn profile(surface: &str, monitor: &str) -> DisplayProfile {
    let mut map = TextMap::new();
    map.insert(surface.to_owned(), monitor.to_owned());
    profile_from_config(&map).ok().expect("a valid profile")
}

#[test]
fn profiles_name_known_surfaces_and_monitors() {
    assert_eq!(surface_from_wire("media_window"), Some(Surface::MediaWindow));
    assert_eq!(surface_from_wire("kitchen"), None);
    assert!(monitor_id_ok("DP-1"));
    assert!(!monitor_id_ok(""));
    assert!(!monitor_id_ok("DP\n1"));
    let p = profile("artifact_canvas", "DP-1");
    assert_eq!(p.monitor_for(Surface::ArtifactCanvas).as_deref(), Some("DP-1"));
    assert_eq!(p.monitor_for(Surface::MediaWindow), None);
    let mut bad = TextMap::new();
    bad.insert("kitchen".to_owned(), "DP-1".to_owned());
    let fault = profile_from_config(&bad).err().expect("an unknown surface");
    assert_eq!(fault.message(), "[display].profile: unknown surface \"kitchen\"");
    let mut blank = TextMap::new();
    blank.insert("media_window".to_owned(), String::new());
    let fault = profile_from_config(&blank).err().expect("no monitor");
    assert!(fault.message().starts_with("[display].profile.media_window: "));
    // Of two faults the first by name is told, whichever was written first.
    let mut two = TextMap::new();
    two.insert("zebra".to_owned(), "DP-1".to_owned());
    two.insert("kitchen".to_owned(), "DP-1".to_owned());
    let fault = profile_from_config(&two).err().expect("two unknown surfaces");
    assert_eq!(fault.message(), "[display].profile: unknown surface \"kitchen\"");
}

#[test]
fn a_map_keeps_its_keys_in_order() {
    let keys = |m: &TextMap<u8>| -> Vec<String> {
        (0..m.len()).map(|i| m.key_at(i).clone()).collect()
    };
    let mut m = TextMap::new();
    for (key, value) in [("b", 1u8), ("c", 2), ("a", 3), ("b", 4)] {
        m.insert(key.to_owned(), value);
    }
    assert_eq!(keys(&m), ["a", "b", "c"]);
    assert_eq!((m.get("b"), *m.value_at(0)), (Some(&4), 3));
    assert_eq!((m.remove("b"), m.remove("b")), (Some(4), None));
    assert_eq!(keys(&m), ["a", "c"]);
    m.clear();
    assert!(keys(&m).is_empty() && m.is_empty());
}

#[test]
fn a_room_resolves_to_a_live_screen_or_says_why_not() {
    let id = fresh_id();
    let live = targets(screen(&id, true, false), true);
    assert_eq!(resolve_node(Some(&live), "hall").ok().unwrap(), id);
    assert_eq!(resolve_node(Some(&live), &id).ok().unwrap(), id);
    for nodes in [
        targets(screen(&id, true, false), false),
        targets(screen(&id, false, false), true),
        targets(screen(&id, true, true), true),
    ] {
        let p = resolve_node(Some(&nodes), "hall").err().unwrap();
        assert_eq!(p.code, ErrorCode::DisplayNodeUnavailable);
    }
    assert!(resolve_node(Some(&live), "attic").is_err());
    assert!(resolve_node(None, "hall").is_err());
}

#[test]
fn an_artifact_opens_where_the_request_or_the_profile_says() {
    let id = fresh_id();
    let ask = |display: Option<&str>| OpenArtifactRequest {
        display: display.map(str::to_owned),
        node: None,
    };
    let p = profile("artifact_canvas", "DP-1");
    let open = |request: &OpenArtifactRequest, exists, profile: &DisplayProfile| {
        open_artifact(&id, request, exists, None, profile, &caller(), NOW)
    };
    let placed = open(&ask(Some("HDMI-1")), Ok(true), &p).ok().expect("placed");
    let placed = after_record(placed, Ok(())).ok().expect("recorded");
    assert_eq!(placed.placement().monitor, "HDMI-1");
    let placed = open(&ask(None), Ok(true), &p).ok().expect("placed");
    assert_eq!(placed.audit().target, format!("artifact:{id}"));
    let placed = after_record(placed, Ok(())).ok().expect("recorded");
    assert_eq!(placed.placement().monitor, "DP-1");
    assert!(placed.target_device_id().is_none());
    // A placement that cannot be recorded is not made.
    let unrecorded = open(&ask(None), Ok(true), &p).ok().expect("placed");
    let down = Err(RepositoryError::Storage("pg".to_owned()));
    assert_eq!(after_record(unrecorded, down).err().unwrap().status, 503);
    let mut surfaces = SurfaceState::new();
    let answer = conclude(placed, &id, &mut surfaces, true);
    assert_eq!(answer.monitor, "DP-1");
    assert_eq!(answer.surface, Surface::ArtifactCanvas);
    assert!(answer.dispatched);

    assert_eq!(open(&ask(None), Ok(false), &p).err().unwrap().status, 404);
    assert!(open(&ask(Some("a\nb")), Ok(true), &p).is_err());
    // No monitor is guessed.
    assert!(open(&ask(None), Ok(true), &profile("media_window", "DP-1")).is_err());
    let down = Err(RepositoryError::Storage("pg".to_owned()));
    assert_eq!(open(&ask(None), down, &p).err().unwrap().status, 503);
}
