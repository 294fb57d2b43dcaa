use jarvisd::identity::{DeviceClass, DeviceContext};
use jarvisd::ids::fresh_id;
use jarvisd::problem::RepositoryError;
use jarvisd::settings::{
    elevenlabs_enabled, gate_after, get_node_voice, get_voice, update_voice, wake_word,
    UpdateVoiceSettingsRequest, VoiceCapabilities, VoiceOverrides,
};
use jarvisd::time::Timestamp;

const NOW: Timestamp = Timestamp { nanos: 1_700_000_000_000_000_000 };

fn caller(scopes: &[&str]) -> DeviceContext {
    DeviceContext {
        device_id: fresh_id(),
        user_id: fresh_id(),
        class: DeviceClass::OwnerUi,
        scopes: scopes.iter().map(|s| (*s).to_owned()).collect(),
    }
}

fn capabilities() -> VoiceCapabilities {
    VoiceCapabilities {
        configured_wake_word: "jarvis".to_owned(),
        available_wake_words: vec!["jarvis".to_owned(), "computer".to_owned()],
        elevenlabs_configured: true,
        local_fallback: Some("piper".to_owned()),
        character_budget: 100,
    }
}

fn overrides(word: Option<&str>, enabled: Option<bool>) -> VoiceOverrides {
    VoiceOverrides { wake_word: word.map(str::to_owned), elevenlabs_enabled: enabled }
}

#[test]
fn an_override_wins_over_the_configured_wake_word() {
    assert_eq!(wake_word(&capabilities(), &overrides(None, None)), "jarvis");
    assert_eq!(wake_word(&capabilities(), &overrides(Some("computer"), None)), "computer");
    let node = get_node_voice(&capabilities(), Ok(overrides(Some("computer"), None)));
    assert_eq!(node.ok().unwrap(), "computer");
    let down = get_node_voice(&capabilities(), Err(RepositoryError::Storage("x".to_owned())));
    assert_eq!(down.err().unwrap().status, 503);
}

#[test]
fn the_page_warns_of_a_word_without_a_model() {
    let page = get_voice(
        &caller(&["ui"]),
        &capabilities(),
        Ok(overrides(Some("friday"), None)),
        Some(true),
        Ok(7),
        "2026-07",
    )
    .ok()
    .unwrap();
    assert_eq!(page.wake_word, "friday");
    assert!(page.wake_word_warning.is_some());
    assert_eq!(page.elevenlabs.spent_characters, 7);
    assert!(page.elevenlabs.enabled);
    assert!(get_voice(
        &caller(&[]),
        &capabilities(),
        Ok(overrides(None, None)),
        None,
        Ok(0),
        "2026-07"
    )
    .is_err());
}

#[test]
fn consent_follows_the_store_and_the_live_switch() {
    assert!(elevenlabs_enabled(Some(true), &overrides(None, Some(false))));
    assert!(!elevenlabs_enabled(Some(false), &overrides(None, Some(true))));
    assert_eq!(gate_after(None, &Ok(overrides(None, Some(true)))), None);
    let stored = Ok(overrides(None, Some(false)));
    assert_eq!(gate_after(Some(true), &stored), Some(false));
    let failed = Err(RepositoryError::Storage("x".to_owned()));
    assert_eq!(gate_after(Some(true), &failed), Some(true));
}

#[test]
fn a_change_is_the_owners_and_of_a_known_word() {
    let ask = |word: &str| UpdateVoiceSettingsRequest {
        wake_word: Some(word.to_owned()),
        elevenlabs_enabled: None,
    };
    let change = update_voice(&caller(&["ui"]), &capabilities(), &ask("computer"), NOW).ok().unwrap();
    assert_eq!(change.overrides.wake_word.as_deref(), Some("computer"));
    assert!(update_voice(&caller(&[]), &capabilities(), &ask("computer"), NOW).is_err());
    assert!(update_voice(&caller(&["ui"]), &capabilities(), &ask("friday"), NOW).is_err());
}
