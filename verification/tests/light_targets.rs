use jarvisd::light_targets::{normalize, spoken_form, ConfiguredLightTargets};

fn targets(lights: &[&str]) -> ConfiguredLightTargets {
    let owned: Vec<String> = lights.iter().map(|s| (*s).to_owned()).collect();
    ConfiguredLightTargets::from_allowlist(&owned)
}

#[test]
fn an_allowlisted_light_resolves_from_its_spoken_form() {
    let targets = targets(&["light.desk_lamp", "light.kitchen_ceiling"]);
    assert_eq!(targets.resolve_light("desk lamp"), Some("light.desk_lamp".to_owned()));
    // Articles and casing are noise, not meaning.
    assert_eq!(targets.resolve_light("The  Desk   Lamp"), Some("light.desk_lamp".to_owned()));
    assert_eq!(
        targets.resolve_light("my kitchen ceiling"),
        Some("light.kitchen_ceiling".to_owned())
    );
}

#[test]
fn a_target_outside_the_allowlist_never_resolves() {
    let targets = targets(&["light.desk_lamp"]);
    assert_eq!(targets.resolve_light("greenhouse sprinklers"), None);
    // Nor can a caller name an entity directly to get it back.
    assert_eq!(targets.resolve_light("light.front_door"), None);
    // A near miss is a miss: no fuzzy matching, no plural folding.
    assert_eq!(targets.resolve_light("desk lamps"), None);
    assert_eq!(targets.resolve_light("desk"), None);
}

#[test]
fn non_light_entities_contribute_no_spoken_form() {
    let targets = targets(&["switch.pump", "scene.movie_night", "light.desk_lamp"]);
    assert_eq!(targets.resolve_light("pump"), None);
    assert_eq!(targets.resolve_light("movie night"), None);
    assert!(targets.resolve_light("desk lamp").is_some());
}

#[test]
fn an_empty_allowlist_resolves_nothing() {
    assert!(targets(&[]).is_empty());
    assert_eq!(targets(&[]).resolve_light("desk lamp"), None);
}

#[test]
fn phrases_are_lowered_beyond_ascii_and_lose_their_article() {
    assert_eq!(normalize("  The ÄLPINE  Lamp "), "älpine lamp");
    assert_eq!(normalize("the"), "");
    assert_eq!(normalize("theatre lamp"), "theatre lamp");
    assert_eq!(spoken_form("light.Desk_Lamp"), Some("desk lamp".to_owned()));
    assert_eq!(spoken_form("switch.pump"), None);
}
