use jarvisd::config::{
    BindAddress, ClaudeCliConfig, Config, ElevenLabsConfig, TlsConfig, UiConfig,
};

/// What an address turned out to be, the way a listener would read it.
fn bind_of(bind: &str) -> BindAddress {
    let loopback = match bind {
        "127.0.0.1:8741" | "127.0.0.1:8080" => true,
        "0.0.0.0:8080" => false,
        _ => return BindAddress::Unreadable { reason: "invalid socket address syntax".to_owned() },
    };
    BindAddress::Socket { shown: bind.to_owned(), loopback }
}

/// The defaults, with some command.
fn defaults() -> Config {
    Config::defaults("reasoner".to_owned())
}

fn load(config: &Config) -> Result<(), String> {
    config.validate(&bind_of(&config.server.bind))
}

fn voiced() -> Config {
    let mut config = defaults();
    config.voice.enabled = true;
    config.voice.wyoming_tts = Some("tcp://127.0.0.1:10200".to_owned());
    config
}

fn elevenlabs(api_key_ref: &str, voice_id: Option<&str>) -> ElevenLabsConfig {
    let mut section = ElevenLabsConfig::default();
    section.enabled = true;
    section.api_key_ref = Some(api_key_ref.to_owned());
    section.voice_id = voice_id.map(str::to_owned);
    section
}

#[test]
fn tests_elevenlabs_without_a_voice_pipeline_is_refused() {
    let mut config = defaults();
    config.voice.enabled = false;
    config.voice.elevenlabs = elevenlabs("keyring:jarvis/elevenlabs", Some("abc"));
    let error = load(&config).expect_err("must refuse");
    assert!(error.contains("no voice pipeline"), "unexpected: {error}");
}

#[test]
fn tests_elevenlabs_without_a_local_voice_to_fall_back_to_is_refused() {
    let mut config = defaults();
    config.voice.enabled = true;
    config.voice.elevenlabs = elevenlabs("keyring:jarvis/elevenlabs", Some("abc"));
    let error = load(&config).expect_err("must refuse");
    assert!(error.contains("fall back"), "unexpected: {error}");
}

#[test]
fn tests_a_literal_elevenlabs_key_in_config_is_refused() {
    let mut config = voiced();
    config.voice.elevenlabs = elevenlabs("sk_a_real_looking_key", Some("abc"));
    let error = load(&config).expect_err("a secret must never be a literal in config");
    // The message must not echo the value back into the operator's terminal.
    assert!(!error.contains("sk_a_real_looking_key"));
}

#[test]
fn tests_elevenlabs_missing_its_voice_id_or_budget_is_refused() {
    let mut config = voiced();
    config.voice.elevenlabs = elevenlabs("keyring:jarvis/elevenlabs", None);
    assert!(load(&config).is_err(), "no voice_id");

    config.voice.elevenlabs = elevenlabs("keyring:jarvis/elevenlabs", Some("abc"));
    config.voice.elevenlabs.character_budget = 0;
    assert!(load(&config).expect_err("zero budget").contains("greater than zero"));

    // ... and the fully configured version is accepted.
    config.voice.elevenlabs = elevenlabs("keyring:jarvis/elevenlabs", Some("abc"));
    assert!(load(&config).is_ok());
}

#[test]
fn tests_a_disabled_elevenlabs_block_is_not_validated() {
    let mut config = defaults();
    config.voice.elevenlabs.enabled = false;
    config.voice.elevenlabs.voice_id = Some(String::new());
    config.voice.elevenlabs.character_budget = 0;
    assert!(load(&config).is_ok());
}

#[test]
fn tests_defaults_carry_the_documented_claude_cli_config() {
    let config = defaults();
    load(&config).expect("defaults are valid");
    let cli = config.providers.claude_cli;
    assert_eq!(cli.binary, "reasoner");
    assert_eq!(cli.workdir, "/var/lib/jarvis/reasoner-work");
    assert!(cli.reasoning_disable_builtin_tools);
    assert_eq!(cli.idle_timeout_secs, 60);
}

#[test]
fn tests_the_ui_section_defaults_to_the_documented_values() {
    let config = defaults();
    assert_eq!(config.ui.background, "none");
    assert_eq!(config.ui.panel_ttl_hours, 2);
    assert_eq!(config.ui.deepdive_promote_after, 3);
    assert_eq!(config.ui.motion, "auto");
}

#[test]
fn tests_the_documented_ui_block_is_accepted_verbatim() {
    let mut config = defaults();
    config.ui = UiConfig {
        background: "photo".to_owned(),
        background_photo: "/var/lib/jarvis/wall.jpg".to_owned(),
        panel_ttl_hours: 4,
        deepdive_promote_after: 0,
        motion: "reduced".to_owned(),
    };
    load(&config).expect("the documented block is valid");
    assert_eq!(config.ui.background, "photo");
    // Zero is the documented "never offer" setting, not an invalid value.
    assert_eq!(config.ui.deepdive_promote_after, 0);
    assert_eq!(config.ui.panel_ttl_hours, 4);
}

#[test]
fn tests_maps_are_off_by_default_and_an_empty_path_stays_off() {
    // The safe default: no archive, no map endpoints at all.
    let mut config = defaults();
    load(&config).expect("defaults are valid");
    assert!(config.maps.archive_path().is_none());
    assert!(config.maps.attribution_override().is_none());

    // An empty path is the off state: it must not read as a path to the working
    // directory.
    config.maps.pmtiles_path = Some(String::new());
    load(&config).expect("an empty path is valid config");
    assert!(config.maps.archive_path().is_none());
}

#[test]
fn tests_a_relative_map_archive_path_is_rejected_at_startup() {
    let mut config = defaults();
    config.maps.pmtiles_path = Some("maps/region.pmtiles".to_owned());
    let error = load(&config).expect_err("a relative archive path must be refused");
    assert!(error.contains("absolute"), "unexpected error: {error}");

    config.maps.pmtiles_path = Some("/var/lib/jarvis/maps/region.pmtiles".to_owned());
    config.maps.attribution = Some("  ".to_owned());
    load(&config).expect("an absolute archive path is valid");
    assert_eq!(config.maps.archive_path(), Some("/var/lib/jarvis/maps/region.pmtiles"));
    // A blank override is no override: the archive's or the default wins.
    assert!(config.maps.attribution_override().is_none());
}

#[test]
fn tests_kebab_section_overrides_and_tolerates_unwired_f17_keys() {
    let cli = ClaudeCliConfig {
        binary: "reasoner-test".to_owned(),
        workdir: "/tmp/jarvis-work".to_owned(),
        reasoning_disable_builtin_tools: false,
        idle_timeout_secs: 90,
    };
    let adapter = cli.to_adapter();
    assert_eq!(adapter.binary, "reasoner-test");
    assert_eq!(adapter.workdir, "/tmp/jarvis-work");
    assert!(!adapter.disable_builtin_tools);
    assert_eq!(adapter.idle_timeout_secs, 90);
}

#[test]
fn tests_a_non_loopback_bind_without_tls_refuses_to_start() {
    let mut config = defaults();
    config.server.bind = "0.0.0.0:8080".to_owned();
    let error = load(&config).expect_err("a public bind without TLS must not start");
    assert!(error.contains("server.tls"), "the error must name the fix: {error}");

    // The same bind IS allowed once TLS is configured.
    config.server.tls = Some(TlsConfig {
        cert_path: "/etc/jarvis/cert.pem".to_owned(),
        key_path: "/etc/jarvis/key.pem".to_owned(),
    });
    load(&config).expect("a TLS-configured public bind is legal");
}

#[test]
fn tests_loopback_still_needs_no_tls_and_tls_paths_must_be_absolute() {
    let mut config = defaults();
    config.server.bind = "127.0.0.1:8080".to_owned();
    load(&config).expect("loopback plaintext is legal");

    for bad in ["cert.pem", "./certs/cert.pem"] {
        config.server.tls = Some(TlsConfig {
            cert_path: bad.to_owned(),
            key_path: "/etc/jarvis/key.pem".to_owned(),
        });
        let error = load(&config).expect_err("a relative TLS path must be refused");
        assert!(error.contains("absolute"), "{error}");
    }
}
