//! Layered configuration: what the sections hold, and the rules a configuration
//! must meet before the daemon starts. Secrets are references, never values.

use vstd::prelude::*;

use crate::text;

pub mod secrets;
pub mod sections;

pub use secrets::{
    resolve_secret_ref_with, scheme_of, secret_source, validate_secret_ref,
    validate_secret_ref_named, SecretSource,
};
pub use sections::{
    AppsConfig, CaldavConfig, ClaudeCliConfig, CliSpawn, DatabaseConfig, DisplayConfig,
    ElevenLabsConfig, EmbeddingsConfig, FastEmbedConfig, HomeAssistantConfig, IntegrationsConfig, ListsConfig,
    MapsConfig, MediaConfig, ObservabilityConfig, ProvidersConfig, ServerConfig, SmtpConfig,
    SpotifyConfig, StorageConfig, TimersConfig, TlsConfig, UiConfig, VoiceAudioConfig, VoiceConfig,
    VolumePct, WebSearchConfig,
};

verus! {

/// The configuration of the daemon.
pub struct Config {
    pub server: ServerConfig,
    pub database: DatabaseConfig,
    pub observability: ObservabilityConfig,
    pub providers: ProvidersConfig,
    pub integrations: IntegrationsConfig,
    pub storage: StorageConfig,
    pub display: DisplayConfig,
    pub maps: MapsConfig,
    pub ui: UiConfig,
    pub voice: VoiceConfig,
    pub timers: TimersConfig,
    pub lists: ListsConfig,
    pub apps: AppsConfig,
}

/// What the configured listen address turned out to be.
pub enum BindAddress {
    /// It is not a socket address, for this reason.
    Unreadable { reason: String },
    /// It is the address shown, on loopback or not.
    Socket { shown: String, loopback: bool },
}

// ---------------------------------------------------------------------------
// The rules, section by section: each gives the text that reports the first
// rule broken.
// ---------------------------------------------------------------------------

pub open spec fn is_absolute(path: Seq<char>) -> bool {
    path.len() > 0 && path[0] == '/'
}

fn absolute(path: &str) -> (b: bool)
    ensures
        b == is_absolute(path@),
{
    let v = text::chars_of(path);
    v.len() > 0 && v[0] == '/'
}

/// Where two rules follow one another, the first broken one is reported.
pub open spec fn first_of(a: Option<Seq<char>>, b: Option<Seq<char>>) -> Option<Seq<char>> {
    match a {
        Some(told) => Some(told),
        None => b,
    }
}

/// A rule and what is told when it is broken.
pub open spec fn rule(holds: bool, told: Seq<char>) -> Option<Seq<char>> {
    if holds {
        None
    } else {
        Some(told)
    }
}

pub open spec fn told_relative(field: Seq<char>, path: Seq<char>) -> Seq<char> {
    field + " "@ + path
        + " must be absolute — a relative path resolves against whatever directory the service happened to start in"@
}

/// Loopback may stay plaintext; anything reachable from the network may not.
pub open spec fn server_fault(server: ServerConfig, bind: BindAddress) -> Option<Seq<char>> {
    match bind {
        BindAddress::Unreadable { reason } => Some(
            "server.bind "@ + text::debug_text(server.bind@) + " is not a socket address: "@
                + reason@,
        ),
        BindAddress::Socket { shown, loopback } => match server.tls {
            None => rule(
                loopback,
                "server.bind "@ + shown@
                    + " is not loopback and [server.tls] is not configured — jarvisd refuses to serve device tokens in the clear off loopback (docs/06 §7). Configure [server.tls] cert_path/key_path, or bind loopback."@,
            ),
            Some(tls) => first_of(
                rule(
                    is_absolute(tls.cert_path@),
                    told_relative("[server.tls].cert_path"@, tls.cert_path@),
                ),
                rule(
                    is_absolute(tls.key_path@),
                    told_relative("[server.tls].key_path"@, tls.key_path@),
                ),
            ),
        },
    }
}

pub open spec fn maps_fault(maps: MapsConfig) -> Option<Seq<char>> {
    match maps.spec_archive_path() {
        None => None,
        Some(path) => rule(
            is_absolute(path),
            "[maps].pmtiles_path "@ + path + " must be an absolute path"@,
        ),
    }
}

/// The text that says something, where there is one.
pub open spec fn said(value: Option<String>) -> Option<Seq<char>> {
    match value {
        Some(v) => if text::is_blank(v@) {
            None
        } else {
            Some(v@)
        },
        None => None,
    }
}

/// A third-party voice needs the pipeline it speaks through, a local voice to
/// fall back to, a key reference, a voice and a budget.
pub open spec fn elevenlabs_fault(voice: VoiceConfig) -> Option<Seq<char>> {
    if !voice.elevenlabs.enabled {
        None
    } else if !voice.enabled {
        Some(
            "[voice.elevenlabs] is enabled but [voice].enabled is false — there is no voice pipeline for it to speak through"@,
        )
    } else if voice.wyoming_tts is None {
        Some(
            "[voice.elevenlabs] is enabled but [voice].wyoming_tts is unset — there would be no local voice to fall back to, and an alarm must sound even when the network is down (ADR-023, ADR-033 §3)"@,
        )
    } else {
        match said(voice.elevenlabs.api_key_ref) {
            None => Some("[voice.elevenlabs].api_key_ref is required when it is enabled"@),
            Some(reference) => first_of(
                secrets::secret_ref_fault("[voice.elevenlabs].api_key_ref"@, reference),
                first_of(
                    rule(
                        said(voice.elevenlabs.voice_id) is Some,
                        "[voice.elevenlabs].voice_id is required when it is enabled"@,
                    ),
                    rule(
                        voice.elevenlabs.character_budget > 0,
                        "[voice.elevenlabs].character_budget must be greater than zero — a zero budget silently routes every utterance to the local voice, which is a confusing way to spell `enabled = false`"@,
                    ),
                ),
            ),
        }
    }
}

pub open spec fn smtp_fault(smtp: SmtpConfig) -> Option<Seq<char>> {
    if !smtp.enabled {
        None
    } else {
        first_of(
            rule(
                !text::is_blank(smtp.host@),
                "[integrations.smtp].host is required when SMTP is enabled"@,
            ),
            first_of(
                rule(
                    !text::is_blank(smtp.from_address@),
                    "[integrations.smtp].from_address is required when SMTP is enabled"@,
                ),
                secrets::secret_ref_fault(
                    "[integrations.smtp].password_secret"@,
                    smtp.password_secret@,
                ),
            ),
        )
    }
}

pub open spec fn caldav_fault(caldav: CaldavConfig) -> Option<Seq<char>> {
    if !caldav.enabled {
        None
    } else {
        first_of(
            rule(
                !text::is_blank(caldav.server_url@),
                "[integrations.caldav].server_url is required when CalDAV is enabled"@,
            ),
            secrets::secret_ref_fault(
                "[integrations.caldav].password_secret"@,
                caldav.password_secret@,
            ),
        )
    }
}

/// The key of a configured web search is a reference, never a literal.
pub open spec fn web_search_fault(web_search: Option<WebSearchConfig>) -> Option<Seq<char>> {
    match web_search {
        None => None,
        Some(web) => secrets::secret_ref_fault(
            "[integrations.web_search].api_key_secret"@,
            web.api_key_secret@,
        ),
    }
}

pub open spec fn voice_fault(voice: VoiceConfig) -> Option<Seq<char>> {
    if !voice.enabled {
        None
    } else if !"tcp://"@.is_prefix_of(voice.wyoming_stt@) {
        Some("[voice].wyoming_stt must use tcp:// when voice is enabled"@)
    } else if voice.wyoming_tts matches Some(tts) && !"tcp://"@.is_prefix_of(tts@) {
        Some("[voice].wyoming_tts must use tcp:// when set"@)
    } else if voice.audio.sample_rate == 0 || voice.audio.channels == 0 {
        Some("[voice].audio sample_rate and channels must be positive"@)
    } else {
        rule(voice.audio.format@ == "s16le"@, "[voice].audio.format must be s16le"@)
    }
}

/// The access token is sent on every request, so it must not cross the network
/// in clear text.
pub open spec fn home_assistant_fault(home: HomeAssistantConfig) -> Option<Seq<char>> {
    if !home.enabled {
        None
    } else {
        first_of(
            rule(
                "https://"@.is_prefix_of(home.base_url@),
                "[integrations.home_assistant].base_url must be https:// — the access token is sent on every request and must not cross the network in clear text; put TLS in front of Home Assistant rather than relaxing this"@,
            ),
            secrets::secret_ref_fault(
                "[integrations.home_assistant].token_secret"@,
                home.token_secret@,
            ),
        )
    }
}

pub open spec fn spotify_fault(spotify: SpotifyConfig) -> Option<Seq<char>> {
    if !spotify.enabled {
        None
    } else {
        first_of(
            rule(
                !text::is_blank(spotify.client_id@),
                "[integrations.spotify].client_id is required when Spotify is enabled"@,
            ),
            first_of(
                rule(
                    1 <= spotify.max_volume_pct <= 100,
                    "[integrations.spotify].max_volume_pct must be 1..=100"@,
                ),
                secrets::secret_ref_fault(
                    "[integrations.spotify].refresh_token_secret"@,
                    spotify.refresh_token_secret@,
                ),
            ),
        )
    }
}

/// The first rule that a configuration breaks, as the text that reports it.
pub open spec fn config_fault(c: Config, bind: BindAddress) -> Option<Seq<char>> {
    first_of(
        server_fault(c.server, bind),
        first_of(
            secrets::secret_ref_fault("database.url_secret"@, c.database.url_secret@),
            first_of(
                maps_fault(c.maps),
                first_of(
                    elevenlabs_fault(c.voice),
                    first_of(
                        smtp_fault(c.integrations.smtp),
                        first_of(
                            caldav_fault(c.integrations.caldav),
                            first_of(
                                voice_fault(c.voice),
                                first_of(
                                    home_assistant_fault(c.integrations.home_assistant),
                                    first_of(
                                        spotify_fault(c.integrations.spotify),
                                        web_search_fault(c.integrations.web_search),
                                    ),
                                ),
                            ),
                        ),
                    ),
                ),
            ),
        ),
    )
}

/// Whether an executable result reports the fault that a rule gives.
pub open spec fn reports(r: Result<(), String>, fault: Option<Seq<char>>) -> bool {
    match r {
        Ok(()) => fault is None,
        Err(e) => fault == Some(e@),
    }
}

fn told(message: &str) -> (r: Result<(), String>)
    ensures
        reports(r, Some(message@)),
{
    Err(message.to_owned())
}

fn check_absolute(field: &str, path: &str) -> (r: Result<(), String>)
    ensures
        reports(r, rule(is_absolute(path@), told_relative(field@, path@))),
{
    if absolute(path) {
        return Ok(());
    }
    let head = text::concat3(field, " ", path);
    Err(
        text::concat2(
            head.as_str(),
            " must be absolute — a relative path resolves against whatever directory the service happened to start in",
        ),
    )
}

fn validate_server(server: &ServerConfig, bind: &BindAddress) -> (r: Result<(), String>)
    ensures
        reports(r, server_fault(*server, *bind)),
{
    match bind {
        BindAddress::Unreadable { reason } => {
            let shown = text::quoted(server.bind.as_str());
            let head = text::concat3("server.bind ", shown.as_str(), " is not a socket address: ");
            Err(text::concat2(head.as_str(), reason.as_str()))
        },
        BindAddress::Socket { shown, loopback } => match &server.tls {
            None => if *loopback {
                Ok(())
            } else {
                Err(
                    text::concat3(
                        "server.bind ",
                        shown.as_str(),
                        " is not loopback and [server.tls] is not configured — jarvisd refuses to serve device tokens in the clear off loopback (docs/06 §7). Configure [server.tls] cert_path/key_path, or bind loopback.",
                    ),
                )
            },
            Some(tls) => {
                match check_absolute("[server.tls].cert_path", tls.cert_path.as_str()) {
                    Ok(()) => {},
                    Err(e) => {
                        return Err(e);
                    },
                }
                check_absolute("[server.tls].key_path", tls.key_path.as_str())
            },
        },
    }
}

fn validate_maps(maps: &MapsConfig) -> (r: Result<(), String>)
    ensures
        reports(r, maps_fault(*maps)),
{
    match maps.archive_path() {
        None => Ok(()),
        Some(path) => if absolute(path) {
            Ok(())
        } else {
            Err(text::concat3("[maps].pmtiles_path ", path, " must be an absolute path"))
        },
    }
}

fn says(value: &Option<String>) -> (r: Option<&str>)
    ensures
        match r {
            Some(v) => said(*value) == Some(v@),
            None => said(*value) is None,
        },
{
    match value {
        Some(v) => if text::blank(v.as_str()) {
            None
        } else {
            Some(v.as_str())
        },
        None => None,
    }
}

fn validate_elevenlabs(voice: &VoiceConfig) -> (r: Result<(), String>)
    ensures
        reports(r, elevenlabs_fault(*voice)),
{
    if !voice.elevenlabs.enabled {
        return Ok(());
    }
    if !voice.enabled {
        return told(
            "[voice.elevenlabs] is enabled but [voice].enabled is false — there is no voice pipeline for it to speak through",
        );
    }
    if voice.wyoming_tts.is_none() {
        return told(
            "[voice.elevenlabs] is enabled but [voice].wyoming_tts is unset — there would be no local voice to fall back to, and an alarm must sound even when the network is down (ADR-023, ADR-033 §3)",
        );
    }
    let reference = match says(&voice.elevenlabs.api_key_ref) {
        Some(reference) => reference,
        None => {
            return told("[voice.elevenlabs].api_key_ref is required when it is enabled");
        },
    };
    match validate_secret_ref_named("[voice.elevenlabs].api_key_ref", reference) {
        Ok(()) => {},
        Err(e) => {
            return Err(e);
        },
    }
    if says(&voice.elevenlabs.voice_id).is_none() {
        return told("[voice.elevenlabs].voice_id is required when it is enabled");
    }
    if voice.elevenlabs.character_budget == 0 {
        return told(
            "[voice.elevenlabs].character_budget must be greater than zero — a zero budget silently routes every utterance to the local voice, which is a confusing way to spell `enabled = false`",
        );
    }
    Ok(())
}

fn validate_smtp(smtp: &SmtpConfig) -> (r: Result<(), String>)
    ensures
        reports(r, smtp_fault(*smtp)),
{
    if !smtp.enabled {
        return Ok(());
    }
    if text::blank(smtp.host.as_str()) {
        return told("[integrations.smtp].host is required when SMTP is enabled");
    }
    if text::blank(smtp.from_address.as_str()) {
        return told("[integrations.smtp].from_address is required when SMTP is enabled");
    }
    validate_secret_ref_named("[integrations.smtp].password_secret", smtp.password_secret.as_str())
}

fn validate_caldav(caldav: &CaldavConfig) -> (r: Result<(), String>)
    ensures
        reports(r, caldav_fault(*caldav)),
{
    if !caldav.enabled {
        return Ok(());
    }
    if text::blank(caldav.server_url.as_str()) {
        return told("[integrations.caldav].server_url is required when CalDAV is enabled");
    }
    validate_secret_ref_named(
        "[integrations.caldav].password_secret",
        caldav.password_secret.as_str(),
    )
}

fn validate_voice(voice: &VoiceConfig) -> (r: Result<(), String>)
    ensures
        reports(r, voice_fault(*voice)),
{
    if !voice.enabled {
        return Ok(());
    }
    if !text::starts_with(voice.wyoming_stt.as_str(), "tcp://") {
        return told("[voice].wyoming_stt must use tcp:// when voice is enabled");
    }
    if let Some(tts) = &voice.wyoming_tts {
        if !text::starts_with(tts.as_str(), "tcp://") {
            return told("[voice].wyoming_tts must use tcp:// when set");
        }
    }
    if voice.audio.sample_rate == 0 || voice.audio.channels == 0 {
        return told("[voice].audio sample_rate and channels must be positive");
    }
    if !text::same(voice.audio.format.as_str(), "s16le") {
        return told("[voice].audio.format must be s16le");
    }
    Ok(())
}

fn validate_home_assistant(home: &HomeAssistantConfig) -> (r: Result<(), String>)
    ensures
        reports(r, home_assistant_fault(*home)),
{
    if !home.enabled {
        return Ok(());
    }
    if !text::starts_with(home.base_url.as_str(), "https://") {
        return told(
            "[integrations.home_assistant].base_url must be https:// — the access token is sent on every request and must not cross the network in clear text; put TLS in front of Home Assistant rather than relaxing this",
        );
    }
    validate_secret_ref_named(
        "[integrations.home_assistant].token_secret",
        home.token_secret.as_str(),
    )
}

fn validate_spotify(spotify: &SpotifyConfig) -> (r: Result<(), String>)
    ensures
        reports(r, spotify_fault(*spotify)),
{
    if !spotify.enabled {
        return Ok(());
    }
    if text::blank(spotify.client_id.as_str()) {
        return told("[integrations.spotify].client_id is required when Spotify is enabled");
    }
    if spotify.max_volume_pct < 1 || spotify.max_volume_pct > 100 {
        return told("[integrations.spotify].max_volume_pct must be 1..=100");
    }
    validate_secret_ref_named(
        "[integrations.spotify].refresh_token_secret",
        spotify.refresh_token_secret.as_str(),
    )
}

fn validate_web_search(web_search: &Option<WebSearchConfig>) -> (r: Result<(), String>)
    ensures
        reports(r, web_search_fault(*web_search)),
{
    match web_search {
        None => Ok(()),
        Some(web) => validate_secret_ref_named(
            "[integrations.web_search].api_key_secret",
            web.api_key_secret.as_str(),
        ),
    }
}

impl Config {
    /// The documented defaults. Which command reasons, and where, is the host's to
    /// name.
    pub open spec fn is_default(self) -> bool {
        &&& self.server.bind@ == "127.0.0.1:8741"@
        &&& self.server.web_assets is None
        &&& self.server.tls is None
        &&& self.database.url_secret@ == "env:JARVIS_DB_URL"@
        &&& self.database.max_connections == 8
        &&& self.observability.otlp_endpoint is None
        &&& self.providers.claude_cli.workdir@ == "/var/lib/jarvis/"@
            + self.providers.claude_cli.binary@ + "-work"@
        &&& self.providers.claude_cli.reasoning_disable_builtin_tools
        &&& self.providers.claude_cli.idle_timeout_secs == 60
        &&& self.providers.embeddings.is_default()
        &&& self.integrations.is_default()
        &&& self.storage.is_default()
        &&& self.display.is_default()
        &&& self.maps.is_default()
        &&& self.ui.is_default()
        &&& self.voice.is_default()
        &&& self.timers.is_default()
        &&& self.lists.is_default()
        &&& self.apps.is_default()
    }

    /// Check every rule, in order; the error is the text to report. `bind` is
    /// what the listen address turned out to be.
    pub fn validate(&self, bind: &BindAddress) -> (r: Result<(), String>)
        ensures
            reports(r, config_fault(*self, *bind)),
    {
        validate_server(&self.server, bind)?;
        validate_secret_ref(self.database.url_secret.as_str())?;
        validate_maps(&self.maps)?;
        validate_elevenlabs(&self.voice)?;
        validate_smtp(&self.integrations.smtp)?;
        validate_caldav(&self.integrations.caldav)?;
        validate_voice(&self.voice)?;
        validate_home_assistant(&self.integrations.home_assistant)?;
        validate_spotify(&self.integrations.spotify)?;
        validate_web_search(&self.integrations.web_search)
    }
}

impl Config {
    /// The defaults, with the command that reasons. It works in a directory of its
    /// own, which is named after it.
    pub fn defaults(binary: String) -> (d: Self)
        ensures
            d.is_default(),
            d.providers.claude_cli.binary == binary,
    {
        Config {
            server: ServerConfig {
                bind: "127.0.0.1:8741".to_owned(),
                web_assets: None,
                tls: None,
            },
            database: DatabaseConfig {
                url_secret: "env:JARVIS_DB_URL".to_owned(),
                max_connections: 8,
            },
            observability: ObservabilityConfig { otlp_endpoint: None },
            providers: ProvidersConfig {
                claude_cli: ClaudeCliConfig {
                    workdir: text::concat3("/var/lib/jarvis/", binary.as_str(), "-work"),
                    binary,
                    reasoning_disable_builtin_tools: true,
                    idle_timeout_secs: 60,
                },
                embeddings: EmbeddingsConfig::default(),
            },
            integrations: IntegrationsConfig::default(),
            storage: StorageConfig::default(),
            display: DisplayConfig::default(),
            maps: MapsConfig::default(),
            ui: UiConfig::default(),
            voice: VoiceConfig::default(),
            timers: TimersConfig::default(),
            lists: ListsConfig::default(),
            apps: AppsConfig::default(),
        }
    }
}

/// The defaults are a valid configuration on a loopback address.
pub proof fn law_defaults_are_valid(c: Config, shown: String)
    requires
        c.is_default(),
    ensures
        config_fault(c, BindAddress::Socket { shown, loopback: true }) is None,
{
    reveal_strlit("env:JARVIS_DB_URL");
    reveal_strlit("env:");
    assert("env:"@.is_prefix_of("env:JARVIS_DB_URL"@));
}

/// A configuration that passes never serves device tokens in the clear on a
/// network: it listens on loopback, or it has a certificate at absolute paths.
pub proof fn law_valid_config_is_not_plaintext_on_a_network(c: Config, bind: BindAddress)
    requires
        config_fault(c, bind) is None,
    ensures
        bind matches BindAddress::Socket { shown, loopback } && (loopback || c.server.tls is Some),
        c.server.tls matches Some(tls) ==> is_absolute(tls.cert_path@) && is_absolute(
            tls.key_path@,
        ),
{
}

/// A configuration that passes holds no literal secret for the database, nor for
/// the mail, calendar, home, music, voice and web-search sections that are in use.
pub proof fn law_valid_config_holds_references_only(c: Config, bind: BindAddress)
    requires
        config_fault(c, bind) is None,
    ensures
        secrets::is_secret_ref(c.database.url_secret@),
        c.integrations.smtp.enabled ==> secrets::is_secret_ref(
            c.integrations.smtp.password_secret@,
        ),
        c.integrations.caldav.enabled ==> secrets::is_secret_ref(
            c.integrations.caldav.password_secret@,
        ),
        c.integrations.home_assistant.enabled ==> secrets::is_secret_ref(
            c.integrations.home_assistant.token_secret@,
        ),
        c.integrations.spotify.enabled ==> secrets::is_secret_ref(
            c.integrations.spotify.refresh_token_secret@,
        ),
        c.voice.elevenlabs.enabled ==> (c.voice.elevenlabs.api_key_ref matches Some(k)
            && secrets::is_secret_ref(k@)),
        c.integrations.web_search matches Some(web) ==> secrets::is_secret_ref(
            web.api_key_secret@,
        ),
{
}

/// A configuration is accepted exactly where each of its parts is: an address
/// that can be read and is either loopback or behind TLS; paths that are
/// absolute; references for every secret that will be needed; and, of what is
/// switched on, all that it cannot do without.
pub proof fn law_a_configuration_is_accepted_where_its_parts_are(c: Config, bind: BindAddress)
    ensures
        config_fault(c, bind) is None <==> {
            &&& server_fault(c.server, bind) is None
            &&& secrets::is_secret_ref(c.database.url_secret@)
            &&& maps_fault(c.maps) is None
            &&& elevenlabs_fault(c.voice) is None
            &&& smtp_fault(c.integrations.smtp) is None
            &&& caldav_fault(c.integrations.caldav) is None
            &&& voice_fault(c.voice) is None
            &&& home_assistant_fault(c.integrations.home_assistant) is None
            &&& spotify_fault(c.integrations.spotify) is None
            &&& web_search_fault(c.integrations.web_search) is None
        },
{
}

/// The daemon binds an address that it can read: to the loopback as it is, and
/// to any other with a certificate and a key, both named by absolute paths.
pub proof fn law_a_server_is_private_or_behind_tls(server: ServerConfig, bind: BindAddress)
    ensures
        server_fault(server, bind) is None <==> match bind {
            BindAddress::Unreadable { .. } => false,
            BindAddress::Socket { shown, loopback } => match server.tls {
                None => loopback,
                Some(tls) => tls.cert_path@.len() > 0 && tls.cert_path@[0] == '/'
                    && tls.key_path@.len() > 0 && tls.key_path@[0] == '/',
            },
        },
{
}

/// What is switched off is not looked at; what is switched on must be complete.
pub proof fn law_what_is_switched_on_is_complete(
    maps: MapsConfig,
    smtp: SmtpConfig,
    caldav: CaldavConfig,
    home: HomeAssistantConfig,
    spotify: SpotifyConfig,
    web: Option<WebSearchConfig>,
)
    ensures
        maps_fault(maps) is None <==> (maps.pmtiles_path matches Some(p) ==> p@.len() == 0 || p@[0]
            == '/'),
        smtp_fault(smtp) is None <==> (smtp.enabled ==> {
            &&& text::trimmed(smtp.host@).len() > 0
            &&& text::trimmed(smtp.from_address@).len() > 0
            &&& secrets::is_secret_ref(smtp.password_secret@)
        }),
        caldav_fault(caldav) is None <==> (caldav.enabled ==> {
            &&& text::trimmed(caldav.server_url@).len() > 0
            &&& secrets::is_secret_ref(caldav.password_secret@)
        }),
        home_assistant_fault(home) is None <==> (home.enabled ==> {
            &&& "https://"@.is_prefix_of(home.base_url@)
            &&& secrets::is_secret_ref(home.token_secret@)
        }),
        spotify_fault(spotify) is None <==> (spotify.enabled ==> {
            &&& text::trimmed(spotify.client_id@).len() > 0
            &&& 0 < spotify.max_volume_pct < 101
            &&& secrets::is_secret_ref(spotify.refresh_token_secret@)
        }),
        web_search_fault(web) is None <==> (web matches Some(w) ==> secrets::is_secret_ref(
            w.api_key_secret@,
        )),
{
}

/// Voice that is switched on hears over TCP and, where it speaks, speaks over
/// TCP, in an audio format that exists. The cloud voice is had only with the
/// local one, a key by reference, a voice and a budget.
pub proof fn law_voice_that_is_switched_on_is_complete(voice: VoiceConfig)
    ensures
        voice_fault(voice) is None <==> (voice.enabled ==> {
            &&& "tcp://"@.is_prefix_of(voice.wyoming_stt@)
            &&& voice.wyoming_tts matches Some(tts) ==> "tcp://"@.is_prefix_of(tts@)
            &&& voice.audio.sample_rate > 0
            &&& voice.audio.channels > 0
            &&& voice.audio.format@ == "s16le"@
        }),
        elevenlabs_fault(voice) is None <==> (voice.elevenlabs.enabled ==> {
            &&& voice.enabled
            &&& voice.wyoming_tts is Some
            &&& voice.elevenlabs.api_key_ref is Some
            &&& text::trimmed(voice.elevenlabs.api_key_ref->0@).len() > 0
            &&& secrets::is_secret_ref(voice.elevenlabs.api_key_ref->0@)
            &&& voice.elevenlabs.voice_id is Some
            &&& text::trimmed(voice.elevenlabs.voice_id->0@).len() > 0
            &&& voice.elevenlabs.character_budget > 0
        }),
{
}

/// Of two faults the first is told.
pub proof fn law_the_first_fault_is_told(a: Option<Seq<char>>, b: Option<Seq<char>>, told: Seq<char>)
    ensures
        first_of(a, b) is None <==> a is None && b is None,
        a is Some ==> first_of(a, b) == a,
        a is None ==> first_of(a, b) == b,
        rule(true, told) is None,
        rule(false, told) == Some(told),
{
}

/// A fresh installation reaches nothing and nobody: it listens on the loopback,
/// every integration is off, voice and apps are off, no map is shown, and every
/// secret that a section names it names by reference.
pub proof fn law_a_fresh_installation_keeps_to_itself(c: Config)
    requires
        c.is_default(),
    ensures
        c.server.bind@ == "127.0.0.1:8741"@,
        c.server.tls is None && c.server.web_assets is None,
        c.observability.otlp_endpoint is None,
        c.integrations.web_search is None,
        !c.integrations.smtp.enabled && !c.integrations.caldav.enabled,
        !c.integrations.home_assistant.enabled && !c.integrations.spotify.enabled,
        !c.integrations.media.enabled,
        !c.voice.enabled && !c.voice.elevenlabs.enabled && !c.apps.enabled,
        c.voice.wyoming_tts is None && c.voice.elevenlabs.api_key_ref is None,
        c.maps.pmtiles_path is None && c.maps.attribution is None,
        c.timers.enabled && c.lists.enabled,
        secrets::is_secret_ref(c.database.url_secret@),
        secrets::is_secret_ref(c.integrations.smtp.password_secret@),
        secrets::is_secret_ref(c.integrations.caldav.password_secret@),
        secrets::is_secret_ref(c.integrations.home_assistant.token_secret@),
        secrets::is_secret_ref(c.integrations.spotify.refresh_token_secret@),
        c.integrations.home_assistant.lights@.len() == 0
            && c.integrations.home_assistant.readable@.len() == 0,
        c.integrations.home_assistant.scenes@.len() == 0
            && c.integrations.home_assistant.scripts@.len() == 0,
        c.integrations.media.max_volume_pct <= 100 && c.integrations.spotify.max_volume_pct <= 100,
        c.providers.claude_cli.reasoning_disable_builtin_tools,
{
    reveal_strlit("env:");
    reveal_strlit("keyring:");
    reveal_strlit("env:JARVIS_DB_URL");
    reveal_strlit("keyring:jarvis/smtp");
    reveal_strlit("keyring:jarvis/caldav");
    reveal_strlit("keyring:jarvis/home-assistant");
    reveal_strlit("keyring:jarvis/spotify");
    assert("env:JARVIS_DB_URL"@.subrange(0, 4) =~= "env:"@);
    assert("keyring:jarvis/smtp"@.subrange(0, 8) =~= "keyring:"@);
    assert("keyring:jarvis/caldav"@.subrange(0, 8) =~= "keyring:"@);
    assert("keyring:jarvis/home-assistant"@.subrange(0, 8) =~= "keyring:"@);
    assert("keyring:jarvis/spotify"@.subrange(0, 8) =~= "keyring:"@);
}

} // verus!
