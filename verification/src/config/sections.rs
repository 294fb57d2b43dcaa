//! The sections of the configuration file and their documented defaults.
//! Paths are texts; which file they name is the caller's business.

use vstd::prelude::*;

use crate::text;
use crate::text_map::TextMap;

verus! {

/// `[apps]`: generated apps. Off by default, like every capability that spawns
/// a process.
pub struct AppsConfig {
    pub enabled: bool,
    /// The command that runs the worker.
    pub worker_command: String,
    /// Arguments to that command; the default runs the in-repo worker directly.
    pub worker_args: Vec<String>,
    /// The lockfile whose hash is recorded as build provenance.
    pub lockfile: String,
    /// Builder image reference. Its presence is what lets the host attest
    /// network isolation.
    pub worker_image: Option<String>,
}

pub fn default_app_worker_command() -> (s: String)
    ensures
        s@ == "node"@,
{
    "node".to_owned()
}

pub fn default_app_worker_args() -> (v: Vec<String>)
    ensures
        text::views(v@) == seq!["tools/app-builder/src/index.mjs"@],
{
    let mut v: Vec<String> = Vec::new();
    v.push("tools/app-builder/src/index.mjs".to_owned());
    assert(text::views(v@) =~= seq!["tools/app-builder/src/index.mjs"@]);
    v
}

pub fn default_app_lockfile() -> (s: String)
    ensures
        s@ == "tools/app-builder/templates/dashboard-v1/package-lock.json"@,
{
    "tools/app-builder/templates/dashboard-v1/package-lock.json".to_owned()
}

impl AppsConfig {
    /// The documented defaults.
    pub open spec fn is_default(self) -> bool {
        &&& !self.enabled
        &&& self.worker_command@ == "node"@
        &&& text::views(self.worker_args@) == seq!["tools/app-builder/src/index.mjs"@]
        &&& self.lockfile@ == "tools/app-builder/templates/dashboard-v1/package-lock.json"@
        &&& self.worker_image is None
    }
}

impl Default for AppsConfig {
    fn default() -> (d: Self)
        ensures
            d.is_default(),
    {
        AppsConfig {
            enabled: false,
            worker_command: default_app_worker_command(),
            worker_args: default_app_worker_args(),
            lockfile: default_app_lockfile(),
            worker_image: None,
        }
    }
}

/// `[database]`.
pub struct DatabaseConfig {
    /// Secret reference resolving to the database URL, never the URL itself.
    pub url_secret: String,
    pub max_connections: u32,
}

/// `[display]`: which monitor each logical surface is pinned to, and which
/// paired device a room name stands for.
pub struct DisplayConfig {
    /// Surface name to compositor connector name.
    pub profile: TextMap<String>,
    /// Room name to paired device id.
    pub node_aliases: TextMap<String>,
    /// Which paired device shows the media window: a device id, or a room name.
    pub media_window_device: Option<String>,
}

impl DisplayConfig {
    /// The documented defaults.
    pub open spec fn is_default(self) -> bool {
        &&& self.profile@ == Map::<Seq<char>, String>::empty()
        &&& self.node_aliases@ == Map::<Seq<char>, String>::empty()
        &&& self.media_window_device is None
    }
}

impl Default for DisplayConfig {
    fn default() -> (d: Self)
        ensures
            d.is_default(),
    {
        DisplayConfig {
            profile: TextMap::new(),
            node_aliases: TextMap::new(),
            media_window_device: None,
        }
    }
}

/// `[integrations.caldav]`: read-only calendar access.
pub struct CaldavConfig {
    pub enabled: bool,
    pub server_url: String,
    pub username: String,
    pub password_secret: String,
}

pub fn default_caldav_password_secret() -> (s: String)
    ensures
        s@ == "keyring:jarvis/caldav"@,
{
    "keyring:jarvis/caldav".to_owned()
}

impl CaldavConfig {
    /// The documented defaults.
    pub open spec fn is_default(self) -> bool {
        &&& !self.enabled
        &&& self.server_url@ == ""@
        &&& self.username@ == ""@
        &&& self.password_secret@ == "keyring:jarvis/caldav"@
    }
}

impl Default for CaldavConfig {
    fn default() -> (d: Self)
        ensures
            d.is_default(),
    {
        CaldavConfig {
            enabled: false,
            server_url: "".to_owned(),
            username: "".to_owned(),
            password_secret: default_caldav_password_secret(),
        }
    }
}

/// `[integrations.smtp]`: outgoing mail.
pub struct SmtpConfig {
    pub enabled: bool,
    pub host: String,
    pub port: u16,
    pub username: String,
    pub password_secret: String,
    pub from_address: String,
}

pub fn default_smtp_port() -> (port: u16)
    ensures
        port == 587,
{
    587
}

pub fn default_smtp_password_secret() -> (s: String)
    ensures
        s@ == "keyring:jarvis/smtp"@,
{
    "keyring:jarvis/smtp".to_owned()
}

impl SmtpConfig {
    /// The documented defaults.
    pub open spec fn is_default(self) -> bool {
        &&& !self.enabled
        &&& self.host@ == ""@
        &&& self.port == 587
        &&& self.username@ == ""@
        &&& self.password_secret@ == "keyring:jarvis/smtp"@
        &&& self.from_address@ == ""@
    }
}

impl Default for SmtpConfig {
    fn default() -> (d: Self)
        ensures
            d.is_default(),
    {
        SmtpConfig {
            enabled: false,
            host: "".to_owned(),
            port: default_smtp_port(),
            username: "".to_owned(),
            password_secret: default_smtp_password_secret(),
            from_address: "".to_owned(),
        }
    }
}

/// `[integrations.home_assistant]`. The four allowlists are empty by default:
/// an enabled but unpopulated section controls nothing.
pub struct HomeAssistantConfig {
    pub enabled: bool,
    /// `https://` base URL of the instance.
    pub base_url: String,
    /// Secret reference resolving to a dedicated access token.
    pub token_secret: String,
    /// Entities that may be read.
    pub readable: Vec<String>,
    /// `light.*` entities that may be switched.
    pub lights: Vec<String>,
    /// `scene.*` entities that may be run.
    pub scenes: Vec<String>,
    /// `script.*` entities that may be run.
    pub scripts: Vec<String>,
}

pub fn default_ha_token_secret() -> (s: String)
    ensures
        s@ == "keyring:jarvis/home-assistant"@,
{
    "keyring:jarvis/home-assistant".to_owned()
}

impl HomeAssistantConfig {
    /// The documented defaults.
    pub open spec fn is_default(self) -> bool {
        &&& !self.enabled
        &&& self.base_url@ == ""@
        &&& self.token_secret@ == "keyring:jarvis/home-assistant"@
        &&& self.readable@.len() == 0
        &&& self.lights@.len() == 0
        &&& self.scenes@.len() == 0
        &&& self.scripts@.len() == 0
    }
}

impl Default for HomeAssistantConfig {
    fn default() -> (d: Self)
        ensures
            d.is_default(),
    {
        HomeAssistantConfig {
            enabled: false,
            base_url: "".to_owned(),
            token_secret: default_ha_token_secret(),
            readable: Vec::new(),
            lights: Vec::new(),
            scenes: Vec::new(),
            scripts: Vec::new(),
        }
    }
}

/// `[integrations.spotify]`.
pub struct SpotifyConfig {
    pub enabled: bool,
    /// OAuth client id (public by design, not a secret).
    pub client_id: String,
    /// Secret reference resolving to the OAuth refresh token.
    pub refresh_token_secret: String,
    /// Ceiling for an unapproved volume change.
    pub max_volume_pct: u8,
    /// Optional two-letter market for catalogue relevance.
    pub market: Option<String>,
    /// Friendly name to device id.
    pub device_aliases: TextMap<String>,
}

pub fn default_spotify_refresh_secret() -> (s: String)
    ensures
        s@ == "keyring:jarvis/spotify"@,
{
    "keyring:jarvis/spotify".to_owned()
}

pub fn default_spotify_max_volume() -> (pct: u8)
    ensures
        pct == 70,
{
    70
}

impl SpotifyConfig {
    /// The documented defaults.
    pub open spec fn is_default(self) -> bool {
        &&& !self.enabled
        &&& self.client_id@ == ""@
        &&& self.refresh_token_secret@ == "keyring:jarvis/spotify"@
        &&& self.max_volume_pct == 70
        &&& self.market is None
        &&& self.device_aliases@ == Map::<Seq<char>, String>::empty()
    }
}

impl Default for SpotifyConfig {
    fn default() -> (d: Self)
        ensures
            d.is_default(),
    {
        SpotifyConfig {
            enabled: false,
            client_id: "".to_owned(),
            refresh_token_secret: default_spotify_refresh_secret(),
            max_volume_pct: default_spotify_max_volume(),
            market: None,
            device_aliases: TextMap::new(),
        }
    }
}

/// `[integrations.web_search]`. Its presence is the consent to search the web.
pub struct WebSearchConfig {
    /// Search provider.
    pub provider: String,
    /// Secret reference resolving to the provider's API key.
    pub api_key_secret: String,
    /// Most bytes read from a fetched page before truncation.
    pub max_fetch_bytes: usize,
}

pub fn default_web_provider() -> (s: String)
    ensures
        s@ == "brave"@,
{
    "brave".to_owned()
}

pub fn default_max_fetch_bytes() -> (n: usize)
    ensures
        n == 2 * 1024 * 1024,
{
    2 * 1024 * 1024
}

impl WebSearchConfig {
    /// The one provider there is an adapter for.
    pub fn is_supported(&self) -> (b: bool)
        ensures
            b == (self.provider@ == "brave"@),
    {
        text::same(self.provider.as_str(), "brave")
    }
}

/// A volume in percent.
#[derive(Debug, Clone, Copy, PartialEq, Eq, Structural)]
pub struct VolumePct {
    pub pct: u8,
}

impl VolumePct {
    pub open spec fn wf(self) -> bool {
        self.pct <= 100
    }

    /// The volume, where it is at most a hundred percent.
    pub fn new(pct: u8) -> (r: Option<Self>)
        ensures
            r is Some <==> is_percentage(pct as int),
            r matches Some(v) ==> v.pct == pct,
            r == (if pct <= 100 {
                Some(VolumePct { pct })
            } else {
                None
            }),
    {
        if pct <= 100 {
            Some(VolumePct { pct })
        } else {
            None
        }
    }

    /// The volume that a request names, where it is a percentage.
    pub fn from_i64(value: i64) -> (r: Option<Self>)
        ensures
            r is Some <==> is_percentage(value as int),
            r matches Some(v) ==> v.pct == value,
            r == (if 0 <= value <= 100 {
                Some(VolumePct { pct: value as u8 })
            } else {
                None
            }),
    {
        if 0 <= value && value <= 100 {
            Some(VolumePct { pct: value as u8 })
        } else {
            None
        }
    }

    pub fn get(self) -> (pct: u8)
        ensures
            pct == self.pct,
    {
        self.pct
    }

    /// Whether this volume is at or below the cap.
    pub fn within_cap(self, cap: VolumePct) -> (b: bool)
        ensures
            b == (self.pct <= cap.pct),
    {
        self.pct <= cap.pct
    }
}

/// `[integrations.media]`: local transport control, off by default.
pub struct MediaConfig {
    pub enabled: bool,
    /// The hearing-protection cap.
    pub max_volume_pct: u8,
}

pub fn default_max_volume_pct() -> (pct: u8)
    ensures
        pct == 70,
{
    70
}

impl MediaConfig {
    /// The documented defaults.
    pub open spec fn is_default(self) -> bool {
        &&& !self.enabled
        &&& self.max_volume_pct == 70
    }
}

impl Default for MediaConfig {
    fn default() -> (d: Self)
        ensures
            d.is_default(),
    {
        MediaConfig { enabled: false, max_volume_pct: default_max_volume_pct() }
    }
}

impl MediaConfig {
    /// The validated cap. An out-of-range value is a configuration error rather
    /// than a silent clamp: a mistyped `700` must not read as "no cap".
    pub fn max_volume(&self) -> (r: Result<VolumePct, String>)
        ensures
            match r {
                Ok(v) => self.max_volume_pct <= 100 && v.pct == self.max_volume_pct && v.wf(),
                Err(e) => self.max_volume_pct > 100 && e@
                    == "[integrations.media].max_volume_pct: must be 0..=100"@,
            },
    {
        match VolumePct::new(self.max_volume_pct) {
            Some(v) => Ok(v),
            None => Err("[integrations.media].max_volume_pct: must be 0..=100".to_owned()),
        }
    }
}

/// Optional integrations. Each is absent or off by default: an unconfigured
/// integration registers no tools.
pub struct IntegrationsConfig {
    pub caldav: CaldavConfig,
    pub web_search: Option<WebSearchConfig>,
    pub media: MediaConfig,
    pub smtp: SmtpConfig,
    pub home_assistant: HomeAssistantConfig,
    pub spotify: SpotifyConfig,
}

impl IntegrationsConfig {
    /// The documented defaults.
    pub open spec fn is_default(self) -> bool {
        &&& self.web_search is None
        &&& self.caldav.is_default()
        &&& self.media.is_default()
        &&& self.smtp.is_default()
        &&& self.home_assistant.is_default()
        &&& self.spotify.is_default()
    }
}

impl Default for IntegrationsConfig {
    fn default() -> (d: Self)
        ensures
            d.is_default(),
    {
        IntegrationsConfig {
            caldav: CaldavConfig::default(),
            web_search: None,
            media: MediaConfig::default(),
            smtp: SmtpConfig::default(),
            home_assistant: HomeAssistantConfig::default(),
            spotify: SpotifyConfig::default(),
        }
    }
}

pub fn default_true() -> (b: bool)
    ensures
        b,
{
    true
}

/// `[lists]`: on by default, for nothing in it reaches outside the machine.
pub struct ListsConfig {
    pub enabled: bool,
}

impl ListsConfig {
    /// The documented defaults.
    pub open spec fn is_default(self) -> bool {
        &&& self.enabled
    }
}

impl Default for ListsConfig {
    fn default() -> (d: Self)
        ensures
            d.is_default(),
    {
        ListsConfig { enabled: default_true() }
    }
}

/// `[maps]`: the locally served region extract. No path, or an empty one, means
/// no map endpoints at all.
pub struct MapsConfig {
    pub pmtiles_path: Option<String>,
    pub attribution: Option<String>,
}

impl MapsConfig {
    /// The documented defaults.
    pub open spec fn is_default(self) -> bool {
        &&& self.pmtiles_path is None
        &&& self.attribution is None
    }
}

impl Default for MapsConfig {
    fn default() -> (d: Self)
        ensures
            d.is_default(),
    {
        MapsConfig { pmtiles_path: None, attribution: None }
    }
}

impl MapsConfig {
    /// The configured archive path. An empty text is "not configured", not a
    /// path to the current directory.
    pub open spec fn spec_archive_path(self) -> Option<Seq<char>> {
        match self.pmtiles_path {
            Some(p) => if p@.len() > 0 {
                Some(p@)
            } else {
                None
            },
            None => None,
        }
    }

    pub fn archive_path(&self) -> (r: Option<&str>)
        ensures
            match r {
                Some(p) => self.spec_archive_path() == Some(p@),
                None => self.spec_archive_path() is None,
            },
    {
        match &self.pmtiles_path {
            Some(p) => if p.as_str().is_empty() {
                None
            } else {
                Some(p.as_str())
            },
            None => None,
        }
    }

    /// The operator's attribution override, if it says anything.
    pub fn attribution_override(&self) -> (r: Option<String>)
        ensures
            text::opt_view(r) == said_attribution(self.attribution),
            text::opt_view(r) == (match self.attribution {
                Some(a) => if text::is_blank(a@) {
                    None
                } else {
                    Some(text::trimmed(a@))
                },
                None => None,
            }),
    {
        match &self.attribution {
            Some(a) => {
                let said = text::trim(a.as_str());
                if said.is_empty() {
                    None
                } else {
                    Some(said.to_owned())
                }
            },
            None => None,
        }
    }
}

/// `[observability]`.
pub struct ObservabilityConfig {
    /// Collector endpoint. Off by default; spans still go to the journal.
    pub otlp_endpoint: Option<String>,
}

/// `[providers.embeddings]`.
pub struct EmbeddingsConfig {
    pub model: String,
    pub cache_dir: String,
    pub idle_unload_secs: u64,
    pub intra_threads: usize,
}

pub fn default_embedding_model() -> (s: String)
    ensures
        s@ == "bge-small-en-v1.5"@,
{
    "bge-small-en-v1.5".to_owned()
}

pub fn default_embedding_cache_dir() -> (s: String)
    ensures
        s@ == "/var/lib/jarvis/models"@,
{
    "/var/lib/jarvis/models".to_owned()
}

pub fn default_embedding_idle_unload_secs() -> (n: u64)
    ensures
        n == 600,
{
    600
}

pub fn default_embedding_threads() -> (n: usize)
    ensures
        n == 2,
{
    2
}

impl EmbeddingsConfig {
    /// The documented defaults.
    pub open spec fn is_default(self) -> bool {
        &&& self.model@ == "bge-small-en-v1.5"@
        &&& self.cache_dir@ == "/var/lib/jarvis/models"@
        &&& self.idle_unload_secs == 600
        &&& self.intra_threads == 2
    }
}

impl Default for EmbeddingsConfig {
    fn default() -> (d: Self)
        ensures
            d.is_default(),
    {
        EmbeddingsConfig {
            model: default_embedding_model(),
            cache_dir: default_embedding_cache_dir(),
            idle_unload_secs: default_embedding_idle_unload_secs(),
            intra_threads: default_embedding_threads(),
        }
    }
}

/// What the embedding model is loaded with.
pub struct FastEmbedConfig {
    pub model: String,
    pub cache_dir: String,
    pub intra_threads: usize,
    pub idle_unload_secs: u64,
}

impl EmbeddingsConfig {
    pub fn to_adapter(&self) -> (c: FastEmbedConfig)
        ensures
            c.model@ == self.model@,
            c.cache_dir@ == self.cache_dir@,
            c.intra_threads == self.intra_threads,
            c.idle_unload_secs == self.idle_unload_secs,
    {
        FastEmbedConfig {
            model: self.model.clone(),
            cache_dir: self.cache_dir.clone(),
            intra_threads: self.intra_threads,
            idle_unload_secs: self.idle_unload_secs,
        }
    }
}

/// How the command that reasons is spawned.
pub struct ClaudeCliConfig {
    /// The binary, resolved on the PATH of the service user.
    pub binary: String,
    /// Controlled working directory of the process.
    pub workdir: String,
    /// Whether the command's built-in tools are switched off.
    pub reasoning_disable_builtin_tools: bool,
    /// No event within this many seconds means unhealthy.
    pub idle_timeout_secs: u64,
}

/// What the reasoning adapter is spawned with.
pub struct CliSpawn {
    pub binary: String,
    pub workdir: String,
    pub disable_builtin_tools: bool,
    pub idle_timeout_secs: u64,
}

impl ClaudeCliConfig {
    /// The adapter's spawn settings, kept apart so that the adapter never
    /// depends on the host's configuration types.
    pub fn to_adapter(&self) -> (spawn: CliSpawn)
        ensures
            spawn.binary@ == self.binary@,
            spawn.workdir@ == self.workdir@,
            spawn.disable_builtin_tools == self.reasoning_disable_builtin_tools,
            spawn.idle_timeout_secs == self.idle_timeout_secs,
    {
        CliSpawn {
            binary: self.binary.clone(),
            workdir: self.workdir.clone(),
            disable_builtin_tools: self.reasoning_disable_builtin_tools,
            idle_timeout_secs: self.idle_timeout_secs,
        }
    }
}

/// `[providers.*]`.
pub struct ProvidersConfig {
    pub claude_cli: ClaudeCliConfig,
    pub embeddings: EmbeddingsConfig,
}

/// `[server]`.
pub struct ServerConfig {
    /// Where the daemon listens. Any address but loopback requires TLS.
    pub bind: String,
    /// Static web assets, if they are served from here.
    pub web_assets: Option<String>,
    /// Absent means plaintext, which is only legal on loopback.
    pub tls: Option<TlsConfig>,
}

/// `[server.tls]`: the certificate a node pins when it pairs.
pub struct TlsConfig {
    pub cert_path: String,
    pub key_path: String,
}

/// `[storage]`: root of the content-addressed blob store.
pub struct StorageConfig {
    pub artifacts_root: String,
}

pub fn default_artifacts_root() -> (s: String)
    ensures
        s@ == "/var/lib/jarvis/artifacts"@,
{
    "/var/lib/jarvis/artifacts".to_owned()
}

impl StorageConfig {
    /// The documented defaults.
    pub open spec fn is_default(self) -> bool {
        &&& self.artifacts_root@ == "/var/lib/jarvis/artifacts"@
    }
}

impl Default for StorageConfig {
    fn default() -> (d: Self)
        ensures
            d.is_default(),
    {
        StorageConfig { artifacts_root: default_artifacts_root() }
    }
}

/// `[timers]`: on by default.
pub struct TimersConfig {
    pub enabled: bool,
    /// Playback command for the audible alert.
    pub alert_command: String,
    /// Extra arguments for it.
    pub alert_args: Vec<String>,
}

pub fn default_alert_command() -> (s: String)
    ensures
        s@ == "paplay"@,
{
    "paplay".to_owned()
}

impl TimersConfig {
    /// The documented defaults.
    pub open spec fn is_default(self) -> bool {
        &&& self.enabled
        &&& self.alert_command@ == "paplay"@
        &&& self.alert_args@.len() == 0
    }
}

impl Default for TimersConfig {
    fn default() -> (d: Self)
        ensures
            d.is_default(),
    {
        TimersConfig {
            enabled: default_true(),
            alert_command: default_alert_command(),
            alert_args: Vec::new(),
        }
    }
}

/// `[ui]`: presentation and lifecycle settings.
pub struct UiConfig {
    /// `none`, `abstract` or `photo`.
    pub background: String,
    /// Path to the wallpaper when `background` is `photo`.
    pub background_photo: String,
    /// Panels expire silently after this many hours.
    pub panel_ttl_hours: u32,
    /// Offer to keep a thread as a document after this many follow-ups. Zero
    /// disables the offer.
    pub deepdive_promote_after: u32,
    /// `auto` or `reduced`.
    pub motion: String,
}

pub fn default_background() -> (s: String)
    ensures
        s@ == "none"@,
{
    "none".to_owned()
}

pub fn default_panel_ttl_hours() -> (n: u32)
    ensures
        n == 2,
{
    2
}

pub fn default_deepdive_promote_after() -> (n: u32)
    ensures
        n == 3,
{
    3
}

pub fn default_motion() -> (s: String)
    ensures
        s@ == "auto"@,
{
    "auto".to_owned()
}

impl UiConfig {
    /// The documented defaults.
    pub open spec fn is_default(self) -> bool {
        &&& self.background@ == "none"@
        &&& self.background_photo@ == ""@
        &&& self.panel_ttl_hours == 2
        &&& self.deepdive_promote_after == 3
        &&& self.motion@ == "auto"@
    }
}

impl Default for UiConfig {
    fn default() -> (d: Self)
        ensures
            d.is_default(),
    {
        UiConfig {
            background: default_background(),
            background_photo: "".to_owned(),
            panel_ttl_hours: default_panel_ttl_hours(),
            deepdive_promote_after: default_deepdive_promote_after(),
            motion: default_motion(),
        }
    }
}

/// `[voice]`: opt-in.
pub struct VoiceConfig {
    pub enabled: bool,
    pub wyoming_stt: String,
    /// Absent means that answers are not spoken.
    pub wyoming_tts: Option<String>,
    pub audio: VoiceAudioConfig,
    /// The word nodes answer to.
    pub wake_word: String,
    /// The words this household has models for.
    pub wake_words_available: Vec<String>,
    pub elevenlabs: ElevenLabsConfig,
}

pub fn default_wyoming_stt() -> (s: String)
    ensures
        s@ == "tcp://127.0.0.1:10300"@,
{
    "tcp://127.0.0.1:10300".to_owned()
}

pub fn default_wake_word() -> (s: String)
    ensures
        s@ == "hey jarvis"@,
{
    "hey jarvis".to_owned()
}

pub fn default_wake_words_available() -> (v: Vec<String>)
    ensures
        text::views(v@) == seq!["alexa"@, "hey jarvis"@, "hey mycroft"@],
{
    let mut v: Vec<String> = Vec::new();
    v.push("alexa".to_owned());
    v.push("hey jarvis".to_owned());
    v.push("hey mycroft".to_owned());
    assert(text::views(v@) =~= seq!["alexa"@, "hey jarvis"@, "hey mycroft"@]);
    v
}

impl VoiceConfig {
    /// The documented defaults.
    pub open spec fn is_default(self) -> bool {
        &&& !self.enabled
        &&& self.wyoming_stt@ == "tcp://127.0.0.1:10300"@
        &&& self.wyoming_tts is None
        &&& self.wake_word@ == "hey jarvis"@
        &&& text::views(self.wake_words_available@) == seq!["alexa"@, "hey jarvis"@, "hey mycroft"@]
        &&& self.audio.is_default()
        &&& self.elevenlabs.is_default()
    }
}

impl Default for VoiceConfig {
    fn default() -> (d: Self)
        ensures
            d.is_default(),
    {
        VoiceConfig {
            enabled: false,
            wyoming_stt: default_wyoming_stt(),
            wyoming_tts: None,
            audio: VoiceAudioConfig::default(),
            wake_word: default_wake_word(),
            wake_words_available: default_wake_words_available(),
            elevenlabs: ElevenLabsConfig::default(),
        }
    }
}

/// `[voice.elevenlabs]`: a third-party voice. Switching it on is the consent.
pub struct ElevenLabsConfig {
    pub enabled: bool,
    /// A secret reference, never a literal key.
    pub api_key_ref: Option<String>,
    pub voice_id: Option<String>,
    pub model_id: String,
    /// A ceiling that makes runaway spend impossible.
    pub character_budget: u64,
}

pub fn default_elevenlabs_model() -> (s: String)
    ensures
        s@ == "eleven_flash_v2_5"@,
{
    "eleven_flash_v2_5".to_owned()
}

pub fn default_elevenlabs_budget() -> (n: u64)
    ensures
        n == 100_000,
{
    100_000
}

impl ElevenLabsConfig {
    /// The documented defaults.
    pub open spec fn is_default(self) -> bool {
        &&& !self.enabled
        &&& self.api_key_ref is None
        &&& self.voice_id is None
        &&& self.model_id@ == "eleven_flash_v2_5"@
        &&& self.character_budget == 100_000
    }
}

impl Default for ElevenLabsConfig {
    fn default() -> (d: Self)
        ensures
            d.is_default(),
    {
        ElevenLabsConfig {
            enabled: false,
            api_key_ref: None,
            voice_id: None,
            model_id: default_elevenlabs_model(),
            character_budget: default_elevenlabs_budget(),
        }
    }
}

/// `[voice.audio]`.
pub struct VoiceAudioConfig {
    pub sample_rate: u32,
    pub channels: u16,
    pub format: String,
}

pub fn default_voice_sample_rate() -> (n: u32)
    ensures
        n == 16_000,
{
    16_000
}

pub fn default_voice_channels() -> (n: u16)
    ensures
        n == 1,
{
    1
}

pub fn default_voice_format() -> (s: String)
    ensures
        s@ == "s16le"@,
{
    "s16le".to_owned()
}

impl VoiceAudioConfig {
    /// The documented defaults.
    pub open spec fn is_default(self) -> bool {
        &&& self.sample_rate == 16_000
        &&& self.channels == 1
        &&& self.format@ == "s16le"@
    }
}

impl Default for VoiceAudioConfig {
    fn default() -> (d: Self)
        ensures
            d.is_default(),
    {
        VoiceAudioConfig {
            sample_rate: default_voice_sample_rate(),
            channels: default_voice_channels(),
            format: default_voice_format(),
        }
    }
}

/// What an operator's attribution says.
pub open spec fn said_attribution(attribution: Option<String>) -> Option<Seq<char>> {
    match attribution {
        Some(a) => if text::is_blank(a@) {
            None
        } else {
            Some(text::trimmed(a@))
        },
        None => None,
    }
}

pub open spec fn is_percentage(value: int) -> bool {
    0 <= value <= 100
}

/// An attribution says what it does without the white space round it, and
/// nothing where there is only that; and no percentage is below nothing or above
/// all.
pub proof fn law_attributions_and_percentages(attribution: Option<String>, value: int)
    ensures
        said_attribution(attribution) is Some <==> attribution is Some && text::trimmed(
            attribution->0@,
        ).len() > 0,
        said_attribution(attribution) matches Some(told) ==> told == text::trimmed(attribution->0@),
        is_percentage(value) <==> -1 < value < 101,
{
}

} // verus!
