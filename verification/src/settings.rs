//! The owner-tunable voice settings.
//!
//! A narrow slice of configuration: the wake word, chosen among the provisioned
//! ones, and the consent to a third-party voice. Consent is refused where it
//! could not be honoured.

use vstd::prelude::*;

use crate::audit;
use crate::audit::{AuditEvent, AuditValue};
use crate::identity::DeviceContext;
use crate::problem;
use crate::problem::{ErrorCode, ProblemDetails, RepositoryError};
use crate::text;
use crate::time::Timestamp;

verus! {

/// What the daemon was configured with, and so what the owner may choose
/// between.
pub struct VoiceCapabilities {
    /// The word the configuration names, used when there is no override.
    pub configured_wake_word: String,
    /// Words this installation has a provisioned model for.
    pub available_wake_words: Vec<String>,
    /// Whether the third-party voice has a key reference and a voice.
    pub elevenlabs_configured: bool,
    /// The local voice to fall back to, where there is one.
    pub local_fallback: Option<String>,
    pub character_budget: u64,
}

/// What the owner changed.
pub struct VoiceOverrides {
    pub wake_word: Option<String>,
    pub elevenlabs_enabled: Option<bool>,
}

/// The wake word in force: the override if there is one, else the configured.
pub open spec fn wake_word_of(c: VoiceCapabilities, o: VoiceOverrides) -> Seq<char> {
    match o.wake_word {
        Some(w) => w@,
        None => c.configured_wake_word@,
    }
}

pub fn wake_word(c: &VoiceCapabilities, o: &VoiceOverrides) -> (w: String)
    ensures
        w@ == wake_word_of(*c, *o),
{
    match &o.wake_word {
        Some(w) => w.clone(),
        None => c.configured_wake_word.clone(),
    }
}

/// Whether the third-party voice is on: the live gate is the truth where one is
/// wired, the stored override otherwise, and nothing means off.
pub open spec fn enabled_of(gate: Option<bool>, o: VoiceOverrides) -> bool {
    match gate {
        Some(live) => live,
        None => match o.elevenlabs_enabled {
            Some(stored) => stored,
            None => false,
        },
    }
}

pub fn elevenlabs_enabled(gate: Option<bool>, o: &VoiceOverrides) -> (b: bool)
    ensures
        b == enabled_of(gate, *o),
{
    match gate {
        Some(live) => live,
        None => match o.elevenlabs_enabled {
            Some(stored) => stored,
            None => false,
        },
    }
}

/// What the settings page shows of the third-party voice.
pub struct ElevenLabsSettingsDto {
    pub configured: bool,
    pub enabled: bool,
    pub spent_characters: u64,
    pub character_budget: u64,
    pub period: String,
    pub local_fallback: String,
}

/// What the settings page shows.
pub struct VoiceSettingsDto {
    pub wake_word: String,
    pub available_wake_words: Vec<String>,
    pub wake_word_warning: Option<String>,
    pub elevenlabs: ElevenLabsSettingsDto,
}

/// What is said of a wake word without a model: a node in that state answers to
/// nothing while looking healthy.
pub open spec fn warning_of(available: Seq<Seq<char>>, word: Seq<char>) -> Option<Seq<char>> {
    if available.contains(word) {
        None
    } else {
        Some(
            "no wake-word model is provisioned for "@ + text::debug_text(word)
                + "; nodes fall back to push-to-talk until one is installed"@,
        )
    }
}

/// Whether a page shows the settings in force.
pub open spec fn page_shows(
    dto: VoiceSettingsDto,
    c: VoiceCapabilities,
    o: VoiceOverrides,
    gate: Option<bool>,
    spent: u64,
    period: Seq<char>,
) -> bool {
    &&& dto.wake_word@ == wake_word_of(c, o)
    &&& dto.available_wake_words@ == c.available_wake_words@
    &&& text::opt_view(dto.wake_word_warning) == warning_of(
        text::views(c.available_wake_words@),
        wake_word_of(c, o),
    )
    &&& dto.elevenlabs.configured == c.elevenlabs_configured
    &&& dto.elevenlabs.enabled == enabled_of(gate, o)
    &&& dto.elevenlabs.spent_characters == spent
    &&& dto.elevenlabs.character_budget == c.character_budget
    &&& dto.elevenlabs.period@ == period
    &&& dto.elevenlabs.local_fallback@ == (match c.local_fallback {
        Some(f) => f@,
        None => "none"@,
    })
}

/// The settings page. `spent` is what the ledger said, or zero without one.
pub fn view(
    c: &VoiceCapabilities,
    o: &VoiceOverrides,
    gate: Option<bool>,
    spent: u64,
    period: &str,
) -> (dto: VoiceSettingsDto)
    ensures
        page_shows(dto, *c, *o, gate, spent, period@),
{
    let word = wake_word(c, o);
    let wake_word_warning = if text::contains_text(&c.available_wake_words, word.as_str()) {
        None
    } else {
        let shown = text::quoted(word.as_str());
        Some(
            text::concat3(
                "no wake-word model is provisioned for ",
                shown.as_str(),
                "; nodes fall back to push-to-talk until one is installed",
            ),
        )
    };
    VoiceSettingsDto {
        wake_word: word,
        available_wake_words: text::copy_texts(&c.available_wake_words),
        wake_word_warning,
        elevenlabs: ElevenLabsSettingsDto {
            configured: c.elevenlabs_configured,
            enabled: elevenlabs_enabled(gate, o),
            spent_characters: spent,
            character_budget: c.character_budget,
            period: period.to_owned(),
            local_fallback: match &c.local_fallback {
                Some(f) => f.clone(),
                None => "none".to_owned(),
            },
        },
    }
}

pub open spec fn ui_required_view() -> problem::ProblemView {
    problem::problem_of(
        403,
        ErrorCode::PolicyDenied,
        "settings are administered from the shell"@,
        Some("this device does not hold the `ui` scope"@),
    )
}

pub fn ui_required() -> (p: ProblemDetails)
    ensures
        p@ == ui_required_view(),
{
    problem::problem(
        403,
        ErrorCode::PolicyDenied,
        "settings are administered from the shell",
        Some("this device does not hold the `ui` scope".to_owned()),
    )
}

pub open spec fn storage_problem_view() -> problem::ProblemView {
    problem::problem_of(503, ErrorCode::ProviderUnavailable, "settings are unavailable"@, None)
}

pub fn storage_problem() -> (p: ProblemDetails)
    ensures
        p@ == storage_problem_view(),
{
    problem::unavailable("settings are unavailable")
}

/// The settings page for the owner, given what the store and the ledger said.
pub fn get_voice(
    caller: &DeviceContext,
    c: &VoiceCapabilities,
    stored: Result<VoiceOverrides, RepositoryError>,
    gate: Option<bool>,
    spent: Result<u64, RepositoryError>,
    period: &str,
) -> (r: Result<VoiceSettingsDto, ProblemDetails>)
    ensures
        answers_voice(r, *caller, *c, stored, gate, spent, period@),
        if !caller.spec_holds(crate::identity::UI_SCOPE@) {
            r matches Err(e) && e@ == ui_required_view()
        } else {
            match (stored, spent) {
                (Ok(o), Ok(n)) => r matches Ok(dto) && page_shows(dto, *c, o, gate, n, period@),
                _ => r matches Err(e) && e@ == storage_problem_view(),
            }
        },
{
    if !caller.holds_ui() {
        return Err(ui_required());
    }
    match (stored, spent) {
        (Ok(o), Ok(n)) => Ok(view(c, &o, gate, n, period)),
        _ => Err(storage_problem()),
    }
}

/// A requested change.
pub struct UpdateVoiceSettingsRequest {
    pub wake_word: Option<String>,
    pub elevenlabs_enabled: Option<bool>,
}

/// Why a change is refused.
pub open spec fn update_refusal(holds_ui: bool, c: VoiceCapabilities, req: UpdateVoiceSettingsRequest) -> Option<
    problem::ProblemView,
> {
    if !holds_ui {
        Some(ui_required_view())
    } else if req.wake_word matches Some(w) && !text::views(c.available_wake_words@).contains(
        text::trimmed(w@),
    ) {
        Some(
            problem::problem_of(
                400,
                ErrorCode::ValidationFailed,
                "no wake-word model is provisioned for that word"@,
                Some(
                    "available: "@ + text::joined(text::views(c.available_wake_words@), ", "@),
                ),
            ),
        )
    } else if req.elevenlabs_enabled == Some(true) && !c.elevenlabs_configured {
        Some(
            problem::problem_of(
                409,
                ErrorCode::ValidationFailed,
                "ElevenLabs is not configured on this daemon"@,
                Some(
                    "set [voice.elevenlabs] api_key_ref and voice_id in jarvisd.toml first (ADR-033)"@,
                ),
            ),
        )
    } else if req.elevenlabs_enabled == Some(true) && c.local_fallback is None {
        Some(
            problem::problem_of(
                409,
                ErrorCode::ValidationFailed,
                "there is no local voice to fall back to"@,
                Some(
                    "set [voice].wyoming_tts as well; an alarm must still ring with the network down (ADR-033 §3)"@,
                ),
            ),
        )
    } else {
        None
    }
}

/// An admitted change: what is stored, and the record in the same transaction.
pub struct VoiceChange {
    pub overrides: VoiceOverrides,
    pub audit: AuditEvent,
}

/// The trimmed wake word of a request.
pub open spec fn requested_word(req: UpdateVoiceSettingsRequest) -> Option<Seq<char>> {
    match req.wake_word {
        Some(w) => Some(text::trimmed(w@)),
        None => None,
    }
}

/// The record of a change: what changed, and no credential.
pub open spec fn updated_event(
    caller: DeviceContext,
    word: Option<Seq<char>>,
    enabled: Option<bool>,
    now: Timestamp,
) -> audit::AuditView {
    audit::event_of(
        now,
        audit::device_actor(caller.device_id@),
        "settings.voice.updated"@,
        "settings:voice"@,
        seq![
            (
                "wakeWord"@,
                match word {
                    Some(w) => audit::ValueView::Text(w),
                    None => audit::ValueView::Null,
                },
            ),
            (
                "elevenlabsEnabled"@,
                match enabled {
                    Some(b) => audit::ValueView::Bool(b),
                    None => audit::ValueView::Null,
                },
            ),
        ],
    )
}

/// Check a change, and say what is to be stored.
pub fn update_voice(
    caller: &DeviceContext,
    c: &VoiceCapabilities,
    req: &UpdateVoiceSettingsRequest,
    now: Timestamp,
) -> (r: Result<VoiceChange, ProblemDetails>)
    ensures
        match update_refusal(caller.spec_holds(crate::identity::UI_SCOPE@), *c, *req) {
            Some(p) => r matches Err(e) && e@ == p,
            None => r matches Ok(change) && text::opt_view(change.overrides.wake_word)
                == requested_word(*req) && change.overrides.elevenlabs_enabled
                == req.elevenlabs_enabled && change.audit@ == updated_event(
                *caller,
                requested_word(*req),
                req.elevenlabs_enabled,
                now,
            ),
        },
{
    if !caller.holds_ui() {
        return Err(ui_required());
    }
    if let Some(w) = &req.wake_word {
        if !text::contains_text(&c.available_wake_words, text::trim(w.as_str())) {
            let list = text::join(&c.available_wake_words, ", ");
            return Err(
                problem::problem(
                    400,
                    ErrorCode::ValidationFailed,
                    "no wake-word model is provisioned for that word",
                    Some(text::concat2("available: ", list.as_str())),
                ),
            );
        }
    }
    let enabling = match req.elevenlabs_enabled {
        Some(b) => b,
        None => false,
    };
    if enabling {
        if !c.elevenlabs_configured {
            return Err(
                problem::problem(
                    409,
                    ErrorCode::ValidationFailed,
                    "ElevenLabs is not configured on this daemon",
                    Some(
                        "set [voice.elevenlabs] api_key_ref and voice_id in jarvisd.toml first (ADR-033)".to_owned(),
                    ),
                ),
            );
        }
        if c.local_fallback.is_none() {
            return Err(
                problem::problem(
                    409,
                    ErrorCode::ValidationFailed,
                    "there is no local voice to fall back to",
                    Some(
                        "set [voice].wyoming_tts as well; an alarm must still ring with the network down (ADR-033 §3)".to_owned(),
                    ),
                ),
            );
        }
    }
    let word: Option<String> = match &req.wake_word {
        Some(w) => Some(text::trim(w.as_str()).to_owned()),
        None => None,
    };
    let word_value = match &word {
        Some(w) => AuditValue::Text(w.clone()),
        None => AuditValue::Null,
    };
    let enabled_value = match req.elevenlabs_enabled {
        Some(b) => AuditValue::Bool(b),
        None => AuditValue::Null,
    };
    let payload = audit::with_field(
        audit::with_field(audit::no_fields(), "wakeWord", word_value),
        "elevenlabsEnabled",
        enabled_value,
    );
    let event = AuditEvent {
        occurred_at: now,
        actor: audit::actor_of(caller.device_id.as_str()),
        event_type: "settings.voice.updated".to_owned(),
        target: "settings:voice".to_owned(),
        correlation_id: None,
        payload,
    };
    assert(event@ =~= updated_event(
        *caller,
        requested_word(*req),
        req.elevenlabs_enabled,
        now,
    ));
    Ok(
        VoiceChange {
            overrides: VoiceOverrides { wake_word: word, elevenlabs_enabled: req.elevenlabs_enabled },
            audit: event,
        },
    )
}

/// Where the live gate stands once the store answered: it only ever follows
/// what was durably recorded.
pub fn gate_after(gate: Option<bool>, stored: &Result<VoiceOverrides, RepositoryError>) -> (g: Option<
    bool,
>)
    ensures
        g == live_after(gate, *stored),
        g == (match (gate, *stored) {
            (Some(live), Ok(o)) => match o.elevenlabs_enabled {
                Some(enabled) => Some(enabled),
                None => Some(live),
            },
            _ => gate,
        }),
{
    match (gate, stored) {
        (Some(live), Ok(o)) => match o.elevenlabs_enabled {
            Some(enabled) => Some(enabled),
            None => Some(live),
        },
        _ => gate,
    }
}

/// The one setting that is about the satellite, for any paired device.
pub fn get_node_voice(
    c: &VoiceCapabilities,
    stored: Result<VoiceOverrides, RepositoryError>,
) -> (r: Result<String, ProblemDetails>)
    ensures
        match stored {
            Ok(o) => r matches Ok(w) && w@ == wake_word_of(*c, o),
            Err(_) => r matches Err(e) && e@ == storage_problem_view(),
        },
{
    match stored {
        Ok(o) => Ok(wake_word(c, &o)),
        Err(_) => Err(storage_problem()),
    }
}

/// No change can take the nodes deaf: a wake word that is accepted has a
/// provisioned model, so the page carries no warning for it.
pub proof fn law_accepted_word_is_provisioned(c: VoiceCapabilities, req: UpdateVoiceSettingsRequest)
    requires
        update_refusal(true, c, req) is None,
    ensures
        requested_word(req) matches Some(w) ==> warning_of(
            text::views(c.available_wake_words@),
            w,
        ) is None,
{
}

/// Consent to the third-party voice is only accepted where it can be honoured:
/// there is something to consent to, and a local voice to fall back to.
pub proof fn law_consent_can_be_honoured(holds_ui: bool, c: VoiceCapabilities, req: UpdateVoiceSettingsRequest)
    requires
        update_refusal(holds_ui, c, req) is None,
        req.elevenlabs_enabled == Some(true),
    ensures
        holds_ui,
        c.elevenlabs_configured,
        c.local_fallback is Some,
{
}

/// The settings in force: an override that was stored wins over what was
/// configured, and the switch that is live wins over the one that was stored.
/// Nothing is switched on that nobody switched on.
pub proof fn law_the_nearest_setting_wins(c: VoiceCapabilities, o: VoiceOverrides, live: Option<bool>)
    ensures
        o.wake_word matches Some(w) ==> wake_word_of(c, o) == w@,
        o.wake_word is None ==> wake_word_of(c, o) == c.configured_wake_word@,
        live matches Some(on) ==> enabled_of(live, o) == on,
        live is None && o.elevenlabs_enabled is Some ==> Some(enabled_of(live, o))
            == o.elevenlabs_enabled,
        live is None && o.elevenlabs_enabled is None ==> !enabled_of(live, o),
{
}

/// The page warns exactly of a wake word that no model was provisioned for.
pub proof fn law_the_page_warns_of_an_unprovisioned_word(available: Seq<Seq<char>>, word: Seq<char>)
    ensures
        warning_of(available, word) is None <==> exists|i: int|
            0 <= i < available.len() && #[trigger] available[i] == word,
        warning_of(available, word) matches Some(w) ==> text::has_part(w, text::debug_text(word)),
{
    if !available.contains(word) {
        text::law_parts_stand_between_others(
            seq![],
            text::debug_text(word),
            "no wake-word model is provisioned for "@,
            "; nodes fall back to push-to-talk until one is installed"@,
        );
    }
}

/// A change of the settings is accepted exactly from a device with the `ui`
/// scope, with a wake word that has a model, where it names one, and with the
/// cloud voice switched on only where it is configured and a local voice stands
/// behind it. Switching the cloud voice off is never refused for want of one.
pub proof fn law_settings_change_where_they_can_be_honoured(
    holds_ui: bool,
    c: VoiceCapabilities,
    req: UpdateVoiceSettingsRequest,
)
    ensures
        update_refusal(holds_ui, c, req) is None <==> {
            &&& holds_ui
            &&& req.wake_word matches Some(w) ==> text::views(c.available_wake_words@).contains(
                text::trimmed(w@),
            )
            &&& req.elevenlabs_enabled == Some(true) ==> c.elevenlabs_configured
                && c.local_fallback is Some
        },
        update_refusal(holds_ui, c, req) matches Some(p) ==> (p.status == 403 <==> !holds_ui),
        update_refusal(holds_ui, c, req) matches Some(p) ==> (p.status == 400 <==> holds_ui && (
        req.wake_word matches Some(w) && !text::views(c.available_wake_words@).contains(
            text::trimmed(w@),
        ))),
        req.wake_word matches Some(w) ==> requested_word(req) == Some(text::trimmed(w@)),
        req.wake_word is None ==> requested_word(req) is None,
{
}

/// The record of a change says which device made it, when, and what it set;
/// what it left alone is null.
pub proof fn law_setting_changes_are_recorded(
    caller: DeviceContext,
    word: Option<Seq<char>>,
    enabled: Option<bool>,
    now: Timestamp,
)
    ensures
        ({
            let r = updated_event(caller, word, enabled, now);
            &&& r.occurred_at == now
            &&& r.event_type == "settings.voice.updated"@
            &&& text::stripped(r.actor, "device:"@) == Some(caller.device_id@)
            &&& r.payload.len() == 2
            &&& r.payload[0].0 == "wakeWord"@ && r.payload[1].0 == "elevenlabsEnabled"@
            &&& word matches Some(w) ==> r.payload[0].1 == audit::ValueView::Text(w)
            &&& word is None ==> r.payload[0].1 is Null
            &&& enabled matches Some(b) ==> r.payload[1].1 == audit::ValueView::Bool(b)
            &&& enabled is None ==> r.payload[1].1 is Null
        }),
{
    text::law_a_prefix_is_taken_off(seq![], "device:"@, caller.device_id@);
}

/// The live switch after a change was stored.
pub open spec fn live_after(live: Option<bool>, stored: Result<VoiceOverrides, RepositoryError>) -> Option<bool> {
    match (live, stored) {
        (Some(on), Ok(o)) => match o.elevenlabs_enabled {
            Some(enabled) => Some(enabled),
            None => Some(on),
        },
        _ => live,
    }
}

/// What a look at the voice settings is answered with.
pub open spec fn answers_voice(
    r: Result<VoiceSettingsDto, ProblemDetails>,
    caller: DeviceContext,
    c: VoiceCapabilities,
    stored: Result<VoiceOverrides, RepositoryError>,
    live: Option<bool>,
    spent: Result<u64, RepositoryError>,
    period: Seq<char>,
) -> bool {
    if !caller.spec_holds(crate::identity::UI_SCOPE@) {
        r matches Err(e) && e@ == ui_required_view()
    } else {
        match (stored, spent) {
            (Ok(o), Ok(n)) => r matches Ok(dto) && page_shows(dto, c, o, live, n, period),
            _ => r matches Err(e) && e@ == storage_problem_view(),
        }
    }
}

/// The live switch follows a change that was stored and that names it, and
/// nothing else; where there is no live voice there is nothing to switch.
pub proof fn law_the_live_switch_follows_the_store(
    live: Option<bool>,
    stored: Result<VoiceOverrides, RepositoryError>,
)
    ensures
        live_after(live, stored) is Some <==> live is Some,
        stored is Err ==> live_after(live, stored) == live,
        live is Some && stored is Ok && stored->Ok_0.elevenlabs_enabled is Some ==> live_after(
            live,
            stored,
        ) == stored->Ok_0.elevenlabs_enabled,
        live is Some && stored is Ok && stored->Ok_0.elevenlabs_enabled is None ==> live_after(
            live,
            stored,
        ) == live,
{
}

/// The settings are shown exactly to a device with the `ui` scope, from a store
/// that can be read: what is in force, what was spent of the budget, and what
/// speaks where the cloud does not.
pub proof fn law_voice_settings_are_shown_to_the_owner(
    r: Result<VoiceSettingsDto, ProblemDetails>,
    caller: DeviceContext,
    c: VoiceCapabilities,
    stored: Result<VoiceOverrides, RepositoryError>,
    live: Option<bool>,
    spent: Result<u64, RepositoryError>,
    period: Seq<char>,
)
    requires
        answers_voice(r, caller, c, stored, live, spent, period),
    ensures
        r is Ok <==> text::views(caller.scopes@).contains("ui"@) && stored is Ok && spent is Ok,
        r matches Ok(dto) ==> {
            &&& dto.wake_word@ == wake_word_of(c, stored->Ok_0)
            &&& dto.available_wake_words@ == c.available_wake_words@
            &&& dto.wake_word_warning is None <==> text::views(c.available_wake_words@).contains(
                dto.wake_word@,
            )
            &&& dto.elevenlabs.configured == c.elevenlabs_configured
            &&& dto.elevenlabs.enabled == enabled_of(live, stored->Ok_0)
            &&& dto.elevenlabs.spent_characters == spent->Ok_0
            &&& dto.elevenlabs.character_budget == c.character_budget
            &&& dto.elevenlabs.period@ == period
            &&& c.local_fallback matches Some(f) ==> dto.elevenlabs.local_fallback@ == f@
            &&& c.local_fallback is None ==> dto.elevenlabs.local_fallback@ == "none"@
        },
        r matches Err(e) ==> e.status == (if text::views(caller.scopes@).contains("ui"@) {
            503u16
        } else {
            403u16
        }),
{
}

/// The codes that a client of the settings branches on.
pub proof fn law_setting_problems_have_their_codes()
    ensures
        ui_required_view().status == 403 && ui_required_view().code is PolicyDenied,
        storage_problem_view().status == 503 && storage_problem_view().code is ProviderUnavailable,
{
}

} // verus!
