//! Media control: which player a request is for, whether the control may be
//! applied, and what is recorded before it is.
//!
//! The volume cap holds whatever the client sends, and an ambiguous target is
//! never decided by guessing.

use vstd::prelude::*;

use crate::audit;
use crate::audit::{AuditEvent, AuditValue};
use crate::config::VolumePct;
use crate::identity::DeviceContext;
use crate::problem;
use crate::problem::{ErrorCode, ProblemDetails, RepositoryError};
use crate::text;
use crate::time::Timestamp;

verus! {

/// A player on the bus and what it says it can do.
#[derive(Debug)]
pub struct PlayerState {
    pub id: String,
    pub identity: String,
    pub can_play: bool,
    pub can_pause: bool,
    pub can_go_next: bool,
    pub can_go_previous: bool,
    pub can_seek: bool,
}

/// The players at one moment.
#[derive(Debug)]
pub struct MediaSnapshot {
    pub players: Vec<PlayerState>,
}

/// What a request without a named player would be for.
#[derive(Debug)]
pub enum TargetSelection {
    /// Exactly one player is active.
    One { id: String, short_name: String },
    /// Nothing is active.
    Nothing,
    /// Two or more players are active.
    Ambiguous,
}

/// What a controller reports of a failure.
#[derive(Debug)]
pub enum MediaError {
    PlayerGone,
    Unsupported,
    Unavailable,
    Cancelled,
    Failed(String),
}

/// Why a request could not be resolved to a player.
#[derive(Debug, Clone, Copy, PartialEq, Eq, Structural)]
pub enum MediaFault {
    /// The name is not a well-formed bus name.
    MalformedPlayer,
    /// A named player is not on the bus.
    PlayerNotRunning,
    /// Nothing is playing and no player was named.
    NothingPlaying,
    /// Two or more players are active: none is picked.
    Ambiguous,
}

/// The place of the first player with an identifier.
pub open spec fn player_at(players: Seq<PlayerState>, id: Seq<char>) -> Option<int>
    decreases players.len(),
{
    if players.len() == 0 {
        None
    } else {
        match player_at(players.drop_last(), id) {
            Some(i) => Some(i),
            None => if players.last().id@ == id {
                Some(players.len() - 1)
            } else {
                None
            },
        }
    }
}

pub proof fn lemma_player_at(players: Seq<PlayerState>, id: Seq<char>)
    ensures
        player_at(players, id) matches Some(i) ==> 0 <= i < players.len() && players[i].id@ == id,
    decreases players.len(),
{
    if players.len() > 0 {
        lemma_player_at(players.drop_last(), id);
    }
}

proof fn lemma_player_found(players: Seq<PlayerState>, id: Seq<char>, i: int)
    requires
        0 <= i < players.len(),
        player_at(players.take(i), id) is None,
        players[i].id@ == id,
    ensures
        player_at(players, id) == Some(i),
    decreases players.len(),
{
    if i == players.len() - 1 {
        assert(players.drop_last() =~= players.take(i));
    } else {
        assert(players.drop_last().take(i) =~= players.take(i));
        lemma_player_found(players.drop_last(), id, i);
    }
}

impl MediaSnapshot {
    pub fn position(&self, id: &str) -> (r: Option<usize>)
        ensures
            match r {
                Some(i) => i < self.players@.len() && player_at(self.players@, id@) == Some(
                    i as int,
                ),
                None => player_at(self.players@, id@) is None,
            },
    {
        let mut i: usize = 0;
        assert(self.players@.take(0) =~= seq![]);
        while i < self.players.len()
            invariant
                i <= self.players@.len(),
                player_at(self.players@.take(i as int), id@) is None,
            decreases self.players@.len() - i,
        {
            assert(self.players@.take(i + 1).drop_last() =~= self.players@.take(i as int));
            if text::same(self.players[i].id.as_str(), id) {
                proof {
                    lemma_player_found(self.players@, id@, i as int);
                }
                return Some(i);
            }
            i = i + 1;
        }
        assert(self.players@.take(self.players@.len() as int) =~= self.players@);
        None
    }
}

/// The player that a request is for, and the name it is called by.
pub open spec fn target_of(
    players: Seq<PlayerState>,
    requested: Option<Seq<char>>,
    well_formed: bool,
    selection: TargetSelection,
) -> Result<(Seq<char>, Seq<char>), MediaFault> {
    match requested {
        Some(raw) => if !well_formed {
            Err(MediaFault::MalformedPlayer)
        } else {
            match player_at(players, raw) {
                Some(i) => Ok((raw, players[i].identity@)),
                None => Err(MediaFault::PlayerNotRunning),
            }
        },
        None => match selection {
            TargetSelection::One { id, short_name } => match player_at(players, id@) {
                Some(i) => Ok((id@, players[i].identity@)),
                None => Ok((id@, short_name@)),
            },
            TargetSelection::Nothing => Err(MediaFault::NothingPlaying),
            TargetSelection::Ambiguous => Err(MediaFault::Ambiguous),
        },
    }
}

/// Resolve the target of a request. `well_formed` says whether a named player is
/// a well-formed bus name.
pub fn resolve_target(
    snapshot: &MediaSnapshot,
    requested: Option<&str>,
    well_formed: bool,
    selection: &TargetSelection,
) -> (r: Result<(String, String), MediaFault>)
    ensures
        match (
            r,
            target_of(
                snapshot.players@,
                match requested {
                    Some(s) => Some(s@),
                    None => None,
                },
                well_formed,
                *selection,
            ),
        ) {
            (Ok((id, label)), Ok((i, l))) => id@ == i && label@ == l,
            (Err(e), Err(f)) => e == f,
            _ => false,
        },
{
    match requested {
        Some(raw) => {
            if !well_formed {
                return Err(MediaFault::MalformedPlayer);
            }
            match snapshot.position(raw) {
                Some(i) => Ok((raw.to_owned(), snapshot.players[i].identity.clone())),
                None => Err(MediaFault::PlayerNotRunning),
            }
        },
        None => match selection {
            TargetSelection::One { id, short_name } => match snapshot.position(id.as_str()) {
                Some(i) => Ok((id.clone(), snapshot.players[i].identity.clone())),
                None => Ok((id.clone(), short_name.clone())),
            },
            TargetSelection::Nothing => Err(MediaFault::NothingPlaying),
            TargetSelection::Ambiguous => Err(MediaFault::Ambiguous),
        },
    }
}

pub open spec fn fault_view(fault: MediaFault) -> problem::ProblemView {
    match fault {
        MediaFault::MalformedPlayer => problem::problem_of(
            400,
            ErrorCode::ValidationFailed,
            "player is not a valid MPRIS name"@,
            None,
        ),
        MediaFault::PlayerNotRunning => problem::problem_of(
            404,
            ErrorCode::ResourceNotFound,
            "that player is no longer running"@,
            None,
        ),
        MediaFault::NothingPlaying => problem::problem_of(
            409,
            ErrorCode::ResourceVersionConflict,
            "nothing is playing"@,
            None,
        ),
        MediaFault::Ambiguous => problem::problem_of(
            409,
            ErrorCode::ResourceVersionConflict,
            "more than one player is active: name one in `player`"@,
            None,
        ),
    }
}

pub fn fault_response(fault: MediaFault) -> (p: ProblemDetails)
    ensures
        p@ == fault_view(fault),
{
    match fault {
        MediaFault::MalformedPlayer => problem::bad_request("player is not a valid MPRIS name"),
        MediaFault::PlayerNotRunning => problem::not_found("that player is no longer running"),
        MediaFault::NothingPlaying => problem::problem(
            409,
            ErrorCode::ResourceVersionConflict,
            "nothing is playing",
            None,
        ),
        MediaFault::Ambiguous => problem::problem(
            409,
            ErrorCode::ResourceVersionConflict,
            "more than one player is active: name one in `player`",
            None,
        ),
    }
}

pub open spec fn media_problem_view(error: MediaError) -> problem::ProblemView {
    match error {
        MediaError::PlayerGone => problem::problem_of(
            409,
            ErrorCode::ResourceVersionConflict,
            "that player is no longer running"@,
            None,
        ),
        MediaError::Unsupported => problem::problem_of(
            409,
            ErrorCode::ValidationFailed,
            "the player does not support that control"@,
            None,
        ),
        MediaError::Unavailable => problem::problem_of(
            503,
            ErrorCode::ProviderUnavailable,
            "media control is unavailable"@,
            None,
        ),
        MediaError::Cancelled => problem::problem_of(
            503,
            ErrorCode::ProviderUnavailable,
            "media control was cancelled"@,
            None,
        ),
        MediaError::Failed(_) => problem::problem_of(
            503,
            ErrorCode::ProviderUnavailable,
            "media control failed"@,
            None,
        ),
    }
}

pub fn media_problem(error: MediaError) -> (p: ProblemDetails)
    ensures
        p@ == media_problem_view(error),
{
    match error {
        MediaError::PlayerGone => problem::problem(
            409,
            ErrorCode::ResourceVersionConflict,
            "that player is no longer running",
            None,
        ),
        MediaError::Unsupported => problem::problem(
            409,
            ErrorCode::ValidationFailed,
            "the player does not support that control",
            None,
        ),
        MediaError::Unavailable => problem::unavailable("media control is unavailable"),
        MediaError::Cancelled => problem::unavailable("media control was cancelled"),
        MediaError::Failed(_) => problem::unavailable("media control failed"),
    }
}

/// What a failing audit store is answered with: a command that cannot be
/// recorded must not happen.
pub fn repository_problem(error: RepositoryError) -> (p: ProblemDetails)
    ensures
        p@ == problem::merged_problem(error, "media command conflict"@, "storage unavailable"@),
{
    problem::repository_problem_merged_idempotency(
        error,
        "media command",
        "media command conflict",
        "storage unavailable",
    )
}

// ---------------------------------------------------------------------------
// State
// ---------------------------------------------------------------------------

/// What the media bar is told.
pub struct MediaStateAnswer {
    /// The players, where a controller is there.
    pub snapshot: Option<MediaSnapshot>,
    pub max_volume_pct: u8,
    pub available: bool,
}

/// What is playing. No controller is a normal state, not an error.
pub fn get_state(snapshot: Result<MediaSnapshot, MediaError>, max_volume: VolumePct) -> (r: Result<
    MediaStateAnswer,
    ProblemDetails,
>)
    ensures
        shows_state(snapshot, max_volume, r),
        match snapshot {
            Ok(s) => r matches Ok(a) && a.snapshot == Some(s) && a.available && a.max_volume_pct
                == max_volume.pct,
            Err(MediaError::Unavailable) => r matches Ok(a) && a.snapshot is None && !a.available
                && a.max_volume_pct == max_volume.pct,
            Err(e) => r matches Err(p) && p@ == media_problem_view(e),
        },
{
    match snapshot {
        Ok(s) => Ok(
            MediaStateAnswer {
                snapshot: Some(s),
                max_volume_pct: max_volume.get(),
                available: true,
            },
        ),
        Err(e) => match e {
            MediaError::Unavailable => Ok(
                MediaStateAnswer {
                    snapshot: None,
                    max_volume_pct: max_volume.get(),
                    available: false,
                },
            ),
            other => Err(media_problem(other)),
        },
    }
}

/// The state shown after a command: read anew, or failing that the one before.
pub fn state_after(before: MediaSnapshot, reread: Result<MediaSnapshot, MediaError>) -> (s:
    MediaSnapshot)
    ensures
        s == state_shown(before, reread),
        s == (match reread {
            Ok(after) => after,
            Err(_) => before,
        }),
{
    match reread {
        Ok(after) => after,
        Err(_) => before,
    }
}

// ---------------------------------------------------------------------------
// Commands
// ---------------------------------------------------------------------------

/// A transport verb.
#[derive(Debug, Clone, Copy, PartialEq, Eq, Structural)]
pub enum TransportCommand {
    Play,
    Pause,
    PlayPause,
    Stop,
    Next,
    Previous,
    Seek { offset_secs: i64 },
}

/// A request to apply a control.
pub struct MediaCommandRequest {
    pub command: String,
    pub player: Option<String>,
    pub volume_pct: Option<i64>,
    pub offset_secs: Option<i64>,
}

/// A transport verb as the grammar reads it: the verb with its wire name, or
/// what is wrong with it.
pub struct ParsedCommand {
    pub command: TransportCommand,
    pub verb: String,
}

/// Whether a player says it can do what a verb asks. `Stop` has no capability
/// flag.
pub open spec fn supports(p: PlayerState, command: TransportCommand) -> bool {
    match command {
        TransportCommand::Play => p.can_play,
        TransportCommand::Pause => p.can_pause,
        TransportCommand::Next => p.can_go_next,
        TransportCommand::Previous => p.can_go_previous,
        TransportCommand::Seek { offset_secs: _ } => p.can_seek,
        TransportCommand::PlayPause => p.can_play || p.can_pause,
        TransportCommand::Stop => true,
    }
}

fn supported(p: &PlayerState, command: TransportCommand) -> (b: bool)
    ensures
        b == supports(*p, command),
{
    match command {
        TransportCommand::Play => p.can_play,
        TransportCommand::Pause => p.can_pause,
        TransportCommand::Next => p.can_go_next,
        TransportCommand::Previous => p.can_go_previous,
        TransportCommand::Seek { offset_secs: _ } => p.can_seek,
        TransportCommand::PlayPause => p.can_play || p.can_pause,
        TransportCommand::Stop => true,
    }
}

/// An admitted control.
pub enum MediaAction {
    SetVolume { volume: VolumePct },
    Transport { command: TransportCommand },
}

/// An admitted command. Its record is all that can be read of it: the control, and
/// the player it is for, are had from [`after_record`] alone.
pub struct MediaCommand {
    player: String,
    action: MediaAction,
    verb: String,
    audit: AuditEvent,
}

impl MediaCommand {
    /// The player that the command is for.
    pub closed spec fn player(self) -> String {
        self.player
    }

    /// What the player is told.
    pub closed spec fn action(self) -> MediaAction {
        self.action
    }

    /// The wire name of the control.
    pub closed spec fn verb(self) -> String {
        self.verb
    }

    /// The record that is written first.
    pub closed spec fn event(self) -> AuditEvent {
        self.audit
    }

    /// The record that is written first.
    pub fn audit(&self) -> (e: &AuditEvent)
        ensures
            *e == self.event(),
    {
        &self.audit
    }
}

/// A volume as it is written in an answer.
pub open spec fn pct_text(v: VolumePct) -> Seq<char> {
    text::decimal(v.pct as nat) + "%"@
}

fn show_pct(v: VolumePct) -> (s: String)
    ensures
        s@ == pct_text(v),
{
    let digits = text::decimal_of(v.pct as u64);
    text::concat2(digits.as_str(), "%")
}

pub open spec fn above_cap_view(requested: VolumePct, cap: VolumePct) -> problem::ProblemView {
    problem::problem_of(
        409,
        ErrorCode::PolicyDenied,
        pct_text(requested) + " is above the "@ + pct_text(cap)
            + " volume cap; raising it further needs an approved media.volume_boost"@,
        None,
    )
}

/// What a command comes to once its player is known: the control and its wire
/// name, or what is answered.
pub open spec fn control_of(
    request: MediaCommandRequest,
    parsed: Result<ParsedCommand, String>,
    players: Seq<PlayerState>,
    player: Seq<char>,
    label: Seq<char>,
    cap: VolumePct,
) -> Result<(MediaAction, Seq<char>), problem::ProblemView> {
    if request.command@ == "set_volume"@ {
        match request.volume_pct {
            None => Err(
                problem::problem_of(
                    400,
                    ErrorCode::ValidationFailed,
                    "set_volume requires volumePct"@,
                    None,
                ),
            ),
            Some(v) => if !(0 <= v <= 100) {
                Err(
                    problem::problem_of(
                        400,
                        ErrorCode::ValidationFailed,
                        "volumePct must be 0..=100"@,
                        None,
                    ),
                )
            } else {
                let volume = VolumePct { pct: v as u8 };
                if volume.pct > cap.pct {
                    Err(above_cap_view(volume, cap))
                } else {
                    Ok((MediaAction::SetVolume { volume }, "set_volume"@))
                }
            },
        }
    } else {
        match parsed {
            Err(why) => Err(problem::problem_of(400, ErrorCode::ValidationFailed, why@, None)),
            Ok(p) => if player_at(players, player) matches Some(i) && !supports(
                players[i],
                p.command,
            ) {
                Err(
                    problem::problem_of(
                        409,
                        ErrorCode::ValidationFailed,
                        label + " does not support that control"@,
                        None,
                    ),
                )
            } else {
                Ok((MediaAction::Transport { command: p.command }, p.verb@))
            },
        }
    }
}

/// What a request comes to: the player, the control and its wire name, or what
/// is answered.
pub open spec fn command_of(
    snapshot: Result<MediaSnapshot, MediaError>,
    selection: TargetSelection,
    request: MediaCommandRequest,
    well_formed: bool,
    parsed: Result<ParsedCommand, String>,
    cap: VolumePct,
) -> Result<(Seq<char>, MediaAction, Seq<char>), problem::ProblemView> {
    match snapshot {
        Err(e) => Err(media_problem_view(e)),
        Ok(s) => match target_of(
            s.players@,
            text::opt_view(request.player),
            well_formed,
            selection,
        ) {
            Err(fault) => Err(fault_view(fault)),
            Ok((player, label)) => match control_of(
                request,
                parsed,
                s.players@,
                player,
                label,
                cap,
            ) {
                Err(p) => Err(p),
                Ok((action, verb)) => Ok((player, action, verb)),
            },
        },
    }
}

/// The parameters of a control that go on record.
pub open spec fn detail_of(action: MediaAction) -> audit::ValueView {
    match action {
        MediaAction::SetVolume { volume } => audit::ValueView::Member(
            "volumePct"@,
            volume.pct as i64,
        ),
        MediaAction::Transport { command } => match command {
            TransportCommand::Seek { offset_secs } => audit::ValueView::Member(
                "offsetSecs"@,
                offset_secs,
            ),
            _ => audit::ValueView::Null,
        },
    }
}

/// The record of a command: the verb and its parameters, never track text.
pub open spec fn command_event(
    caller: DeviceContext,
    player: Seq<char>,
    verb: Seq<char>,
    action: MediaAction,
    now: Timestamp,
) -> audit::AuditView {
    audit::event_of(
        now,
        audit::device_actor(caller.device_id@),
        "media.command"@,
        "player:"@ + player,
        seq![("command"@, audit::ValueView::Text(verb)), ("detail"@, detail_of(action))],
    )
}

fn audit_command(
    caller: &DeviceContext,
    player: &str,
    verb: &str,
    action: &MediaAction,
    now: Timestamp,
) -> (e: AuditEvent)
    ensures
        e@ == command_event(*caller, player@, verb@, *action, now),
{
    let detail = match action {
        MediaAction::SetVolume { volume } => AuditValue::Member("volumePct", volume.pct as i64),
        MediaAction::Transport { command } => match command {
            TransportCommand::Seek { offset_secs } => AuditValue::Member(
                "offsetSecs",
                *offset_secs,
            ),
            _ => AuditValue::Null,
        },
    };
    let e = AuditEvent {
        occurred_at: now,
        actor: audit::actor_of(caller.device_id.as_str()),
        event_type: "media.command".to_owned(),
        target: text::concat2("player:", player),
        correlation_id: None,
        payload: audit::with_field(
            audit::with_field(audit::no_fields(), "command", AuditValue::Text(verb.to_owned())),
            "detail",
            detail,
        ),
    };
    assert(e@ =~= command_event(*caller, player@, verb@, *action, now));
    e
}

fn control(
    request: &MediaCommandRequest,
    parsed: Result<ParsedCommand, String>,
    snapshot: &MediaSnapshot,
    player: &str,
    label: &str,
    cap: VolumePct,
) -> (r: Result<(MediaAction, String), ProblemDetails>)
    ensures
        match (
            r,
            control_of(*request, parsed, snapshot.players@, player@, label@, cap),
        ) {
            (Ok((action, verb)), Ok((a, v))) => action == a && verb@ == v,
            (Err(e), Err(p)) => e@ == p,
            _ => false,
        },
{
    if text::same(request.command.as_str(), "set_volume") {
        let raw: i64 = match request.volume_pct {
            Some(v) => v,
            None => {
                return Err(problem::bad_request("set_volume requires volumePct"));
            },
        };
        let volume = match VolumePct::from_i64(raw) {
            Some(v) => v,
            None => {
                return Err(problem::bad_request("volumePct must be 0..=100"));
            },
        };
        if !volume.within_cap(cap) {
            let asked = show_pct(volume);
            let limit = show_pct(cap);
            let head = text::concat3(asked.as_str(), " is above the ", limit.as_str());
            let title = text::concat2(
                head.as_str(),
                " volume cap; raising it further needs an approved media.volume_boost",
            );
            return Err(problem::problem(409, ErrorCode::PolicyDenied, title.as_str(), None));
        }
        return Ok((MediaAction::SetVolume { volume }, "set_volume".to_owned()));
    }
    let command = match parsed {
        Ok(p) => p,
        Err(why) => {
            return Err(problem::bad_request(why.as_str()));
        },
    };
    if let Some(i) = snapshot.position(player) {
        if !supported(&snapshot.players[i], command.command) {
            let title = text::concat2(label, " does not support that control");
            return Err(problem::problem(409, ErrorCode::ValidationFailed, title.as_str(), None));
        }
    }
    Ok((MediaAction::Transport { command: command.command }, command.verb))
}

/// Decide a command. `parsed` is what the transport grammar made of the verb;
/// it is only looked at where the request is not for a volume.
pub fn post_command(
    snapshot: Result<MediaSnapshot, MediaError>,
    selection: &TargetSelection,
    request: &MediaCommandRequest,
    well_formed: bool,
    parsed: Result<ParsedCommand, String>,
    cap: VolumePct,
    caller: &DeviceContext,
    now: Timestamp,
) -> (r: Result<MediaCommand, ProblemDetails>)
    ensures
        match (r, command_of(snapshot, *selection, *request, well_formed, parsed, cap)) {
            (Ok(c), Ok((player, action, verb))) => c.player()@ == player && c.action() == action
                && c.verb()@ == verb && c.event()@ == command_event(
                *caller,
                player,
                verb,
                action,
                now,
            ),
            (Err(e), Err(p)) => e@ == p,
            _ => false,
        },
{
    let players = match snapshot {
        Ok(s) => s,
        Err(e) => {
            return Err(media_problem(e));
        },
    };
    let named = match &request.player {
        Some(p) => Some(p.as_str()),
        None => None,
    };
    let (player, label) = match resolve_target(&players, named, well_formed, selection) {
        Ok(t) => t,
        Err(fault) => {
            return Err(fault_response(fault));
        },
    };
    match control(request, parsed, &players, player.as_str(), label.as_str(), cap) {
        Ok((action, verb)) => {
            let audit = audit_command(caller, player.as_str(), verb.as_str(), &action, now);
            Ok(MediaCommand { player, action, verb, audit })
        },
        Err(e) => Err(e),
    }
}

/// What follows from recording a command: the player, the control and its wire
/// name, which may then be applied. A command that cannot be recorded does not
/// happen.
pub fn after_record(command: MediaCommand, recorded: Result<(), RepositoryError>) -> (r: Result<
    (String, MediaAction, String),
    ProblemDetails,
>)
    ensures
        match recorded {
            Ok(()) => r == Ok::<(String, MediaAction, String), ProblemDetails>(
                (command.player(), command.action(), command.verb()),
            ),
            Err(e) => r matches Err(p) && p@ == problem::merged_problem(
                e,
                "media command conflict"@,
                "storage unavailable"@,
            ),
        },
{
    match recorded {
        Ok(()) => Ok((command.player, command.action, command.verb)),
        Err(e) => Err(repository_problem(e)),
    }
}

/// No request sets a volume above the cap.
pub proof fn law_volume_never_exceeds_the_cap(
    snapshot: Result<MediaSnapshot, MediaError>,
    selection: TargetSelection,
    request: MediaCommandRequest,
    well_formed: bool,
    parsed: Result<ParsedCommand, String>,
    cap: VolumePct,
)
    ensures
        command_of(snapshot, selection, request, well_formed, parsed, cap) matches Ok((
            player,
            MediaAction::SetVolume { volume },
            verb,
        )) ==> volume.pct <= cap.pct,
{
}

/// With two players active and none named, nothing is applied.
pub proof fn law_ambiguity_is_never_guessed(
    snapshot: Result<MediaSnapshot, MediaError>,
    request: MediaCommandRequest,
    well_formed: bool,
    parsed: Result<ParsedCommand, String>,
    cap: VolumePct,
)
    requires
        request.player is None,
    ensures
        command_of(
            snapshot,
            TargetSelection::Ambiguous,
            request,
            well_formed,
            parsed,
            cap,
        ) is Err,
{
}

/// Whether a request is for the player of the given identifier: it names it, or
/// names none where that one alone is active.
pub open spec fn is_for(
    request: MediaCommandRequest,
    well_formed: bool,
    selection: TargetSelection,
    player: Seq<char>,
) -> bool {
    match request.player {
        Some(named) => well_formed && named@ == player,
        None => selection matches TargetSelection::One { id, .. } && id@ == player,
    }
}

proof fn lemma_player_first(players: Seq<PlayerState>, id: Seq<char>, i: int)
    requires
        0 <= i < players.len(),
        players[i].id@ == id,
        forall|j: int| 0 <= j < i ==> #[trigger] players[j].id@ != id,
    ensures
        player_at(players, id) == Some(i),
{
    let before = players.take(i);
    lemma_player_at(before, id);
    if player_at(before, id) is Some {
        let j = player_at(before, id)->0;
        assert(before[j] == players[j]);
    }
    lemma_player_found(players, id, i);
}

proof fn lemma_player_absent(players: Seq<PlayerState>, id: Seq<char>)
    requires
        forall|j: int| 0 <= j < players.len() ==> #[trigger] players[j].id@ != id,
    ensures
        player_at(players, id) is None,
{
    lemma_player_at(players, id);
}

/// A player does what it says it can: each control is admitted exactly where the
/// player has the flag that is that control's own, with the verb it was asked for,
/// and is refused by the player's own name otherwise. Stopping needs no flag, and
/// switching between play and pause either of the two.
pub proof fn law_a_player_does_what_it_says_it_can(
    s: MediaSnapshot,
    selection: TargetSelection,
    request: MediaCommandRequest,
    well_formed: bool,
    parsed: ParsedCommand,
    cap: VolumePct,
    i: int,
)
    requires
        request.command@ != "set_volume"@,
        0 <= i < s.players@.len(),
        forall|j: int| 0 <= j < i ==> #[trigger] s.players@[j].id@ != s.players@[i].id@,
        is_for(request, well_formed, selection, s.players@[i].id@),
    ensures
        ({
            let p = s.players@[i];
            let can = match parsed.command {
                TransportCommand::Play => p.can_play,
                TransportCommand::Pause => p.can_pause,
                TransportCommand::PlayPause => p.can_play || p.can_pause,
                TransportCommand::Stop => true,
                TransportCommand::Next => p.can_go_next,
                TransportCommand::Previous => p.can_go_previous,
                TransportCommand::Seek { .. } => p.can_seek,
            };
            match command_of(Ok(s), selection, request, well_formed, Ok(parsed), cap) {
                Ok((player, MediaAction::Transport { command }, verb)) => can && player == p.id@
                    && command == parsed.command && verb == parsed.verb@,
                Ok(_) => false,
                Err(answer) => !can && answer.status == 409 && answer.title == p.identity@
                    + " does not support that control"@,
            }
        }),
{
    lemma_player_first(s.players@, s.players@[i].id@, i);
}

/// A player that is named and not running is refused, and one that is active but
/// not listed is told what was asked.
pub proof fn law_a_player_that_is_not_listed(
    s: MediaSnapshot,
    selection: TargetSelection,
    request: MediaCommandRequest,
    well_formed: bool,
    parsed: ParsedCommand,
    cap: VolumePct,
    wanted: Seq<char>,
)
    requires
        request.command@ != "set_volume"@,
        forall|j: int| 0 <= j < s.players@.len() ==> #[trigger] s.players@[j].id@ != wanted,
        is_for(request, well_formed, selection, wanted),
    ensures
        match command_of(Ok(s), selection, request, well_formed, Ok(parsed), cap) {
            Ok((player, MediaAction::Transport { command }, verb)) => request.player is None
                && player == wanted && command == parsed.command && verb == parsed.verb@,
            Ok(_) => false,
            Err(answer) => request.player is Some && answer.status == 404,
        },
{
    lemma_player_absent(s.players@, wanted);
}

/// A volume is set exactly where it is a percentage within the cap, and then it is
/// the one that was asked for.
pub proof fn law_a_volume_within_the_cap_is_set(
    s: MediaSnapshot,
    selection: TargetSelection,
    request: MediaCommandRequest,
    well_formed: bool,
    parsed: Result<ParsedCommand, String>,
    cap: VolumePct,
    i: int,
)
    requires
        request.command@ == "set_volume"@,
        0 <= i < s.players@.len(),
        forall|j: int| 0 <= j < i ==> #[trigger] s.players@[j].id@ != s.players@[i].id@,
        is_for(request, well_formed, selection, s.players@[i].id@),
    ensures
        match command_of(Ok(s), selection, request, well_formed, parsed, cap) {
            Ok((player, MediaAction::SetVolume { volume }, verb)) => player == s.players@[i].id@
                && verb == "set_volume"@ && request.volume_pct == Some(volume.pct as i64)
                && volume.pct <= 100 && volume.pct <= cap.pct,
            Ok(_) => false,
            Err(answer) => match request.volume_pct {
                Some(v) => if 0 <= v <= 100 {
                    v > cap.pct && answer.status == 409
                } else {
                    answer.status == 400
                },
                None => answer.status == 400,
            },
        },
{
    lemma_player_first(s.players@, s.players@[i].id@, i);
}

/// The record of a command tells commands apart: who asked, for which player, by
/// which verb, when, how loud and how far.
pub proof fn law_records_tell_commands_apart(
    a: (DeviceContext, Seq<char>, Seq<char>, MediaAction, Timestamp),
    b: (DeviceContext, Seq<char>, Seq<char>, MediaAction, Timestamp),
)
    requires
        command_event(a.0, a.1, a.2, a.3, a.4) == command_event(b.0, b.1, b.2, b.3, b.4),
    ensures
        a.0.device_id@ == b.0.device_id@,
        a.1 == b.1,
        a.2 == b.2,
        a.4 == b.4,
        match (a.3, b.3) {
            (MediaAction::SetVolume { volume: v }, MediaAction::SetVolume { volume: w }) => v == w,
            (
                MediaAction::Transport { command: TransportCommand::Seek { offset_secs: m } },
                MediaAction::Transport { command: TransportCommand::Seek { offset_secs: n } },
            ) => m == n,
            (MediaAction::Transport { command: c }, MediaAction::Transport { command: d }) => !(
            c is Seek) && !(d is Seek),
            _ => false,
        },
{
    let x = command_event(a.0, a.1, a.2, a.3, a.4);
    let y = command_event(b.0, b.1, b.2, b.3, b.4);
    audit::law_actors_name_devices(a.0.device_id@, b.0.device_id@);
    text::lemma_same_behind("player:"@, a.1, b.1);
    assert(x.payload[0] == y.payload[0]);
    assert(x.payload[1] == y.payload[1]);
    reveal_strlit("volumePct");
    reveal_strlit("offsetSecs");
    assert("volumePct"@.len() != "offsetSecs"@.len());
}

/// A player is never told to do what it says it cannot.
pub proof fn law_unsupported_control_is_refused(
    s: MediaSnapshot,
    selection: TargetSelection,
    request: MediaCommandRequest,
    well_formed: bool,
    parsed: Result<ParsedCommand, String>,
    cap: VolumePct,
)
    ensures
        command_of(Ok(s), selection, request, well_formed, parsed, cap) matches Ok((
            player,
            MediaAction::Transport { command },
            verb,
        )) ==> (player_at(s.players@, player) matches Some(i) ==> supports(s.players@[i], command)),
{
}

/// A player is found at its first place, and only where it is listed.
pub proof fn law_a_listed_player_is_found(players: Seq<PlayerState>, id: Seq<char>)
    ensures
        match player_at(players, id) {
            Some(i) => 0 <= i < players.len() && players[i].id@ == id && forall|k: int|
                0 <= k < i ==> (#[trigger] players[k]).id@ != id,
            None => forall|k: int| 0 <= k < players.len() ==> (#[trigger] players[k]).id@ != id,
        },
    decreases players.len(),
{
    if players.len() > 0 {
        let shorter = players.drop_last();
        law_a_listed_player_is_found(shorter, id);
        assert forall|k: int| 0 <= k < shorter.len() implies shorter[k] == players[k] by {}
        match player_at(shorter, id) {
            Some(i) => {
                assert(players[i] == shorter[i]);
                assert forall|k: int| 0 <= k < i implies (#[trigger] players[k]).id@ != id by {
                    assert(shorter[k].id@ != id);
                }
            },
            None => {
                assert forall|k: int| 0 <= k < players.len() - 1 implies (#[trigger] players[k]).id@
                    != id by {
                    assert(shorter[k].id@ != id);
                }
            },
        }
    }
}

/// What stands in the way of a command is answered by what it is: a name that is
/// none is the caller's fault, a named player that is not there is not found,
/// nothing or too much playing is a conflict, and a broken bus is an outage.
pub proof fn law_media_faults_are_told_apart(fault: MediaFault, error: MediaError)
    ensures
        fault_view(fault).status == (match fault {
            MediaFault::MalformedPlayer => 400u16,
            MediaFault::PlayerNotRunning => 404u16,
            MediaFault::NothingPlaying => 409u16,
            MediaFault::Ambiguous => 409u16,
        }),
        media_problem_view(error).status == (match error {
            MediaError::PlayerGone => 409u16,
            MediaError::Unsupported => 409u16,
            MediaError::Unavailable => 503u16,
            MediaError::Cancelled => 503u16,
            MediaError::Failed(_) => 503u16,
        }),
        media_problem_view(error).detail is None,
{
}

/// A refusal of a volume says what was asked for and where the limit lies.
pub proof fn law_a_refused_volume_is_told(requested: VolumePct, cap: VolumePct)
    ensures
        ({
            let p = above_cap_view(requested, cap);
            &&& p.status == 409
            &&& p.code is PolicyDenied
            &&& p.title == text::decimal(requested.pct as nat) + "%"@ + " is above the "@ + (
            text::decimal(cap.pct as nat) + "%"@)
                + " volume cap; raising it further needs an approved media.volume_boost"@
        }),
{
}

/// Where no player is named, the one that was picked is commanded; and without
/// one that can be picked nothing is.
pub proof fn law_the_picked_player_is_commanded(
    players: Seq<PlayerState>,
    requested: Option<Seq<char>>,
    well_formed: bool,
    selection: TargetSelection,
)
    ensures
        requested matches Some(raw) ==> (target_of(players, requested, well_formed, selection) is Ok
            <==> well_formed && player_at(players, requested->0) is Some),
        requested is None ==> (target_of(players, requested, well_formed, selection) is Ok
            <==> selection is One),
        target_of(players, requested, well_formed, selection) matches Ok((player, label)) ==> {
            &&& requested matches Some(raw) ==> player == requested->0
            &&& requested is None ==> (selection matches TargetSelection::One { id, .. } && player
                == id@)
            &&& player_at(players, player) matches Some(i) ==> label == players[i].identity@
        },
{
}

/// The record of a command names the device, the player and the command; a
/// volume and a seek are recorded with their number.
pub proof fn law_media_commands_are_recorded(
    caller: DeviceContext,
    player: Seq<char>,
    verb: Seq<char>,
    action: MediaAction,
    now: Timestamp,
)
    ensures
        ({
            let r = command_event(caller, player, verb, action, now);
            &&& r.occurred_at == now
            &&& r.event_type == "media.command"@
            &&& text::stripped(r.actor, "device:"@) == Some(caller.device_id@)
            &&& text::stripped(r.target, "player:"@) == Some(player)
            &&& r.payload.len() == 2
            &&& r.payload[0] == ("command"@, audit::ValueView::Text(verb))
            &&& r.payload[1].0 == "detail"@
            &&& action matches MediaAction::SetVolume { volume } ==> r.payload[1].1
                == audit::ValueView::Member("volumePct"@, volume.pct as i64)
            &&& action matches MediaAction::Transport {
                command: TransportCommand::Seek { offset_secs },
            } ==> r.payload[1].1 == audit::ValueView::Member("offsetSecs"@, offset_secs)
        }),
{
    text::law_a_prefix_is_taken_off(seq![], "device:"@, caller.device_id@);
    text::law_a_prefix_is_taken_off(seq![], "player:"@, player);
}

/// What a look at the players is answered with.
pub open spec fn shows_state(
    snapshot: Result<MediaSnapshot, MediaError>,
    max_volume: VolumePct,
    r: Result<MediaStateAnswer, ProblemDetails>,
) -> bool {
    match snapshot {
        Ok(s) => r matches Ok(a) && a.snapshot == Some(s) && a.available && a.max_volume_pct
            == max_volume.pct,
        Err(MediaError::Unavailable) => r matches Ok(a) && a.snapshot is None && !a.available
            && a.max_volume_pct == max_volume.pct,
        Err(e) => r matches Err(p) && p@ == media_problem_view(e),
    }
}

/// What is shown after a command.
pub open spec fn state_shown(before: MediaSnapshot, reread: Result<MediaSnapshot, MediaError>) -> MediaSnapshot {
    match reread {
        Ok(after) => after,
        Err(_) => before,
    }
}

/// The players are shown as they are, with the limit of the volume. Without a
/// controller there are none, and that is no fault; any other failure is. After a
/// command what was read again is shown, and for want of it what was read before.
pub proof fn law_players_are_shown_as_they_are(
    snapshot: Result<MediaSnapshot, MediaError>,
    max_volume: VolumePct,
    r: Result<MediaStateAnswer, ProblemDetails>,
    before: MediaSnapshot,
)
    requires
        shows_state(snapshot, max_volume, r),
    ensures
        r is Ok <==> snapshot is Ok || snapshot->Err_0 is Unavailable,
        r matches Ok(a) ==> {
            &&& a.available <==> snapshot is Ok
            &&& a.snapshot is Some <==> snapshot is Ok
            &&& a.snapshot matches Some(s) ==> s == snapshot->Ok_0
            &&& a.max_volume_pct == max_volume.pct
        },
        snapshot is Ok ==> state_shown(before, snapshot) == snapshot->Ok_0,
        snapshot is Err ==> state_shown(before, snapshot) == before,
{
}

} // verus!
