use jarvisd::config::VolumePct;
use jarvisd::identity::{DeviceClass, DeviceContext};
use jarvisd::ids::fresh_id;
use jarvisd::media::{
    after_record, get_state, media_problem, post_command, repository_problem, resolve_target, state_after,
    MediaAction, MediaCommand, MediaCommandRequest, MediaError, MediaFault, MediaSnapshot,
    ParsedCommand, PlayerState, TargetSelection, TransportCommand,
};
use jarvisd::problem::{ErrorCode, ProblemDetails, RepositoryError};
use jarvisd::time::Timestamp;

const NOW: Timestamp = Timestamp { nanos: 1_700_000_000_000_000_000 };

fn player(id: &str, can_seek: bool) -> PlayerState {
    PlayerState {
        id: id.to_owned(),
        identity: format!("{id} player"),
        can_play: true,
        can_pause: true,
        can_go_next: false,
        can_go_previous: false,
        can_seek,
    }
}

fn snapshot() -> MediaSnapshot {
    MediaSnapshot { players: vec![player("vlc", true), player("radio", false)] }
}

fn one(id: &str) -> TargetSelection {
    TargetSelection::One { id: id.to_owned(), short_name: "short".to_owned() }
}

fn caller() -> DeviceContext {
    DeviceContext {
        device_id: fresh_id(),
        user_id: fresh_id(),
        class: DeviceClass::OwnerUi,
        scopes: vec!["ui".to_owned()],
    }
}

fn volume(pct: Option<i64>) -> MediaCommandRequest {
    MediaCommandRequest {
        command: "set_volume".to_owned(),
        player: None,
        volume_pct: pct,
        offset_secs: None,
    }
}

fn verb(command: TransportCommand, verb: &str) -> (MediaCommandRequest, ParsedCommand) {
    (
        MediaCommandRequest {
            command: verb.to_owned(),
            player: None,
            volume_pct: None,
            offset_secs: None,
        },
        ParsedCommand { command, verb: verb.to_owned() },
    )
}

fn send(
    selection: &TargetSelection,
    request: &MediaCommandRequest,
    parsed: Result<ParsedCommand, String>,
) -> Result<MediaCommand, ProblemDetails> {
    let cap = VolumePct::new(80).expect("a percentage");
    post_command(Ok(snapshot()), selection, request, true, parsed, cap, &caller(), NOW)
}

#[test]
fn an_ambiguous_target_is_never_guessed() {
    let resolve = |requested, well_formed, selection: &TargetSelection| {
        resolve_target(&snapshot(), requested, well_formed, selection)
    };
    assert_eq!(resolve(None, true, &TargetSelection::Ambiguous), Err(MediaFault::Ambiguous));
    assert_eq!(resolve(None, true, &TargetSelection::Nothing), Err(MediaFault::NothingPlaying));
    assert_eq!(resolve(Some("x"), false, &one("vlc")), Err(MediaFault::MalformedPlayer));
    assert_eq!(resolve(Some("x"), true, &one("vlc")), Err(MediaFault::PlayerNotRunning));
    assert_eq!(
        resolve(Some("radio"), true, &TargetSelection::Ambiguous),
        Ok(("radio".to_owned(), "radio player".to_owned()))
    );
    assert_eq!(resolve(None, true, &one("gone")), Ok(("gone".to_owned(), "short".to_owned())));
}

#[test]
fn the_volume_never_exceeds_the_cap() {
    let nothing = || Err("not a transport verb".to_owned());
    let set = send(&one("vlc"), &volume(Some(80)), nothing()).ok().expect("at the cap");
    assert_eq!(set.audit().event_type, "media.command");
    let (player, action, verb) = after_record(set, Ok(())).ok().expect("recorded");
    assert!(matches!(action, MediaAction::SetVolume { volume } if volume.pct == 80));
    assert_eq!((player.as_str(), verb.as_str()), ("vlc", "set_volume"));
    let above = send(&one("vlc"), &volume(Some(81)), nothing()).err().expect("above the cap");
    assert_eq!((above.status, above.code), (409, ErrorCode::PolicyDenied));
    assert!(above.title.starts_with("81% is above the 80% volume cap"));
    for pct in [None, Some(-1), Some(101)] {
        let refused = send(&one("vlc"), &volume(pct), nothing()).err().expect("no percentage");
        assert_eq!(refused.code, ErrorCode::ValidationFailed);
    }
}

#[test]
fn a_command_that_cannot_be_recorded_does_not_happen() {
    let nothing = || Err("not a transport verb".to_owned());
    let set = || send(&one("vlc"), &volume(Some(40)), nothing()).ok().expect("admitted");
    let down = RepositoryError::Storage("pg: refused".to_owned());
    let refused = after_record(set(), Err(down)).err().expect("no record, no effect");
    assert_eq!((refused.status, refused.title.as_str()), (503, "storage unavailable"));
    assert!(after_record(set(), Ok(())).is_ok());
}

#[test]
fn a_control_that_the_player_lacks_is_refused() {
    let (request, parsed) = verb(TransportCommand::Next, "next");
    assert_eq!(send(&one("vlc"), &request, Ok(parsed)).err().expect("refused").status, 409);
    let (request, parsed) = verb(TransportCommand::Seek { offset_secs: 5 }, "seek");
    assert!(send(&one("radio"), &request, Ok(parsed)).is_err());
    let (request, parsed) = verb(TransportCommand::Seek { offset_secs: 5 }, "seek");
    let sent = send(&one("vlc"), &request, Ok(parsed)).ok().expect("sent");
    let (_, action, name) = after_record(sent, Ok(())).ok().expect("recorded");
    assert_eq!(name, "seek");
    assert!(matches!(
        action,
        MediaAction::Transport { command: TransportCommand::Seek { offset_secs: 5 } }
    ));
    let (request, _) = verb(TransportCommand::Stop, "dance");
    let unknown = send(&one("vlc"), &request, Err("no such verb".to_owned()));
    assert_eq!(unknown.err().expect("refused").status, 400);
}

#[test]
fn the_bar_shows_no_controller_as_a_state() {
    let cap = VolumePct::new(80).expect("a percentage");
    let there = get_state(Ok(snapshot()), cap).ok().expect("shown");
    assert!(there.available);
    assert_eq!(there.max_volume_pct, 80);
    let none = get_state(Err(MediaError::Unavailable), cap).ok().expect("shown");
    assert!(!none.available && none.snapshot.is_none());
    assert!(get_state(Err(MediaError::Failed("bus".to_owned())), cap).is_err());
    let kept = state_after(snapshot(), Err(MediaError::PlayerGone));
    assert_eq!(kept.players.len(), 2);
    let reread = state_after(snapshot(), Ok(MediaSnapshot { players: Vec::new() }));
    assert!(reread.players.is_empty());
}

#[test]
fn media_failures_are_told_apart() {
    assert_eq!(media_problem(MediaError::PlayerGone).status, 409);
    assert_eq!(media_problem(MediaError::Unsupported).code, ErrorCode::ValidationFailed);
    assert_eq!(media_problem(MediaError::Unavailable).status, 503);
    assert_eq!(media_problem(MediaError::Cancelled).title, "media control was cancelled");
    assert_eq!(media_problem(MediaError::Failed("x".to_owned())).title, "media control failed");
    let lost = repository_problem(RepositoryError::Storage("pg".to_owned()));
    assert_eq!(lost.status, 503);
}
