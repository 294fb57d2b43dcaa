use jarvisd::automations::{
    addressed, create, created, delete, execute, execution_dto, history, index, minutes_since_midnight,
    scopes_of, trigger_dto, trigger_from, update, AutomationExecution, CreateAutomationRequest,
    ExecutionOutcome, Scheduler, SchedulerAction, SchedulerEvent, TriggerDto, TriggerFault,
    SWEEP_INTERVAL_SECS,
};
use jarvisd::canonical::JsonValue;
use jarvisd::identity::{DeviceClass, DeviceContext};
use jarvisd::ids::{fresh_id, is_id};
use jarvisd::problem::ErrorCode;
use jarvisd::time::Timestamp;
use time::OffsetDateTime;

fn minutes_of(at: OffsetDateTime) -> u16 {
    let now = Timestamp { nanos: at.unix_timestamp_nanos() };
    minutes_since_midnight(now, at.offset().whole_seconds())
}

fn daily(minutes_since_midnight: u16) -> TriggerDto {
    TriggerDto::DailyAt { minutes_since_midnight }
}

fn person(entity_id: &str, state: &str) -> TriggerDto {
    TriggerDto::HomeAssistantState { entity_id: entity_id.to_owned(), state: state.to_owned() }
}

#[test]
fn minutes_since_midnight_is_local_wall_clock() {
    let at_seven = OffsetDateTime::from_unix_timestamp(1_700_000_000)
        .expect("timestamp")
        .replace_hour(7)
        .expect("hour")
        .replace_minute(0)
        .expect("minute");
    assert_eq!(minutes_of(at_seven), 420);

    let midnight = at_seven.replace_hour(0).expect("hour");
    assert_eq!(minutes_of(midnight), 0);

    let last_minute =
        at_seven.replace_hour(23).expect("hour").replace_minute(59).expect("minute");
    assert_eq!(minutes_of(last_minute), 1439);
}

#[test]
fn an_offset_moves_the_wall_clock_both_ways() {
    let ten_past_midnight = Timestamp { nanos: 600_000_000_000 };
    assert_eq!(minutes_since_midnight(ten_past_midnight, 3600), 70);
    assert_eq!(minutes_since_midnight(ten_past_midnight, -3600), 1390);
    assert_eq!(minutes_since_midnight(Timestamp { nanos: -1 }, 0), 1439);
}

#[test]
fn a_trigger_dto_round_trips_through_the_domain() {
    for make in [|| daily(420), || person("person.owner", "home")] {
        let domain = trigger_from(make()).expect("valid");
        assert_eq!(trigger_dto(&domain), make());
    }
}

#[test]
fn an_out_of_range_trigger_is_refused() {
    assert!(trigger_from(daily(1440)).is_err());
    assert!(trigger_from(person("  ", "home")).is_err());
}

#[test]
fn trigger_faults_are_told_apart() {
    assert_eq!(trigger_from(daily(1440)), Err(TriggerFault::MinuteOutOfRange));
    assert_eq!(trigger_from(person("x", " ")), Err(TriggerFault::EmptyEntityOrState));
    assert!(trigger_from(daily(1439)).is_ok());
    assert_ne!(
        TriggerFault::MinuteOutOfRange.detail(),
        TriggerFault::EmptyEntityOrState.detail()
    );
}

fn caller() -> DeviceContext {
    DeviceContext {
        device_id: fresh_id(),
        user_id: fresh_id(),
        class: DeviceClass::OwnerUi,
        scopes: vec!["ui".to_owned()],
    }
}

fn request(trigger: TriggerDto) -> CreateAutomationRequest {
    CreateAutomationRequest {
        name: Ok("Morning".to_owned()),
        trigger,
        tool_id: Some("lights.set".to_owned()),
        arguments: JsonValue::Object(Vec::new()),
    }
}

const NOW: Timestamp = Timestamp { nanos: 1_700_000_000_000_000_000 };

#[test]
fn an_automation_belongs_to_the_device_that_made_it() {
    let device = caller();
    let (made, audit) = create(request(daily(420)), "daily_at", &device, NOW).expect("created");
    assert_eq!(made.created_by, device.device_id);
    assert!(is_id(&made.id));
    assert!(made.enabled);
    assert!(made.last_fired_at.is_none());
    assert_eq!(audit.actor, format!("device:{}", device.device_id));
    let (status, dto) = created(&made, true).expect("stored");
    assert_eq!((status, dto.id.as_str()), (201, made.id.as_str()));
    assert_eq!(created(&made, false).unwrap_err().title, "automations are unavailable");
    let shown = index(Some(vec![made])).expect("listed");
    assert_eq!(shown[0].created_by_device_id, device.device_id);
    assert_eq!(shown[0].created_at, "2023-11-14T22:13:20Z");
    assert_eq!(index(None).unwrap_err().status, 503);
}

#[test]
fn a_bad_request_makes_no_automation() {
    let mut unnamed = request(daily(420));
    unnamed.name = Err("the name is empty".to_owned());
    assert_eq!(create(unnamed, "daily_at", &caller(), NOW).unwrap_err().status, 400);
    let mut toolless = request(daily(420));
    toolless.tool_id = None;
    assert_eq!(create(toolless, "daily_at", &caller(), NOW).unwrap_err().status, 400);
    let late = create(request(daily(2000)), "daily_at", &caller(), NOW).unwrap_err();
    assert_eq!(late.code, ErrorCode::ValidationFailed);
    assert!(addressed("nope").is_err());
    assert!(addressed(&fresh_id()).is_ok());
    let id = fresh_id();
    assert_eq!(update(&id, true).ok(), Some(204));
    assert_eq!(delete(&id, true).ok(), Some(204));
    assert_eq!(delete("nope", true).unwrap_err().status, 404);
    assert_eq!(update(&id, false).unwrap_err().status, 503);
}

#[test]
fn an_execution_says_what_became_of_it() {
    let row = |outcome, label: &str| AutomationExecution {
        occurred_at: NOW,
        outcome,
        label: label.to_owned(),
    };
    let done = execution_dto(&row(ExecutionOutcome::Executed, "executed"));
    assert_eq!((done.outcome.as_str(), done.detail), ("executed", None));
    let waits = row(
        ExecutionOutcome::NeedsApproval { exact_effect: "on".to_owned() },
        "needs_approval",
    );
    assert_eq!(execution_dto(&waits).detail.as_deref(), Some("on"));
    let failed = row(ExecutionOutcome::Failed { reason: "gone".to_owned() }, "failed");
    let shown = history(&fresh_id(), Some(vec![failed])).expect("history");
    assert_eq!(shown[0].detail.as_deref(), Some("gone"));
    assert_eq!(history(&fresh_id(), None).unwrap_err().status, 503);
    assert_eq!(history("nope", Some(Vec::new())).unwrap_err().status, 404);
}

fn minute(m: i128) -> Timestamp {
    Timestamp { nanos: m * 60_000_000_000 }
}

#[test]
fn sweeps_follow_each_other_without_a_gap() {
    let mut scheduler = Scheduler::start(minute(10), 0);
    let first = scheduler.next(SchedulerEvent::Woke, minute(11), 0);
    assert_eq!(first, SchedulerAction::Sweep { from: 10, to: 11, at: minute(11) });
    assert_eq!(
        scheduler.next(SchedulerEvent::Swept, minute(11), 0),
        SchedulerAction::Stamp { at: minute(11) }
    );
    assert_eq!(
        scheduler.next(SchedulerEvent::Stamped, minute(11), 0),
        SchedulerAction::Sleep { secs: SWEEP_INTERVAL_SECS }
    );
    let second = scheduler.next(SchedulerEvent::Woke, minute(13), 0);
    assert_eq!(second, SchedulerAction::Sweep { from: 11, to: 13, at: minute(13) });
    assert_eq!(scheduler.next(SchedulerEvent::ShutDown, minute(13), 0), SchedulerAction::Stop);
}

#[test]
fn what_was_missed_while_down_is_announced_once() {
    let mut scheduler = Scheduler::start(minute(10), 0);
    let last_seen = Some(minute(3));
    assert_eq!(
        scheduler.next(SchedulerEvent::Started { last_seen }, minute(10), 0),
        SchedulerAction::AnnounceMissed { since: minute(3), until: minute(10) }
    );
    let mut fresh = Scheduler::start(minute(10), 0);
    assert!(matches!(
        fresh.next(SchedulerEvent::Started { last_seen: None }, minute(10), 0),
        SchedulerAction::Sleep { .. }
    ));
}

#[test]
fn an_automation_runs_with_its_makers_well_formed_scopes() {
    let found = Some(Some((
        "user".to_owned(),
        vec!["good".to_owned(), "b a d".to_owned()],
    )));
    let (user, scopes) = scopes_of(found, &vec![true, false]).expect("the maker is known");
    assert_eq!(user, "user");
    assert_eq!(scopes, ["good"]);
    assert!(scopes_of(Some(None), &Vec::new()).is_none());
    assert!(scopes_of(None, &Vec::new()).is_none());
    assert_eq!(execute(Some(7u8)), Ok(7));
    assert!(execute::<u8>(None).is_err());
}
