use jarvisd::canonical::JsonValue;
use jarvisd::ids::fresh_id;
use jarvisd::problem::{ErrorCode, RepositoryError};
use jarvisd::runs::{
    after_drive, assistant_message, cancel_run, domain_event, first_text, get_providers, get_run,
    get_timeline, is_known_event, not_cancellable, submit_message, timeline_item,
    unavailable_reason, ActiveRuns, AfterDrive, CancelStep, ContentBlock, HealthState,
    MessageRole, OutboxRecord, ParkedRuns, RecordedText, Run, RunBudget, RunInput, RunOutcome,
    RunState, RunUpdate, RunView, TimelineDocument, TimelineParams, QUEUE_CAPACITY,
    TIMELINE_DEFAULT_LIMIT, TIMELINE_MAX_LIMIT,
};
use jarvisd::time::Timestamp;

const SESSION: &str = "01J8Z0000000000000000000S1";
const RUN: &str = "01J8Z0000000000000000000R1";
const NOW: Timestamp = Timestamp { nanos: 1_700_000_000_000_000_000 };

const BUDGET: RunBudget = RunBudget {
    max_model_turns: 4,
    max_tool_calls: 8,
    max_duration_secs: 120,
    max_artifact_bytes: 1024,
};

fn s(text: &str) -> JsonValue {
    JsonValue::Str(text.to_owned())
}

fn object(members: Vec<(&str, JsonValue)>) -> JsonValue {
    JsonValue::Object(members.into_iter().map(|(k, v)| (k.to_owned(), v)).collect())
}

fn row(id: i64, event_type: &str, payload: JsonValue) -> OutboxRecord {
    OutboxRecord { id, event_type: event_type.to_owned(), payload }
}

fn member<'a>(value: &'a JsonValue, key: &str) -> Option<&'a JsonValue> {
    match value {
        JsonValue::Object(members) => members.iter().find(|(k, _)| k == key).map(|(_, v)| v),
        _ => None,
    }
}

#[test]
fn message_created_row_maps_to_a_message_item() {
    let text = object(vec![("type", s("text")), ("text", s("hi"))]);
    let message = object(vec![
        ("id", s(RUN)),
        ("sessionId", s(SESSION)),
        ("role", s("user")),
        ("content", JsonValue::Array(vec![text])),
        ("createdAt", s("2026-07-20T00:00:00Z")),
    ]);
    let record = row(1, "message.created", object(vec![("message", message)]));
    match timeline_item(record).expect("maps") {
        TimelineDocument::Message(message) => {
            assert_eq!(member(&message, "sessionId"), Some(&s(SESSION)));
            assert_eq!(member(&message, "role"), Some(&s("user")));
        }
        other => panic!("expected a message item, got {other:?}"),
    }
}

#[test]
fn run_event_row_folds_type_back_into_the_event() {
    let payload = object(vec![("runId", s(RUN)), ("state", s("model_running"))]);
    match timeline_item(row(2, "run.state_changed", payload)).expect("maps") {
        TimelineDocument::RunEvent(event) => {
            assert_eq!(member(&event, "type"), Some(&s("run.state_changed")));
            assert_eq!(member(&event, "runId"), Some(&s(RUN)));
            assert_eq!(member(&event, "state"), Some(&s("model_running")));
        }
        other => panic!("expected a run event, got {other:?}"),
    }
}

#[test]
fn run_completed_row_carries_the_outcome() {
    let outcome = object(vec![("kind", s("completed"))]);
    let payload = object(vec![("runId", s(RUN)), ("outcome", outcome)]);
    match timeline_item(row(3, "run.completed", payload)).expect("maps") {
        TimelineDocument::RunEvent(event) => {
            let outcome = member(&event, "outcome").expect("an outcome");
            assert_eq!(member(outcome, "kind"), Some(&s("completed")));
        }
        other => panic!("expected a completed run event, got {other:?}"),
    }
}

#[test]
fn unrecognized_event_type_is_skipped_not_fatal() {
    let record = row(4, "run.mystery_future_event", object(vec![("runId", s(RUN))]));
    // Nothing decodes it, so the page passes over it and reads on behind it.
    let decoded: Option<String> = match timeline_item(record) {
        Some(TimelineDocument::RunEvent(event)) => match member(&event, "type") {
            Some(JsonValue::Str(tag)) if is_known_event(tag) => Some(tag.clone()),
            _ => None,
        },
        _ => None,
    };
    assert!(decoded.is_none());
    let params = TimelineParams { since: None, limit: Some(1) };
    let page = get_timeline(&params, vec![(4, decoded)]);
    assert!(page.items.is_empty());
    assert_eq!(page.next_since, Some(4));
    assert!(domain_event(row(5, "run.completed", JsonValue::Null)).is_none());
}

#[test]
fn unavailable_reason_round_trips_through_classify() {
    let detail = "provider unavailable: quota_exhausted";
    let reason = unavailable_reason(detail).expect("recognized as unavailable");
    assert_eq!(reason, "quota_exhausted", "no leading space, no raw tail");
    let shown = get_providers("primary", HealthState::Unavailable, reason.to_owned());
    assert_eq!(shown.state, HealthState::Unavailable);
    assert_eq!(shown.reason.as_deref(), Some("quota_exhausted"));
}

#[test]
fn unavailable_reason_ignores_non_provider_failures() {
    // A budget-exhaustion detail must not be mistaken for a queueable error.
    assert!(unavailable_reason("budget exhausted: ModelTurns").is_none());
}

fn ended(state: RunState, detail: Option<&str>) -> Run {
    let mut run = Run::new(RUN.to_owned(), SESSION.to_owned(), BUDGET);
    run.state = state;
    run.outcome = detail.map(|d| RunOutcome {
        kind: "failed".to_owned(),
        detail: Some(d.to_owned()),
    });
    run
}

#[test]
fn degraded_run_queues_then_completes_on_recovery() {
    let mut queue = ParkedRuns::new();
    let input = RunInput { text: "What is the weather?".to_owned() };

    // Attempt 1: the provider's quota is exhausted. The run is parked, and no
    // answer is committed.
    let failed = ended(RunState::Failed, Some("provider unavailable: quota_exhausted"));
    match after_drive(failed, input, String::new()) {
        AfterDrive::Park { reason, retry, input } => {
            assert_eq!(reason, "quota_exhausted");
            assert!(queue.park(retry, input).is_ok());
        }
        other => panic!("expected a parked run, got {other:?}"),
    }

    // Exactly one run waits, and it has not begun.
    let (queued_run, queued_input) = queue.try_dequeue().expect("run was queued");
    assert!(queue.try_dequeue().is_none());
    assert!(matches!(queued_run.state, RunState::Received));
    assert_eq!(queued_run.id, RUN);
    assert_eq!(queued_input.text, "What is the weather?");

    // Attempt 2: the provider recovered.
    let mut recorded = RecordedText::new();
    for part in ["Sunny ", "and warm."] {
        recorded.emit(&RunUpdate::TextDelta { text: part.to_owned() });
    }
    recorded.emit(&RunUpdate::Other);
    match after_drive(ended(RunState::Completed, None), queued_input, recorded.take_text()) {
        AfterDrive::Commit { text } => {
            let committed = assistant_message(SESSION, text, NOW);
            assert_eq!(committed.text, "Sunny and warm.");
            assert_eq!(committed.role, MessageRole::Assistant);
        }
        other => panic!("expected an answer, got {other:?}"),
    }
    assert_eq!(recorded.take_text(), "");
}

#[test]
fn other_ends_lead_to_nothing() {
    for run in [
        ended(RunState::Failed, Some("budget exhausted: ModelTurns")),
        ended(RunState::Failed, None),
        ended(RunState::Cancelled, Some("provider unavailable: x")),
    ] {
        let input = RunInput { text: "hi".to_owned() };
        assert!(matches!(after_drive(run, input, "t".to_owned()), AfterDrive::Nothing));
    }
}

#[test]
fn parked_runs_leave_in_order_and_are_bounded() {
    let mut queue = ParkedRuns::new();
    for i in 0..QUEUE_CAPACITY {
        let run = Run::new(format!("{i}"), SESSION.to_owned(), BUDGET);
        assert!(queue.park(run, RunInput { text: String::new() }).is_ok());
    }
    let extra = Run::new(RUN.to_owned(), SESSION.to_owned(), BUDGET);
    let (back, _) = queue.park(extra, RunInput { text: String::new() }).unwrap_err();
    assert_eq!(back.id, RUN);
    assert_eq!(queue.try_dequeue().expect("first").0.id, "0");
    assert_eq!(queue.try_dequeue().expect("second").0.id, "1");
}

#[test]
fn a_message_starts_a_run_in_a_known_session() {
    let session = fresh_id();
    let blocks = vec![
        ContentBlock::Unknown,
        ContentBlock::Text { text: "hello".to_owned() },
        ContentBlock::Text { text: "again".to_owned() },
    ];
    assert_eq!(first_text(&blocks), "helloagain");
    assert_eq!(first_text(&Vec::new()), "");
    let sent = submit_message(&session, Ok(true), &blocks, BUDGET, NOW).expect("started");
    assert_eq!(sent.message.session_id, session);
    assert_eq!(sent.message.text, "helloagain");
    assert_eq!(sent.message.role, MessageRole::User);
    assert_eq!(sent.input.text, "helloagain");
    assert!(matches!(sent.run.state, RunState::Received));
    assert_ne!(sent.run.id, sent.message.id);

    let refuse = |session: &str, known| {
        submit_message(session, known, &blocks, BUDGET, NOW).unwrap_err()
    };
    assert_eq!(refuse("nope", Ok(true)).code, ErrorCode::ResourceNotFound);
    assert_eq!(refuse(&session, Ok(false)).code, ErrorCode::ResourceNotFound);
    let down = RepositoryError::Storage("pg".to_owned());
    assert_eq!(refuse(&session, Err(down)).status, 503);
    let nothing = vec![ContentBlock::Text { text: " ".to_owned() }];
    let blank = submit_message(&session, Ok(true), &nothing, BUDGET, NOW).unwrap_err();
    assert_eq!(blank.code, ErrorCode::ValidationFailed);
}

#[test]
fn a_run_is_read_and_cancelled_by_its_name() {
    let id = fresh_id();
    let stored = RunView {
        run: Run::new(id.clone(), SESSION.to_owned(), BUDGET),
        created_at: NOW,
        updated_at: NOW,
    };
    let dto = get_run(&id, Ok(Some(stored))).expect("found");
    assert_eq!(dto.id, id);
    assert_eq!(dto.created_at, "2023-11-14T22:13:20Z");
    assert_eq!(get_run(&id, Ok(None)).unwrap_err().status, 404);
    assert_eq!(get_run("nope", Ok(None)).unwrap_err().status, 404);

    let mut active = ActiveRuns::new();
    active.register(&id);
    assert!(matches!(cancel_run(&id, &active), CancelStep::Cancel));
    active.deregister(&id);
    assert!(!active.is_active(&id));
    assert!(matches!(cancel_run(&id, &active), CancelStep::LookUp));
    assert!(matches!(cancel_run("nope", &active), CancelStep::Refused(_)));
    assert_eq!(not_cancellable(Ok(true)).code, ErrorCode::RunNotCancellable);
    assert_eq!(not_cancellable(Ok(false)).status, 404);
}

#[test]
fn a_timeline_page_is_bounded_and_its_cursor_moves_on() {
    let page = |since, limit| TimelineParams { since, limit }.page();
    assert_eq!(page(None, None), (0, TIMELINE_DEFAULT_LIMIT));
    assert_eq!(page(Some(7), Some(9_999)), (7, TIMELINE_MAX_LIMIT));
    assert_eq!(page(None, Some(0)).1, 1);

    let params = TimelineParams { since: Some(3), limit: Some(2) };
    let full = get_timeline(&params, vec![(5, Some("a")), (8, None)]);
    assert_eq!(full.items, ["a"]);
    assert_eq!(full.next_since, Some(8));
    let last = get_timeline(&params, vec![(9, Some("b"))]);
    assert_eq!(last.next_since, None);
}

#[test]
fn a_healthy_provider_shows_no_reason() {
    let p = get_providers("primary", HealthState::Healthy, String::new());
    assert_eq!((p.id.as_str(), p.reason), ("primary", None));
}
