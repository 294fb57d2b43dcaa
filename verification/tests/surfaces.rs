use jarvisd::api::{AdapterState, AppState};
use jarvisd::artifacts::Sensitivity;
use jarvisd::cards::HudCardDto;
use jarvisd::deferred::{run_worker, DeferredWorkError, BUSY_INTERVAL_SECS, IDLE_INTERVAL_SECS};
use jarvisd::diagnostics::{
    adapter_lines, audit_shape, bundle, count, rss_kib, run_outcomes, HostFacts, Tallies,
};
use jarvisd::identity::{DeviceClass, DeviceContext};
use jarvisd::ids::{fresh_id, is_id};
use jarvisd::lists::{
    add_item, addressed, check_item, command, create, get, promote, remove_item, service_problem,
    to_list_card, CommandEffect, Ensured, ItemList, ListEffectDto, ListError, ListItem, ListsError,
};
use jarvisd::memories::{
    admit_list, forget, forgotten, memory_problem, parse_retention, patch, to_dto, updated,
    Memory, MemoryError, MemoryLayer, MemoryQuery, MemoryScope, MemorySource,
    PatchMemoryRequest, RetentionDto, RetentionRule,
};
use jarvisd::policy_view::{
    project, DataEgress, DenyReason, EngineAnswers, PolicyDecision, PolicyOutcomeDto, RegisteredTool, RiskLevel,
    SpeechSensitivity, ToolPolicy,
};
use jarvisd::problem::{ErrorCode, RepositoryError};
use jarvisd::sessions;
use jarvisd::time::Timestamp;

const NOW: Timestamp = Timestamp { nanos: 1_700_000_000_000_000_000 };

fn caller() -> DeviceContext {
    DeviceContext {
        device_id: fresh_id(),
        user_id: fresh_id(),
        class: DeviceClass::OwnerUi,
        scopes: vec!["ui".to_owned()],
    }
}

fn storage<T>() -> Result<T, RepositoryError> {
    Err(RepositoryError::Storage("pg".to_owned()))
}

#[test]
fn a_session_is_created_once_and_read_back() {
    let (session, audit) = sessions::create(Some("Plans".to_owned()), &caller(), NOW);
    assert!(is_id(&session.id));
    assert_eq!(audit.event_type, "session.created");
    let id = session.id.clone();
    let (status, dto) =
        sessions::created(Ok(sessions::CreateOutcome::Created(session))).expect("created");
    assert_eq!((status, dto.title.as_deref()), (201, Some("Plans")));
    let (again, _) = sessions::create(None, &caller(), NOW);
    let repeated = sessions::created(Ok(sessions::CreateOutcome::AlreadyExists(again)));
    assert_eq!(repeated.expect("replayed").0, 200);
    let reused = sessions::created(Err(RepositoryError::IdempotencyConflict)).unwrap_err();
    assert_eq!(reused.code, ErrorCode::IdempotencyConflict);
    assert_eq!(sessions::get(&id, Ok(None)).unwrap_err().status, 404);
    assert_eq!(sessions::get("nope", Ok(None)).unwrap_err().status, 404);
    assert!(sessions::list(storage()).is_err());
    assert_eq!(sessions::ListParams { limit: Some(0) }.page_size(), 1);
}

fn groceries() -> ItemList {
    ItemList {
        id: fresh_id(),
        name: "Groceries".to_owned(),
        items: vec![ListItem { id: fresh_id(), text: "milk".to_owned(), checked: false }],
    }
}

#[test]
fn each_list_has_its_own_card() {
    let (a, b) = (groceries(), groceries());
    match (to_list_card(&a), to_list_card(&b)) {
        (HudCardDto::List { .. }, HudCardDto::List { .. }) => {}
        _ => panic!("a list is shown as a list"),
    }
    assert!(addressed(&a.id, Some(&a.items[0].id)).is_ok());
    assert_eq!(addressed("nope", None).unwrap_err().title, "list id is not a ULID");
    assert!(addressed(&a.id, Some("nope")).is_err());
}

#[test]
fn list_changes_and_races_are_answered() {
    assert_eq!(create(None, Ok(Ensured::Created(groceries()))).expect("made").0, 201);
    assert_eq!(create(None, Ok(Ensured::Existing(groceries()))).expect("there").0, 200);
    let unnamed = create(Some("the name is empty".to_owned()), Err(ListsError::Cancelled));
    assert_eq!(unnamed.unwrap_err().title, "the name is empty");
    let (list, item) = (fresh_id(), fresh_id());
    assert_eq!(add_item(&list, None, Ok(groceries())).expect("added").0, 201);
    assert_eq!(add_item("nope", None, Ok(groceries())).unwrap_err().status, 400);
    let blank = add_item(&list, Some("the line is empty".to_owned()), Ok(groceries()));
    assert_eq!(blank.unwrap_err().title, "the line is empty");
    assert_eq!(check_item(&list, &item, Ok(groceries())).expect("checked").name, "Groceries");
    assert!(remove_item(&list, &item, Ok(groceries())).is_ok());
    let lost = remove_item(&list, "nope", Ok(groceries())).unwrap_err();
    assert_eq!(lost.title, "list item id is not a ULID");
    assert_eq!(get(&list, Err(ListsError::UnknownItem)).unwrap_err().status, 404);
    let (answer, _) = command(Some(Ok((groceries(), CommandEffect::Added("i".to_owned())))))
        .ok()
        .expect("applied");
    assert_eq!(answer.effect, ListEffectDto::Added);
    assert_eq!(answer.item_id.as_deref(), Some("i"));
    assert_eq!(command(None).err().expect("unclear").code, ErrorCode::ListUnrecognizedCommand);

    let of = |error| service_problem(error);
    assert_eq!(of(ListsError::UnknownList("x".to_owned())).status, 404);
    assert_eq!(of(ListsError::UnknownItem).status, 404);
    assert_eq!(of(ListsError::Invalid(ListError::Full)).code, ErrorCode::ListFull);
    assert_eq!(of(ListsError::Invalid(ListError::Other("empty".to_owned()))).title, "empty");
    let race = of(ListsError::Conflict("v2".to_owned()));
    assert_eq!((race.status, race.code), (409, ErrorCode::ResourceVersionConflict));
    assert_eq!(of(ListsError::Storage("pg".to_owned())).status, 503);
    assert_eq!(of(ListsError::Cancelled).status, 503);
    assert_eq!(promote(&list, Err(ListsError::Cancelled)).unwrap_err().status, 503);
    assert_eq!(promote("nope", Err(ListsError::Cancelled)).unwrap_err().status, 400);
}

fn memory() -> Memory {
    Memory {
        id: fresh_id(),
        user_id: fresh_id(),
        layer: MemoryLayer::Semantic,
        text: "likes tea".to_owned(),
        source: MemorySource { kind: "message".to_owned(), id: None },
        scope: MemoryScope::Project("home".to_owned()),
        retention: RetentionRule::Session,
        confidence_bits: 1f64.to_bits(),
        sensitivity: Sensitivity::Sensitive,
        pinned: false,
        created_at: NOW,
        updated_at: NOW,
    }
}

#[test]
fn an_edit_keeps_what_it_does_not_name() {
    let before = memory();
    let id = before.id.clone();
    let later = Timestamp { nanos: NOW.nanos + 1_000_000_000 };
    let request = PatchMemoryRequest { text: None, pinned: Some(true), retention: None };
    let after = patch(&id, Ok(Some(before)), request, later).expect("edited");
    assert_eq!(after.text, "likes tea");
    assert!(after.pinned);
    assert!(matches!(after.retention, RetentionRule::Session));
    assert_eq!((after.created_at, after.updated_at), (NOW, later));
    let audit = updated(&caller(), &after, None, later).expect("recorded");
    assert_eq!(audit.event_type, "memory.updated");
    assert_eq!(to_dto(&after).sensitivity, "sensitive");

    let secret = updated(&caller(), &after, Some(MemoryError::SecretLike("key".to_owned())), NOW);
    assert_eq!(secret.unwrap_err().code, ErrorCode::MemorySecretRejected);
    assert_eq!(memory_problem(MemoryError::Other("long".to_owned())).status, 422);
    let nothing = PatchMemoryRequest { text: None, pinned: None, retention: None };
    assert_eq!(patch("nope", Ok(None), nothing, NOW).unwrap_err().status, 400);
    assert_eq!(forget(&id, Ok(None), &caller(), NOW).unwrap_err().status, 404);
    assert!(forget(&id, Ok(Some(memory())), &caller(), NOW).is_ok());
    assert_eq!(forgotten(Ok(true)).ok(), Some(204));
    assert!(forgotten(Ok(false)).is_err());
}

#[test]
fn retention_reads_and_queries_are_bounded() {
    let at = RetentionDto::ExpiresAt("2023-11-14T22:13:20Z".to_owned());
    match parse_retention(at) {
        Ok(RetentionRule::ExpiresAt(t)) => assert_eq!(t, NOW),
        other => panic!("expected an instant, got {other:?}"),
    }
    assert!(parse_retention(RetentionDto::ExpiresAt("soon".to_owned())).is_err());
    assert!(parse_retention(RetentionDto::UntilForgotten).is_ok());
    let ask = |query: Option<&str>| {
        admit_list(&MemoryQuery { layer: None, query: query.map(str::to_owned), limit: None })
    };
    assert_eq!(ask(None).ok(), Some(50));
    assert!(ask(Some("tea")).is_ok());
    assert!(ask(Some(" t ")).is_err());
    assert!(ask(Some(&"t".repeat(129))).is_err());
}

#[test]
fn deferred_work_paces_itself() {
    assert_eq!(run_worker(Ok(true)), Some(BUSY_INTERVAL_SECS));
    assert_eq!(run_worker(Ok(false)), Some(IDLE_INTERVAL_SECS));
    assert_eq!(run_worker(Err(DeferredWorkError::Cancelled)), None);
    let failed = run_worker(Err(DeferredWorkError::Failed("x".to_owned())));
    assert_eq!(failed, Some(IDLE_INTERVAL_SECS));
}

#[test]
fn a_bundle_counts_and_never_fails() {
    let rows = vec![
        ("completed".to_owned(), 3),
        ("failed".to_owned(), 2),
        ("cancelled".to_owned(), 1),
        ("model_running".to_owned(), 4),
        ("completed".to_owned(), -7),
    ];
    let runs = run_outcomes(&rows);
    assert_eq!((runs.total, runs.completed, runs.in_flight), (10, 3, 4));
    assert_eq!(count(None), 0);
    assert_eq!(count(Some(-1)), 0);
    assert_eq!(rss_kib(Some("100 25 3 1 0 9 0")), Some(100));
    assert_eq!(rss_kib(Some("100")), None);
    assert_eq!(rss_kib(None), None);
    let mut state = AppState::new();
    state.set_adapter("web", AdapterState::Down, Some("timeout".to_owned()));
    state.set_adapter("database", AdapterState::Up, None);
    let lines = adapter_lines(state.adapters());
    assert_eq!(lines[0].name, "database");
    assert_eq!((lines[1].state.as_str(), lines[1].detail.as_deref()), ("down", Some("timeout")));
    let shape = audit_shape("run.completed".to_owned(), 5, NOW);
    assert_eq!((shape.count, shape.last_at.as_str()), (5, "2023-11-14T22:13:20Z"));
    let host = HostFacts {
        version: "1.0".to_owned(),
        tools: vec!["lists.add".to_owned()],
        audit_shapes: vec![shape],
        runs,
        rss_kib: Some(100),
        uptime_secs: 9,
    };
    let tallies = Tallies {
        migrations: Some(4),
        latest_migration: Some(20),
        devices: None,
        sessions: Some(2),
        messages: Some(-3),
    };
    let b = bundle(NOW, state.adapters(), tallies, host);
    assert_eq!((b.migrations_applied, b.device_count, b.message_count), (4, 0, 0));
    assert_eq!(b.latest_migration, Some(20));
    assert_eq!(b.generated_at, "2023-11-14T22:13:20Z");
}

#[test]
fn the_policy_page_shows_each_class_its_outcome() {
    let tools = vec![
        RegisteredTool {
            id: "mail.send".to_owned(),
            policy: Some(ToolPolicy {
                risk: RiskLevel::R3,
                is_reversible: false,
                requires_user_presence: true,
                egress: DataEgress::External,
                speech_sensitivity: SpeechSensitivity::Sensitive,
                required_scopes: vec!["mail".to_owned()],
            }),
            answers: EngineAnswers {
                owner_ui: PolicyDecision::NeedsApproval,
                display_node: PolicyDecision::Reject { reason: DenyReason::Prohibited },
                voice_node: PolicyDecision::Reject {
                    reason: DenyReason::MissingScope("mail".to_owned()),
                },
                room_node: PolicyDecision::Auto,
            },
        },
        RegisteredTool {
            id: "ghost".to_owned(),
            policy: None,
            answers: EngineAnswers {
                owner_ui: PolicyDecision::Auto,
                display_node: PolicyDecision::Auto,
                voice_node: PolicyDecision::Auto,
                room_node: PolicyDecision::Auto,
            },
        },
    ];
    let view = project(&tools);
    assert_eq!(view.len(), 1);
    assert_eq!((view[0].risk.as_str(), view[0].egress.as_str()), ("R3", "external"));
    let classes: Vec<&str> = view[0].outcomes.iter().map(|o| o.device_class.as_str()).collect();
    assert_eq!(classes, ["owner-ui", "display-node", "voice-node", "room-node"]);
    assert!(matches!(view[0].outcomes[3].outcome, PolicyOutcomeDto::Auto));
    match &view[0].outcomes[2].outcome {
        PolicyOutcomeDto::Denied { reason } => assert_eq!(reason, "missing_scope:mail"),
        other => panic!("expected a denial, got {other:?}"),
    }
}
