use jarvisd::apptool::{
    build_error, result_content, AppBuildError, AppGenerateTool, BuiltApp, ToolError,
    APP_BUILD_TIMEOUT_SECS,
};
use jarvisd::approvals::{
    domain_event_outbox, ApprovalDecision, ApprovalDecisionDto, ApprovalOutcome, ApprovalRequest,
    JarvisApprovalGate, ResolveError,
};
use jarvisd::canonical::{
    canonical_to_json, copy_canonical, count, find_member, json_to_canonical, take_member, texts, with_member,
    without_member, CanonicalValue, JsonNumber, JsonValue,
};
use jarvisd::policy_view::{DataEgress, RiskLevel, SpeechSensitivity, ToolPolicy};
use jarvisd::time::Timestamp;

const NOW: Timestamp = Timestamp { nanos: 1_700_000_000_000_000_000 };

fn s(text: &str) -> JsonValue {
    JsonValue::Str(text.to_owned())
}

fn n(whole: i64) -> JsonValue {
    JsonValue::Int(whole)
}

fn object(members: Vec<(&str, JsonValue)>) -> JsonValue {
    JsonValue::Object(members.into_iter().map(|(k, v)| (k.to_owned(), v)).collect())
}

#[test]
fn json_canonical_round_trips_a_nested_argument_tree() {
    // Members in the order of their keys, as a sorted map lists them.
    let original = object(vec![
        ("count", n(3)),
        ("flag", JsonValue::Bool(true)),
        ("nested", object(vec![("k", s("v"))])),
        ("tags", JsonValue::Array(vec![s("a"), s("b")])),
        ("to", s("carol@example.com")),
    ]);
    let canonical = json_to_canonical(&original);
    assert_eq!(canonical_to_json(&canonical), original);
}

#[test]
fn json_object_keys_sort_so_edit_order_cannot_change_the_binding() {
    let a = json_to_canonical(&object(vec![("b", n(1)), ("a", n(2))]));
    let b = json_to_canonical(&object(vec![("a", n(2)), ("b", n(1))]));
    assert_eq!(a, b);
}

#[test]
fn what_no_integer_holds_keeps_its_text() {
    let half = JsonValue::Number(JsonNumber::read("0.5").expect("a number"));
    assert_eq!(json_to_canonical(&half), CanonicalValue::Float("0.5".to_owned()));
    assert_eq!(canonical_to_json(&CanonicalValue::Float("0.50".to_owned())), half);
    assert_eq!(canonical_to_json(&CanonicalValue::Float("NaN".to_owned())), JsonValue::Null);
    assert_eq!(canonical_to_json(&CanonicalValue::Float("inf".to_owned())), JsonValue::Null);
    assert_eq!(canonical_to_json(&CanonicalValue::Float("soon".to_owned())), JsonValue::Null);
    let held = CanonicalValue::Array(vec![CanonicalValue::Float("0.50".to_owned())]);
    assert_eq!(copy_canonical(&held), held);
    assert_eq!(json_to_canonical(&JsonValue::Null), CanonicalValue::Null);
    assert_eq!(json_to_canonical(&n(-4)), CanonicalValue::Int(-4));
    assert!(JsonNumber::read("NaN").is_none() && JsonNumber::read("soon").is_none());
    assert_eq!(JsonNumber::read("2.50e0").expect("a number").as_str(), "2.5");
}

#[test]
fn arguments_come_back_as_they_were_where_their_integers_fit() {
    let number = |t: &str| JsonValue::Number(JsonNumber::read(t).expect("a number"));
    let deep = |a: &str, b: &str| {
        let inner = object(vec![(a, number("1e300")), (b, JsonValue::Null)]);
        object(vec![("list", JsonValue::Array(vec![number("-0.1"), inner])), ("n", n(i64::MIN))])
    };
    let v = deep("a", "b");
    let c = json_to_canonical(&v);
    assert_eq!(canonical_to_json(&c), v);
    let same = JsonValue::Object(match deep("a", "b") {
        JsonValue::Object(mut members) => {
            members.reverse();
            members
        }
        other => panic!("expected an object, got {other:?}"),
    });
    assert_eq!(json_to_canonical(&same), c);

    // An integer without a sign is the same integer while it fits.
    let seven = json_to_canonical(&JsonValue::UInt(7));
    assert_eq!((&seven, canonical_to_json(&seven)), (&CanonicalValue::Int(7), n(7)));
    // One that does not binds its digits, and is shown as the nearest number.
    let wide = json_to_canonical(&JsonValue::UInt(u64::MAX));
    assert_eq!(wide, CanonicalValue::Float("18446744073709551615".to_owned()));
    assert_eq!(canonical_to_json(&wide), number("1.8446744073709552e19"));
    assert_eq!(count(u64::MAX), JsonValue::UInt(u64::MAX));
}

#[test]
fn members_are_found_replaced_and_taken() {
    let o = object(vec![("a", n(1)), ("b", n(2))]);
    let o = with_member(o, "c", s("x"));
    assert_eq!(take_member(with_member(o, "a", n(9)), "a"), Some(n(9)));
    let o = without_member(object(vec![("a", n(1)), ("b", n(2))]), "a");
    assert_eq!(o, object(vec![("b", n(2))]));
    assert_eq!(take_member(o, "a"), None);
    assert_eq!(count(12), n(12));
    assert_eq!(texts(&vec!["x".to_owned()]), JsonValue::Array(vec![s("x")]));
    let sorted = vec![("k".to_owned(), CanonicalValue::Int(1))];
    assert_eq!(find_member(&sorted, "k"), Some(&CanonicalValue::Int(1)));
    assert_eq!(find_member(&sorted, "q"), None);
}

#[test]
fn arguments_must_be_exactly_a_spec_document() {
    let bare = CanonicalValue::Str("not an object".to_owned());
    assert!(AppGenerateTool::validate_args(&bare, None).is_err());
    let other = CanonicalValue::Object(vec![(
        "template".to_owned(),
        CanonicalValue::Str("x".to_owned()),
    )]);
    assert!(AppGenerateTool::validate_args(&other, None).is_err());
    let more = CanonicalValue::Object(vec![
        ("extra".to_owned(), CanonicalValue::Null),
        ("spec".to_owned(), CanonicalValue::Str("{}".to_owned())),
    ]);
    assert!(matches!(
        AppGenerateTool::spec_document(&more),
        Err(ToolError::SchemaInvalid(why)) if why.contains("exactly")
    ));
}

#[test]
fn a_spec_document_is_handed_on_and_its_faults_are_reported() {
    let given = CanonicalValue::Object(vec![(
        "spec".to_owned(),
        CanonicalValue::Str("{}".to_owned()),
    )]);
    assert_eq!(AppGenerateTool::spec_document(&given).ok(), Some("{}"));
    assert!(AppGenerateTool::validate_args(&given, None).is_ok());
    match AppGenerateTool::validate_args(&given, Some("no template".to_owned())) {
        Err(ToolError::SchemaInvalid(detail)) => assert!(detail.contains("no template")),
        other => panic!("expected a fault, got {other:?}"),
    }
    assert!(!AppGenerateTool::id().is_empty());
}

#[test]
fn build_failures_and_results_reach_the_caller() {
    let late = build_error(AppBuildError::Timeout);
    assert!(matches!(late, ToolError::Timeout(t) if t == APP_BUILD_TIMEOUT_SECS));
    assert!(matches!(build_error(AppBuildError::Cancelled), ToolError::Cancelled));
    match build_error(AppBuildError::Other("no space".to_owned())) {
        ToolError::ExecutionFailed(text) => assert_eq!(text, "no space"),
        other => panic!("expected a failure, got {other:?}"),
    }
    let content = result_content(&BuiltApp {
        artifact_id: "A".to_owned(),
        version: 2,
        title: "T".to_owned(),
        template: "list".to_owned(),
        capabilities: vec!["lists".to_owned()],
        bytes: 10,
    });
    assert_eq!(take_member(content, "artifactId"), Some(s("A")));
}

fn request() -> ApprovalRequest {
    ApprovalRequest {
        run_id: "run-1".to_owned(),
        tool_id: "mail.send".to_owned(),
        exact_effect: "Send mail".to_owned(),
        proposed_arguments: json_to_canonical(&object(vec![("to", s("carol"))])),
        risk: RiskLevel::R2,
        reversible: false,
        egress: DataEgress::External,
    }
}

fn approve(edited: Option<JsonValue>) -> ApprovalDecisionDto {
    ApprovalDecisionDto { decision: ApprovalDecision::Approve, edited_arguments: edited }
}

#[test]
fn a_decision_is_taken_once_and_binds_what_was_read() {
    let mut gate = JarvisApprovalGate::new();
    let (card, _) = gate.request(request(), NOW);
    assert_eq!(card.exact_effect, "Send mail");
    assert_eq!(card.proposed_arguments, object(vec![("to", s("carol"))]));

    // Another run cannot decide it.
    assert_eq!(
        gate.resolve("run-2", &card.approval_id, &approve(None), "d", NOW).err(),
        Some(ResolveError::NotFound)
    );
    let taken = gate.resolve("run-1", &card.approval_id, &approve(None), "d", NOW).expect("taken");
    assert!(gate.resolve("run-1", &card.approval_id, &approve(None), "d", NOW).is_err());
    match gate.conclude(taken, true) {
        Ok(ApprovalOutcome::Approved { arguments }) => {
            assert_eq!(canonical_to_json(&arguments), object(vec![("to", s("carol"))]));
        }
        other => panic!("expected an approval, got {other:?}"),
    }
}

#[test]
fn an_edit_replaces_the_arguments_and_a_denial_drops_them() {
    let mut gate = JarvisApprovalGate::new();
    let (card, _) = gate.request(request(), NOW);
    let edited = object(vec![("to", s("dave"))]);
    let taken = gate
        .resolve("run-1", &card.approval_id, &approve(Some(edited)), "d", NOW)
        .expect("taken");
    match gate.conclude(taken, true) {
        Ok(ApprovalOutcome::Approved { arguments }) => {
            assert_eq!(canonical_to_json(&arguments), object(vec![("to", s("dave"))]));
        }
        other => panic!("expected an approval, got {other:?}"),
    }
    let (card, _) = gate.request(request(), NOW);
    let no = ApprovalDecisionDto { decision: ApprovalDecision::Deny, edited_arguments: None };
    let taken = gate.resolve("run-1", &card.approval_id, &no, "d", NOW).expect("taken");
    assert!(matches!(gate.conclude(taken, true), Ok(ApprovalOutcome::Denied)));
}

#[test]
fn an_unrecorded_decision_can_be_taken_again() {
    let mut gate = JarvisApprovalGate::new();
    let (card, _) = gate.request(request(), NOW);
    let taken = gate.resolve("run-1", &card.approval_id, &approve(None), "d", NOW).expect("taken");
    assert_eq!(gate.conclude(taken, false).err(), Some(ResolveError::Persist));
    assert!(gate.resolve("run-1", &card.approval_id, &approve(None), "d", NOW).is_ok());

    let (card, _) = gate.request(request(), NOW);
    gate.drop_request(&card.approval_id);
    assert!(gate.resolve("run-1", &card.approval_id, &approve(None), "d", NOW).is_err());
}

#[test]
fn an_approval_that_went_with_its_run_stays_gone() {
    let mut gate = JarvisApprovalGate::new();
    let (card, _) = gate.request(request(), NOW);
    let taken = gate.resolve("run-1", &card.approval_id, &approve(None), "d", NOW).expect("taken");
    gate.drop_request(&card.approval_id);
    assert_eq!(gate.conclude(taken, false).err(), Some(ResolveError::Persist));
    assert_eq!(
        gate.resolve("run-1", &card.approval_id, &approve(None), "d", NOW).err(),
        Some(ResolveError::NotFound)
    );
}

#[test]
fn an_outbox_payload_leaves_the_type_out() {
    let event = object(vec![("runId", s("r")), ("type", s("run.completed"))]);
    assert_eq!(domain_event_outbox(event), object(vec![("runId", s("r"))]));
}

#[test]
fn a_build_starts_only_after_validation() {
    let proposal = json_to_canonical(&JsonValue::Object(vec![(
        "spec".to_owned(),
        JsonValue::Str("{}".to_owned()),
    )]));
    let ticket = AppGenerateTool::begin(&proposal, None).ok().expect("a valid document");
    assert_eq!((ticket.artifact_id.len(), ticket.run_id.len()), (26, 26));
    assert_ne!(ticket.artifact_id, ticket.run_id);
    let refused = AppGenerateTool::begin(&proposal, Some("no title".to_owned()));
    assert!(matches!(refused, Err(ToolError::SchemaInvalid(why)) if why == "no title"));
    assert!(AppGenerateTool::begin(&CanonicalValue::Null, None).is_err());
}

#[test]
fn a_finished_build_is_named_and_a_failed_one_is_told() {
    let built = BuiltApp {
        artifact_id: "A".to_owned(),
        version: 1,
        title: "Kitchen".to_owned(),
        template: "dashboard/v1".to_owned(),
        capabilities: Vec::new(),
        bytes: 9,
    };
    let result = AppGenerateTool::execute(Ok(built)).ok().expect("a built app");
    assert!(!result.truncated);
    match result.content {
        JsonValue::Object(members) => {
            let title = members.iter().find(|(key, _)| key == "title").map(|(_, value)| value);
            assert_eq!(title, Some(&JsonValue::Str("Kitchen".to_owned())));
        }
        other => panic!("not an object: {other:?}"),
    }
    let late = AppGenerateTool::execute(Err(AppBuildError::Timeout));
    assert!(matches!(late, Err(ToolError::Timeout(180))));
}

#[test]
fn the_tool_is_registered_under_its_policy() {
    let policy = ToolPolicy {
        risk: RiskLevel::R1,
        is_reversible: true,
        requires_user_presence: false,
        egress: DataEgress::NoEgress,
        speech_sensitivity: SpeechSensitivity::Normal,
        required_scopes: vec!["app.generate".to_owned()],
    };
    let descriptor = AppGenerateTool::descriptor(policy);
    assert_eq!((descriptor.id, descriptor.version), ("app.generate", (1, 0, 0)));
    assert_eq!(descriptor.policy.map(|p| p.risk), Some(RiskLevel::R1));
}
