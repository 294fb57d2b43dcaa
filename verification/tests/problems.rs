use jarvisd::problem::{
    not_found, problem, repository_problem_distinct_idempotency,
    repository_problem_merged_idempotency, ErrorCode, RepositoryError,
};

#[test]
fn distinct_idempotency_gives_it_its_own_code() {
    let body = repository_problem_distinct_idempotency(
        RepositoryError::IdempotencyConflict,
        "test",
        "conflict",
        "idempotency conflict",
        "storage down",
    );
    assert_eq!(body.status, 409);
    assert_eq!(body.code, ErrorCode::IdempotencyConflict);
    assert_eq!(body.title, "idempotency conflict");
}

#[test]
fn distinct_idempotency_still_maps_conflict_and_storage() {
    let conflict = repository_problem_distinct_idempotency(
        RepositoryError::Conflict("v1 vs v2".to_owned()),
        "test",
        "version conflict",
        "idempotency conflict",
        "storage down",
    );
    assert_eq!(conflict.status, 409);
    assert_eq!(conflict.code, ErrorCode::ResourceVersionConflict);

    let storage = repository_problem_distinct_idempotency(
        RepositoryError::Storage("connection refused".to_owned()),
        "test",
        "version conflict",
        "idempotency conflict",
        "storage down",
    );
    assert_eq!(storage.status, 503);
    assert_eq!(storage.code, ErrorCode::ProviderUnavailable);
    // The raw driver text must never reach the client.
    assert!(!storage.title.contains("connection refused"));
}

#[test]
fn merged_idempotency_collapses_into_the_conflict_code() {
    let body = repository_problem_merged_idempotency(
        RepositoryError::IdempotencyConflict,
        "test",
        "version conflict",
        "storage down",
    );
    assert_eq!(body.status, 409);
    assert_eq!(body.code, ErrorCode::ResourceVersionConflict);
}

#[test]
fn merged_idempotency_still_maps_conflict_and_storage() {
    let conflict = repository_problem_merged_idempotency(
        RepositoryError::Conflict("v1 vs v2".to_owned()),
        "test",
        "version conflict",
        "storage down",
    );
    assert_eq!(conflict.code, ErrorCode::ResourceVersionConflict);

    let storage = repository_problem_merged_idempotency(
        RepositoryError::Storage("connection refused".to_owned()),
        "test",
        "version conflict",
        "storage down",
    );
    assert_eq!(storage.status, 503);
    assert_eq!(storage.code, ErrorCode::ProviderUnavailable);
}

#[test]
fn not_found_uses_the_stable_resource_not_found_code() {
    let body = not_found("no such widget");
    assert_eq!(body.status, 404);
    assert_eq!(body.code, ErrorCode::ResourceNotFound);
    assert_eq!(body.title, "no such widget");
}

#[test]
fn a_problem_has_no_type_and_no_instance_of_its_own() {
    let body = problem(418, ErrorCode::PolicyDenied, "no", Some("because".to_owned()));
    assert_eq!(body.problem_type, "about:blank");
    assert_eq!(body.status, 418);
    assert_eq!(body.detail.as_deref(), Some("because"));
    assert!(body.instance.is_none());
}
