//! Problem responses: the one shape in which a failure crosses the boundary.
//!
//! Titles are short sentences for the owner's client. They never carry secret
//! values or what a driver said of its own failure.

use vstd::prelude::*;

use crate::text;

verus! {

/// Stable machine codes of the wire contract.
#[derive(Debug, Clone, Copy, PartialEq, Eq, Structural)]
pub enum ErrorCode {
    AppInvalidRequest,
    AppTokenRejected,
    AppUndeclaredCapability,
    ArtifactIntegrityFailed,
    ArtifactTooLarge,
    AuthInvalidToken,
    AuthPairingInvalid,
    AuthScopeMissing,
    DeepDiveNothingToPromote,
    DegradedQueued,
    DisplayNodeUnavailable,
    GrantExpired,
    IdempotencyConflict,
    IdentityChallengeRejected,
    IdentityClassNotGrantable,
    IdentityLastOwnerDevice,
    ListFull,
    ListUnrecognizedCommand,
    MemoryInvalid,
    MemorySecretRejected,
    PolicyDenied,
    ProviderUnavailable,
    ResourceNotFound,
    ResourceVersionConflict,
    RunNotCancellable,
    ToolResultInvalid,
    ValidationFailed,
}

/// A problem document.
#[derive(Debug)]
pub struct ProblemDetails {
    pub problem_type: String,
    pub title: String,
    pub status: u16,
    pub detail: Option<String>,
    pub instance: Option<String>,
    pub code: ErrorCode,
}

/// What a problem document says.
#[verifier::ext_equal]
pub struct ProblemView {
    pub problem_type: Seq<char>,
    pub title: Seq<char>,
    pub status: u16,
    pub detail: Option<Seq<char>>,
    pub instance: Option<Seq<char>>,
    pub code: ErrorCode,
}

impl View for ProblemDetails {
    type V = ProblemView;

    open spec fn view(&self) -> ProblemView {
        ProblemView {
            problem_type: self.problem_type@,
            title: self.title@,
            status: self.status,
            detail: text::opt_view(self.detail),
            instance: text::opt_view(self.instance),
            code: self.code,
        }
    }
}

/// A problem of no type of its own, about no particular instance.
pub open spec fn problem_of(
    status: u16,
    code: ErrorCode,
    title: Seq<char>,
    detail: Option<Seq<char>>,
) -> ProblemView {
    ProblemView {
        problem_type: "about:blank"@,
        title,
        status,
        detail,
        instance: None,
        code,
    }
}

pub fn problem(status: u16, code: ErrorCode, title: &str, detail: Option<String>) -> (p:
    ProblemDetails)
    ensures
        p@ == problem_of(status, code, title@, text::opt_view(detail)),
{
    ProblemDetails {
        problem_type: "about:blank".to_owned(),
        title: title.to_owned(),
        status,
        detail,
        instance: None,
        code,
    }
}

/// The shared "resource not found" mapping. The sentence is the caller's; the
/// machine code and the status never are.
pub fn not_found(detail: &str) -> (p: ProblemDetails)
    ensures
        p@ == problem_of(404, ErrorCode::ResourceNotFound, detail@, None),
{
    problem(404, ErrorCode::ResourceNotFound, detail, None)
}

/// The shared mapping of a request that is not well formed.
pub fn bad_request(detail: &str) -> (p: ProblemDetails)
    ensures
        p@ == problem_of(400, ErrorCode::ValidationFailed, detail@, None),
{
    problem(400, ErrorCode::ValidationFailed, detail, None)
}

/// The shared mapping of a store or provider that cannot be reached.
pub fn unavailable(detail: &str) -> (p: ProblemDetails)
    ensures
        p@ == problem_of(503, ErrorCode::ProviderUnavailable, detail@, None),
{
    problem(503, ErrorCode::ProviderUnavailable, detail, None)
}

/// What a store reports of a failed operation.
#[derive(Debug)]
pub enum RepositoryError {
    /// Another writer got there first.
    Conflict(String),
    /// An idempotency key was reused with a different payload.
    IdempotencyConflict,
    /// The store itself failed; the text is the driver's.
    Storage(String),
}

/// The mapping where an idempotency conflict has a code of its own.
pub open spec fn distinct_problem(
    error: RepositoryError,
    conflict: Seq<char>,
    idempotency: Seq<char>,
    storage: Seq<char>,
) -> ProblemView {
    match error {
        RepositoryError::IdempotencyConflict => problem_of(
            409,
            ErrorCode::IdempotencyConflict,
            idempotency,
            None,
        ),
        RepositoryError::Conflict(_) => problem_of(
            409,
            ErrorCode::ResourceVersionConflict,
            conflict,
            None,
        ),
        RepositoryError::Storage(_) => problem_of(
            503,
            ErrorCode::ProviderUnavailable,
            storage,
            None,
        ),
    }
}

/// Shared mapping for the modules where an idempotency-key conflict earns its
/// own machine code, distinct from a plain version conflict.
pub fn repository_problem_distinct_idempotency(
    error: RepositoryError,
    _component: &str,
    conflict_detail: &str,
    idempotency_detail: &str,
    storage_detail: &str,
) -> (p: ProblemDetails)
    ensures
        p@ == distinct_problem(error, conflict_detail@, idempotency_detail@, storage_detail@),
{
    match error {
        RepositoryError::IdempotencyConflict => problem(
            409,
            ErrorCode::IdempotencyConflict,
            idempotency_detail,
            None,
        ),
        RepositoryError::Conflict(_) => problem(
            409,
            ErrorCode::ResourceVersionConflict,
            conflict_detail,
            None,
        ),
        RepositoryError::Storage(_) => unavailable(storage_detail),
    }
}

/// The mapping where an idempotency conflict is a conflict like any other.
pub open spec fn merged_problem(
    error: RepositoryError,
    conflict: Seq<char>,
    storage: Seq<char>,
) -> ProblemView {
    match error {
        RepositoryError::Conflict(_) | RepositoryError::IdempotencyConflict => problem_of(
            409,
            ErrorCode::ResourceVersionConflict,
            conflict,
            None,
        ),
        RepositoryError::Storage(_) => problem_of(
            503,
            ErrorCode::ProviderUnavailable,
            storage,
            None,
        ),
    }
}

/// Shared mapping for the modules where an idempotency-key conflict collapses
/// into the same machine code as a plain version conflict.
pub fn repository_problem_merged_idempotency(
    error: RepositoryError,
    _component: &str,
    conflict_detail: &str,
    storage_detail: &str,
) -> (p: ProblemDetails)
    ensures
        p@ == merged_problem(error, conflict_detail@, storage_detail@),
{
    match error {
        RepositoryError::Conflict(_) | RepositoryError::IdempotencyConflict => problem(
            409,
            ErrorCode::ResourceVersionConflict,
            conflict_detail,
            None,
        ),
        RepositoryError::Storage(_) => unavailable(storage_detail),
    }
}

/// What a driver said of its failure never reaches a client: two storage
/// failures are answered alike, whatever their texts.
pub proof fn law_driver_text_is_withheld(
    a: String,
    b: String,
    conflict: Seq<char>,
    idempotency: Seq<char>,
    storage: Seq<char>,
)
    ensures
        distinct_problem(RepositoryError::Storage(a), conflict, idempotency, storage)
            == distinct_problem(RepositoryError::Storage(b), conflict, idempotency, storage),
        merged_problem(RepositoryError::Storage(a), conflict, storage) == merged_problem(
            RepositoryError::Storage(b),
            conflict,
            storage,
        ),
        distinct_problem(RepositoryError::Conflict(a), conflict, idempotency, storage)
            == distinct_problem(RepositoryError::Conflict(b), conflict, idempotency, storage),
{
}

/// A storage error is answered by what it was: a race is a conflict the caller
/// can settle, and a broken store is an outage. Where a surface tells a reused
/// key from a race, the two have codes of their own.
pub proof fn law_storage_errors_are_told_apart(
    error: RepositoryError,
    conflict: Seq<char>,
    idempotency: Seq<char>,
    storage: Seq<char>,
)
    ensures
        ({
            let p = distinct_problem(error, conflict, idempotency, storage);
            &&& p.status == 409 <==> error !is Storage
            &&& p.status == 503 <==> error is Storage
            &&& p.code is IdempotencyConflict <==> error is IdempotencyConflict
            &&& p.code is ProviderUnavailable <==> error is Storage
            &&& error is Conflict ==> p.title == conflict && p.code is ResourceVersionConflict
            &&& error is IdempotencyConflict ==> p.title == idempotency
            &&& error is Storage ==> p.title == storage
            &&& p.detail is None
        }),
        ({
            let p = merged_problem(error, conflict, storage);
            &&& p.status == 409 <==> error !is Storage
            &&& p.status == 503 <==> error is Storage
            &&& error !is Storage ==> p.title == conflict && p.code is ResourceVersionConflict
            &&& error is Storage ==> p.title == storage && p.code is ProviderUnavailable
            &&& p.detail is None
        }),
{
}

/// A problem says what it was given: its status, its code, its title and its
/// detail, if it has one.
pub proof fn law_a_problem_says_what_it_was_given(
    status: u16,
    code: ErrorCode,
    title: Seq<char>,
    detail: Option<Seq<char>>,
)
    ensures
        problem_of(status, code, title, detail).status == status,
        problem_of(status, code, title, detail).code == code,
        problem_of(status, code, title, detail).title == title,
        problem_of(status, code, title, detail).detail == detail,
        problem_of(status, code, title, detail).instance is None,
{
}

} // verus!
