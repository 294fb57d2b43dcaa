//! Memories: reviewing, editing and forgetting what is remembered.
//!
//! Nothing is created here. An edit keeps whatever it does not name, and every
//! change is recorded without the text of the memory.

use vstd::prelude::*;

use crate::artifacts::Sensitivity;
use crate::audit;
use crate::audit::{AuditEvent, AuditValue};
use crate::identity::DeviceContext;
use crate::ids;
use crate::problem;
use crate::problem::{ErrorCode, ProblemDetails, RepositoryError};
use crate::text;
use crate::time;
use crate::time::Timestamp;

verus! {

pub const MAX_QUERY_BYTES: usize = 128;

/// How many memories are listed where a client names no number.
pub const DEFAULT_LIMIT: u32 = 50;

#[derive(Debug, Clone, Copy, PartialEq, Eq, Structural)]
pub enum MemoryLayer {
    Working,
    Episodic,
    Semantic,
    Procedural,
}

#[derive(Debug)]
pub enum MemoryScope {
    User,
    Session(String),
    Project(String),
}

#[derive(Debug)]
pub enum RetentionRule {
    UntilForgotten,
    ExpiresAt(Timestamp),
    Session,
}

/// A retention rule on the wire.
#[derive(Debug)]
pub enum RetentionDto {
    UntilForgotten,
    ExpiresAt(String),
    Session,
}

/// Where a memory came from.
#[derive(Debug)]
pub struct MemorySource {
    pub kind: String,
    pub id: Option<String>,
}

#[derive(Debug)]
pub struct Memory {
    pub id: String,
    pub user_id: String,
    pub layer: MemoryLayer,
    pub text: String,
    pub source: MemorySource,
    pub scope: MemoryScope,
    pub retention: RetentionRule,
    /// The bits of the confidence; they are carried and never read.
    pub confidence_bits: u64,
    pub sensitivity: Sensitivity,
    pub pinned: bool,
    pub created_at: Timestamp,
    pub updated_at: Timestamp,
}

#[derive(Debug)]
pub struct MemoryDto {
    pub id: String,
    pub layer: MemoryLayer,
    pub text: String,
    pub source: MemorySource,
    pub scope: MemoryScope,
    pub retention: RetentionDto,
    pub confidence_bits: u64,
    pub sensitivity: String,
    pub pinned: bool,
    pub created_at: String,
    pub updated_at: String,
}

pub open spec fn same_scope(a: MemoryScope, b: MemoryScope) -> bool {
    match (a, b) {
        (MemoryScope::User, MemoryScope::User) => true,
        (MemoryScope::Session(x), MemoryScope::Session(y)) => x@ == y@,
        (MemoryScope::Project(x), MemoryScope::Project(y)) => x@ == y@,
        _ => false,
    }
}

pub fn scope_dto(scope: &MemoryScope) -> (dto: MemoryScope)
    ensures
        same_scope(dto, *scope),
{
    match scope {
        MemoryScope::User => MemoryScope::User,
        MemoryScope::Session(id) => MemoryScope::Session(id.clone()),
        MemoryScope::Project(name) => MemoryScope::Project(name.clone()),
    }
}

pub open spec fn shows_retention(dto: RetentionDto, r: RetentionRule) -> bool {
    match r {
        RetentionRule::UntilForgotten => dto is UntilForgotten,
        RetentionRule::Session => dto is Session,
        RetentionRule::ExpiresAt(at) => dto matches RetentionDto::ExpiresAt(s) && s@
            == time::rfc3339_of(at),
    }
}

pub fn retention_dto(r: &RetentionRule) -> (dto: RetentionDto)
    ensures
        shows_retention(dto, *r),
{
    match r {
        RetentionRule::UntilForgotten => RetentionDto::UntilForgotten,
        RetentionRule::ExpiresAt(at) => RetentionDto::ExpiresAt(time::rfc3339(*at)),
        RetentionRule::Session => RetentionDto::Session,
    }
}

pub open spec fn sensitivity_named(s: Sensitivity) -> &'static str {
    match s {
        Sensitivity::Normal => "normal",
        Sensitivity::Sensitive => "sensitive",
    }
}

pub fn sensitivity_name(value: Sensitivity) -> (s: &'static str)
    ensures
        s == sensitivity_named(value),
{
    match value {
        Sensitivity::Normal => "normal",
        Sensitivity::Sensitive => "sensitive",
    }
}

/// Whether a shown memory says what the stored one does.
pub open spec fn shows(dto: MemoryDto, m: Memory) -> bool {
    &&& dto.id@ == m.id@
    &&& dto.layer == m.layer
    &&& dto.text@ == m.text@
    &&& dto.source.kind@ == m.source.kind@
    &&& text::opt_view(dto.source.id) == text::opt_view(m.source.id)
    &&& same_scope(dto.scope, m.scope)
    &&& shows_retention(dto.retention, m.retention)
    &&& dto.confidence_bits == m.confidence_bits
    &&& dto.sensitivity@ == sensitivity_named(m.sensitivity)@
    &&& dto.pinned == m.pinned
    &&& dto.created_at@ == time::rfc3339_of(m.created_at)
    &&& dto.updated_at@ == time::rfc3339_of(m.updated_at)
}

pub fn to_dto(m: &Memory) -> (dto: MemoryDto)
    ensures
        shows(dto, *m),
{
    MemoryDto {
        id: m.id.clone(),
        layer: m.layer,
        text: m.text.clone(),
        source: MemorySource { kind: m.source.kind.clone(), id: text::copy_opt(&m.source.id) },
        scope: scope_dto(&m.scope),
        retention: retention_dto(&m.retention),
        confidence_bits: m.confidence_bits,
        sensitivity: sensitivity_name(m.sensitivity).to_owned(),
        pinned: m.pinned,
        created_at: time::rfc3339(m.created_at),
        updated_at: time::rfc3339(m.updated_at),
    }
}

pub open spec fn repository_problem_view(error: RepositoryError) -> problem::ProblemView {
    problem::distinct_problem(
        error,
        "memory changed; refresh and retry"@,
        "idempotency conflict"@,
        "memory storage unavailable"@,
    )
}

pub fn repository_problem(error: RepositoryError) -> (p: ProblemDetails)
    ensures
        p@ == repository_problem_view(error),
{
    problem::repository_problem_distinct_idempotency(
        error,
        "memory",
        "memory changed; refresh and retry",
        "idempotency conflict",
        "memory storage unavailable",
    )
}

// ---------------------------------------------------------------------------
// Listing
// ---------------------------------------------------------------------------

/// What a client looks for.
#[derive(Debug)]
pub struct MemoryQuery {
    pub layer: Option<MemoryLayer>,
    pub query: Option<String>,
    pub limit: Option<u32>,
}

/// Whether a query can be looked for: two bytes at least without its margins,
/// and no more than the bound with them.
pub open spec fn is_query(q: Seq<char>) -> bool {
    text::bytes_in(text::trimmed(q)) >= 2 && text::bytes_in(q) <= MAX_QUERY_BYTES
}

pub open spec fn bad_query_view() -> problem::ProblemView {
    problem::problem_of(
        400,
        ErrorCode::ValidationFailed,
        "memory query must be 2 to 128 bytes"@,
        None,
    )
}

/// Admit a listing: how many memories it asks for.
pub fn admit_list(query: &MemoryQuery) -> (r: Result<u32, ProblemDetails>)
    ensures
        admits_list(*query, r),
        if query.query matches Some(q) && !is_query(q@) {
            r matches Err(p) && p@ == bad_query_view()
        } else {
            r == Ok::<u32, ProblemDetails>(
                match query.limit {
                    Some(n) => n,
                    None => DEFAULT_LIMIT,
                },
            )
        },
{
    if let Some(q) = &query.query {
        let inner = text::trim(q.as_str());
        if text::byte_len(inner) < 2 || text::byte_len(q.as_str()) > MAX_QUERY_BYTES {
            return Err(problem::bad_request("memory query must be 2 to 128 bytes"));
        }
    }
    match query.limit {
        Some(n) => Ok(n),
        None => Ok(DEFAULT_LIMIT),
    }
}

/// The memories, in the order of the store.
pub fn list(stored: Result<Vec<Memory>, RepositoryError>) -> (r: Result<
    Vec<MemoryDto>,
    ProblemDetails,
>)
    ensures
        lists_memories(stored, r),
        match stored {
            Err(e) => r matches Err(p) && p@ == repository_problem_view(e),
            Ok(all) => r matches Ok(shown) && shown@.len() == all@.len() && forall|i: int|
                0 <= i < all@.len() ==> shows(#[trigger] shown@[i], all@[i]),
        },
{
    let all = match stored {
        Ok(v) => v,
        Err(e) => {
            return Err(repository_problem(e));
        },
    };
    let mut shown: Vec<MemoryDto> = Vec::new();
    let mut i: usize = 0;
    while i < all.len()
        invariant
            i <= all@.len(),
            shown@.len() == i,
            forall|k: int| 0 <= k < i ==> shows(#[trigger] shown@[k], all@[k]),
        decreases all@.len() - i,
    {
        shown.push(to_dto(&all[i]));
        i = i + 1;
    }
    Ok(shown)
}

// ---------------------------------------------------------------------------
// Editing
// ---------------------------------------------------------------------------

/// The rule that a wire form names.
pub open spec fn retention_named(dto: RetentionDto) -> Option<RetentionRule> {
    match dto {
        RetentionDto::UntilForgotten => Some(RetentionRule::UntilForgotten),
        RetentionDto::Session => Some(RetentionRule::Session),
        RetentionDto::ExpiresAt(raw) => match time::rfc3339_instant(raw@) {
            Some(nanos) => Some(RetentionRule::ExpiresAt(Timestamp { nanos: nanos as i128 })),
            None => None,
        },
    }
}

pub fn parse_retention(dto: RetentionDto) -> (r: Result<RetentionRule, &'static str>)
    ensures
        match (r, retention_named(dto)) {
            (Ok(rule), Some(named)) => rule == named,
            (Err(why), None) => why == "retention.expiresAt must be RFC 3339",
            _ => false,
        },
{
    match dto {
        RetentionDto::UntilForgotten => Ok(RetentionRule::UntilForgotten),
        RetentionDto::Session => Ok(RetentionRule::Session),
        RetentionDto::ExpiresAt(raw) => match time::parse_rfc3339(raw.as_str()) {
            Some(at) => Ok(RetentionRule::ExpiresAt(at)),
            None => Err("retention.expiresAt must be RFC 3339"),
        },
    }
}

/// An edit. What it does not name stays.
#[derive(Debug)]
pub struct PatchMemoryRequest {
    pub text: Option<String>,
    pub pinned: Option<bool>,
    pub retention: Option<RetentionDto>,
}

pub open spec fn bad_id_view() -> problem::ProblemView {
    problem::problem_of(400, ErrorCode::ValidationFailed, "memory id is not a ULID"@, None)
}

pub open spec fn no_such_memory_view() -> problem::ProblemView {
    problem::problem_of(404, ErrorCode::ResourceNotFound, "no such memory"@, None)
}

/// The memory that a path names, or what is answered.
pub open spec fn current_of(id: Seq<char>, stored: Result<Option<Memory>, RepositoryError>) -> Result<
    Memory,
    problem::ProblemView,
> {
    if !ids::is_ulid(id) {
        Err(bad_id_view())
    } else {
        match stored {
            Err(e) => Err(repository_problem_view(e)),
            Ok(None) => Err(no_such_memory_view()),
            Ok(Some(m)) => Ok(m),
        }
    }
}

fn current(id: &str, stored: Result<Option<Memory>, RepositoryError>) -> (r: Result<
    Memory,
    ProblemDetails,
>)
    ensures
        match (r, current_of(id@, stored)) {
            (Ok(m), Ok(n)) => m == n,
            (Err(e), Err(p)) => e@ == p,
            _ => false,
        },
{
    if !ids::is_id(id) {
        return Err(problem::bad_request("memory id is not a ULID"));
    }
    match stored {
        Err(e) => Err(repository_problem(e)),
        Ok(None) => Err(problem::not_found("no such memory")),
        Ok(Some(m)) => Ok(m),
    }
}

/// What an edit makes of a memory.
pub open spec fn edited(m: Memory, request: PatchMemoryRequest, retention: RetentionRule, now: Timestamp) -> Memory {
    Memory {
        text: match request.text {
            Some(t) => t,
            None => m.text,
        },
        retention,
        pinned: match request.pinned {
            Some(b) => b,
            None => m.pinned,
        },
        updated_at: now,
        ..m
    }
}

/// The retention that an edit leads to; none where it names one that cannot be
/// read.
pub open spec fn retention_after(m: Memory, request: PatchMemoryRequest) -> Option<RetentionRule> {
    match request.retention {
        Some(dto) => retention_named(dto),
        None => Some(m.retention),
    }
}

/// Begin an edit: the memory as it would become. Its content is still to be
/// validated.
pub fn patch(
    id: &str,
    stored: Result<Option<Memory>, RepositoryError>,
    request: PatchMemoryRequest,
    now: Timestamp,
) -> (r: Result<Memory, ProblemDetails>)
    ensures
        answers_edit(id@, stored, request, now, r),
        match current_of(id@, stored) {
            Err(p) => r matches Err(e) && e@ == p,
            Ok(m) => match retention_after(m, request) {
                Some(retention) => r == Ok::<Memory, ProblemDetails>(
                    edited(m, request, retention, now),
                ),
                None => r matches Err(e) && e@ == problem::problem_of(
                    400,
                    ErrorCode::ValidationFailed,
                    "retention.expiresAt must be RFC 3339"@,
                    None,
                ),
            },
        },
{
    let m = match current(id, stored) {
        Ok(m) => m,
        Err(p) => {
            return Err(p);
        },
    };
    let retention = match request.retention {
        Some(dto) => match parse_retention(dto) {
            Ok(rule) => rule,
            Err(why) => {
                return Err(problem::bad_request(why));
            },
        },
        None => m.retention,
    };
    let said = match request.text {
        Some(t) => t,
        None => m.text,
    };
    let pinned = match request.pinned {
        Some(b) => b,
        None => m.pinned,
    };
    Ok(
        Memory {
            id: m.id,
            user_id: m.user_id,
            layer: m.layer,
            text: said,
            source: m.source,
            scope: m.scope,
            retention,
            confidence_bits: m.confidence_bits,
            sensitivity: m.sensitivity,
            pinned,
            created_at: m.created_at,
            updated_at: now,
        },
    )
}

/// Why the content of a memory was rejected, in its own words.
#[derive(Debug)]
pub enum MemoryError {
    SecretLike(String),
    Other(String),
}

pub open spec fn memory_problem_view(error: MemoryError) -> problem::ProblemView {
    match error {
        MemoryError::SecretLike(why) => problem::problem_of(
            422,
            ErrorCode::MemorySecretRejected,
            "memory content rejected"@,
            Some(why@),
        ),
        MemoryError::Other(why) => problem::problem_of(
            422,
            ErrorCode::MemoryInvalid,
            "memory content rejected"@,
            Some(why@),
        ),
    }
}

pub fn memory_problem(error: MemoryError) -> (p: ProblemDetails)
    ensures
        p@ == memory_problem_view(error),
{
    match error {
        MemoryError::SecretLike(why) => problem::problem(
            422,
            ErrorCode::MemorySecretRejected,
            "memory content rejected",
            Some(why),
        ),
        MemoryError::Other(why) => problem::problem(
            422,
            ErrorCode::MemoryInvalid,
            "memory content rejected",
            Some(why),
        ),
    }
}

/// The record of a change: which memory and what was done, never its text.
pub open spec fn change_event(
    device_id: Seq<char>,
    memory_id: Seq<char>,
    operation: Seq<char>,
    now: Timestamp,
) -> audit::AuditView {
    audit::event_of(
        now,
        audit::device_actor(device_id),
        "memory."@ + operation,
        "memory:"@ + memory_id,
        seq![
            ("memoryId"@, audit::ValueView::Text(memory_id)),
            ("operation"@, audit::ValueView::Text(operation)),
        ],
    )
}

fn change_audit(device: &DeviceContext, memory_id: &str, operation: &str, now: Timestamp) -> (e:
    AuditEvent)
    ensures
        e@ == change_event(device.device_id@, memory_id@, operation@, now),
{
    let e = AuditEvent {
        occurred_at: now,
        actor: audit::actor_of(device.device_id.as_str()),
        event_type: text::concat2("memory.", operation),
        target: text::concat2("memory:", memory_id),
        correlation_id: None,
        payload: audit::with_field(
            audit::with_field(
                audit::no_fields(),
                "memoryId",
                AuditValue::Text(memory_id.to_owned()),
            ),
            "operation",
            AuditValue::Text(operation.to_owned()),
        ),
    };
    assert(e@ =~= change_event(device.device_id@, memory_id@, operation@, now));
    e
}

/// Conclude an edit once its content was validated: the record to store with it.
pub fn updated(
    device: &DeviceContext,
    memory: &Memory,
    fault: Option<MemoryError>,
    now: Timestamp,
) -> (r: Result<AuditEvent, ProblemDetails>)
    ensures
        records_update(*device, *memory, fault, now, r),
        match fault {
            Some(f) => r matches Err(p) && p@ == memory_problem_view(f),
            None => r matches Ok(e) && e@ == change_event(
                device.device_id@,
                memory.id@,
                "updated"@,
                now,
            ),
        },
{
    match fault {
        Some(f) => Err(memory_problem(f)),
        None => Ok(change_audit(device, memory.id.as_str(), "updated", now)),
    }
}

/// Begin to forget a memory: the record to store with it.
pub fn forget(
    id: &str,
    stored: Result<Option<Memory>, RepositoryError>,
    device: &DeviceContext,
    now: Timestamp,
) -> (r: Result<AuditEvent, ProblemDetails>)
    ensures
        records_forgetting(id@, stored, *device, now, r),
        match current_of(id@, stored) {
            Err(p) => r matches Err(e) && e@ == p,
            Ok(m) => r matches Ok(e) && e@ == change_event(
                device.device_id@,
                m.id@,
                "forgotten"@,
                now,
            ),
        },
{
    match current(id, stored) {
        Ok(m) => Ok(change_audit(device, m.id.as_str(), "forgotten", now)),
        Err(p) => Err(p),
    }
}

/// What forgetting is answered with: 204 where something was removed.
pub fn forgotten(removed: Result<bool, RepositoryError>) -> (r: Result<u16, ProblemDetails>)
    ensures
        answers_forgetting(removed, r),
        match removed {
            Ok(true) => r == Ok::<u16, ProblemDetails>(204u16),
            Ok(false) => r matches Err(p) && p@ == no_such_memory_view(),
            Err(e) => r matches Err(p) && p@ == repository_problem_view(e),
        },
{
    match removed {
        Ok(true) => Ok(204),
        Ok(false) => Err(problem::not_found("no such memory")),
        Err(e) => Err(repository_problem(e)),
    }
}

/// An edit changes nothing that it does not name; whose memory it is, what it
/// came from and when it was made never change.
pub proof fn law_edits_keep_what_they_do_not_name(
    m: Memory,
    request: PatchMemoryRequest,
    retention: RetentionRule,
    now: Timestamp,
)
    requires
        retention_after(m, request) == Some(retention),
    ensures
        ({
            let e = edited(m, request, retention, now);
            &&& e.id == m.id && e.user_id == m.user_id && e.layer == m.layer
            &&& e.source == m.source && e.scope == m.scope && e.sensitivity == m.sensitivity
            &&& e.confidence_bits == m.confidence_bits && e.created_at == m.created_at
            &&& request.text is None ==> e.text == m.text
            &&& request.pinned is None ==> e.pinned == m.pinned
            &&& request.retention is None ==> e.retention == m.retention
        }),
{
}

/// What an edit names takes effect: the new text, the new pin and the new
/// retention are the memory's own afterwards, and the edit dates it.
pub proof fn law_edits_take_effect(
    m: Memory,
    request: PatchMemoryRequest,
    retention: RetentionRule,
    now: Timestamp,
)
    requires
        retention_after(m, request) == Some(retention),
    ensures
        ({
            let e = edited(m, request, retention, now);
            &&& e.updated_at == now
            &&& request.text matches Some(t) ==> e.text == t
            &&& request.pinned matches Some(b) ==> e.pinned == b
            &&& request.retention matches Some(dto) ==> match dto {
                RetentionDto::UntilForgotten => e.retention is UntilForgotten,
                RetentionDto::Session => e.retention is Session,
                RetentionDto::ExpiresAt(raw) => e.retention matches RetentionRule::ExpiresAt(at)
                    && (time::rfc3339_instant(raw@) matches Some(nanos) && at.nanos == nanos as i128),
            }
        }),
{
}

/// An edit is possible unless it names an expiry that is no instant.
pub proof fn law_only_an_unreadable_expiry_stops_an_edit(m: Memory, request: PatchMemoryRequest)
    ensures
        retention_after(m, request) is None <==> (request.retention matches Some(
            RetentionDto::ExpiresAt(raw),
        ) && time::rfc3339_instant(raw@) is None),
{
}

/// A page of memories tells them apart: two memories shown alike agree in every
/// part that is shown, and a retention that was shown is read back as it was.
pub proof fn law_a_shown_memory_is_that_memory(dto: MemoryDto, a: Memory, b: Memory)
    requires
        shows(dto, a),
        shows(dto, b),
    ensures
        a.id@ == b.id@,
        a.text@ == b.text@,
        a.layer == b.layer,
        a.pinned == b.pinned,
        a.sensitivity == b.sensitivity,
        a.source.kind@ == b.source.kind@,
        a.confidence_bits == b.confidence_bits,
        a.scope is User <==> b.scope is User,
        a.scope is Session <==> b.scope is Session,
        dto.text@ == a.text@,
        dto.id@ == a.id@,
        dto.created_at@ == time::rfc3339_of(a.created_at),
        dto.updated_at@ == time::rfc3339_of(a.updated_at),
        a.retention is UntilForgotten || a.retention is Session ==> retention_named(dto.retention)
            == Some(a.retention),
{
    reveal_strlit("normal");
    reveal_strlit("sensitive");
    assert("normal"@.len() == 6);
    assert("sensitive"@.len() == 9);
}

/// What can be searched for: at least two bytes besides the white space around
/// them, and no more than 128 in all.
pub proof fn law_queries_are_bounded(q: Seq<char>)
    ensures
        is_query(q) ==> !text::is_blank(q),
        is_query(q) <==> 1 < text::bytes_in(text::trimmed(q)) && text::bytes_in(q) < 129,
{
    if text::trimmed(q).len() == 0 {
        assert(text::trimmed(q) =~= seq![]);
        assert(vstd::utf8::encode_utf8(text::trimmed(q)).len() == 0);
    }
}

/// A memory is found exactly where its id is one and the store holds it. A
/// missing one is not found, an id that is none is the caller's fault, a race is
/// a conflict and a broken store is nobody's fault.
pub proof fn law_a_memory_is_found_or_the_answer_says_why(
    id: Seq<char>,
    stored: Result<Option<Memory>, RepositoryError>,
)
    ensures
        current_of(id, stored) is Ok <==> ids::is_ulid(id) && (stored matches Ok(Some(_))),
        current_of(id, stored) matches Ok(m) ==> stored == Ok::<Option<Memory>, RepositoryError>(
            Some(m),
        ),
        current_of(id, stored) matches Err(p) ==> p.status == (if !ids::is_ulid(id) {
            400u16
        } else {
            match stored {
                Ok(_) => 404u16,
                Err(RepositoryError::Storage(_)) => 503u16,
                Err(_) => 409u16,
            }
        }),
{
}

/// The record of a change says which device made it, to which memory, what it
/// was and when.
pub proof fn law_changes_are_recorded(
    device_id: Seq<char>,
    memory_id: Seq<char>,
    operation: Seq<char>,
    now: Timestamp,
)
    ensures
        ({
            let r = change_event(device_id, memory_id, operation, now);
            &&& r.occurred_at == now
            &&& text::stripped(r.actor, "device:"@) == Some(device_id)
            &&& text::stripped(r.target, "memory:"@) == Some(memory_id)
            &&& text::stripped(r.event_type, "memory."@) == Some(operation)
            &&& r.payload.len() == 2
            &&& r.payload[0] == ("memoryId"@, audit::ValueView::Text(memory_id))
            &&& r.payload[1] == ("operation"@, audit::ValueView::Text(operation))
        }),
{
    text::law_a_prefix_is_taken_off(seq![], "device:"@, device_id);
    text::law_a_prefix_is_taken_off(seq![], "memory:"@, memory_id);
    text::law_a_prefix_is_taken_off(seq![], "memory."@, operation);
}

/// A memory that looks like a secret is told from one that is otherwise unfit;
/// both are refused with the reason.
pub proof fn law_unfit_memories_are_refused(why: String)
    ensures
        memory_problem_view(MemoryError::SecretLike(why)).status == 422,
        memory_problem_view(MemoryError::Other(why)).status == 422,
        memory_problem_view(MemoryError::SecretLike(why)).code is MemorySecretRejected,
        memory_problem_view(MemoryError::Other(why)).code is MemoryInvalid,
        memory_problem_view(MemoryError::SecretLike(why)).detail == Some(why@),
        memory_problem_view(MemoryError::Other(why)).detail == Some(why@),
{
}

/// What a request for memories meets.
pub open spec fn admits_list(query: MemoryQuery, r: Result<u32, ProblemDetails>) -> bool {
    if query.query matches Some(q) && !is_query(q@) {
        r matches Err(p) && p@ == bad_query_view()
    } else {
        r == Ok::<u32, ProblemDetails>(
            match query.limit {
                Some(n) => n,
                None => DEFAULT_LIMIT,
            },
        )
    }
}

/// What the wish to forget a memory is answered with.
pub open spec fn answers_forgetting(
    removed: Result<bool, RepositoryError>,
    r: Result<u16, ProblemDetails>,
) -> bool {
    match removed {
        Ok(true) => r == Ok::<u16, ProblemDetails>(204u16),
        Ok(false) => r matches Err(p) && p@ == no_such_memory_view(),
        Err(e) => r matches Err(p) && p@ == repository_problem_view(e),
    }
}

/// Memories are listed without a query or with one that can be looked for, as
/// many as were asked for or fifty. A memory is forgotten exactly where the store
/// removed it; one that was not there is not found.
pub proof fn law_memories_are_listed_and_forgotten(
    query: MemoryQuery,
    listed: Result<u32, ProblemDetails>,
    removed: Result<bool, RepositoryError>,
    gone: Result<u16, ProblemDetails>,
)
    requires
        admits_list(query, listed),
        answers_forgetting(removed, gone),
    ensures
        listed is Ok <==> query.query is None || is_query(query.query->0@),
        listed matches Ok(n) ==> (query.limit is Some ==> Some(n) == query.limit) && (
        query.limit is None ==> n == 50),
        listed matches Err(p) ==> p.status == 400,
        gone is Ok <==> removed is Ok && removed->Ok_0,
        gone matches Ok(status) ==> status == 204,
        removed is Ok && !removed->Ok_0 ==> gone->Err_0.status == 404,
{
}

/// The codes that a client of the memories branches on.
pub proof fn law_memory_problems_have_their_codes()
    ensures
        bad_query_view().status == 400 && bad_query_view().code is ValidationFailed,
        bad_id_view().status == 400 && bad_id_view().code is ValidationFailed,
        no_such_memory_view().status == 404 && no_such_memory_view().code is ResourceNotFound,
{
}

/// What a request for the memories is answered with.
pub open spec fn lists_memories(
    stored: Result<Vec<Memory>, RepositoryError>,
    r: Result<Vec<MemoryDto>, ProblemDetails>,
) -> bool {
    match stored {
        Err(e) => r matches Err(p) && p@ == repository_problem_view(e),
        Ok(all) => r matches Ok(shown) && shown@.len() == all@.len() && forall|i: int|
            0 <= i < all@.len() ==> shows(#[trigger] shown@[i], all@[i]),
    }
}

/// What an edit of a memory comes to.
pub open spec fn answers_edit(
    id: Seq<char>,
    stored: Result<Option<Memory>, RepositoryError>,
    request: PatchMemoryRequest,
    now: Timestamp,
    r: Result<Memory, ProblemDetails>,
) -> bool {
    match current_of(id, stored) {
        Err(p) => r matches Err(e) && e@ == p,
        Ok(m) => match retention_after(m, request) {
            Some(retention) => r == Ok::<Memory, ProblemDetails>(
                edited(m, request, retention, now),
            ),
            None => r matches Err(e) && e@.status == 400 && e@.code is ValidationFailed,
        },
    }
}

/// What the update of a memory leaves on record.
pub open spec fn records_update(
    device: DeviceContext,
    memory: Memory,
    fault: Option<MemoryError>,
    now: Timestamp,
    r: Result<AuditEvent, ProblemDetails>,
) -> bool {
    match fault {
        Some(f) => r matches Err(p) && p@ == memory_problem_view(f),
        None => r matches Ok(e) && e@ == change_event(
            device.device_id@,
            memory.id@,
            "updated"@,
            now,
        ),
    }
}

/// What forgetting a memory leaves on record.
pub open spec fn records_forgetting(
    id: Seq<char>,
    stored: Result<Option<Memory>, RepositoryError>,
    device: DeviceContext,
    now: Timestamp,
    r: Result<AuditEvent, ProblemDetails>,
) -> bool {
    match current_of(id, stored) {
        Err(p) => r matches Err(e) && e@ == p,
        Ok(m) => r matches Ok(e) && e@ == change_event(
            device.device_id@,
            m.id@,
            "forgotten"@,
            now,
        ),
    }
}

/// Memories are listed as they are stored, all of them and in their order.
pub proof fn law_memories_are_listed_in_their_order(
    stored: Result<Vec<Memory>, RepositoryError>,
    r: Result<Vec<MemoryDto>, ProblemDetails>,
    i: int,
)
    requires
        lists_memories(stored, r),
    ensures
        r is Ok <==> stored is Ok,
        r matches Ok(shown) ==> shown@.len() == stored->Ok_0@.len() && (0 <= i < shown@.len()
            ==> shown@[i].id@ == stored->Ok_0@[i].id@ && shown@[i].text@ == stored->Ok_0@[i].text@),
{
    if r is Ok {
        let shown = r->Ok_0;
        if 0 <= i < shown@.len() {
            assert(shows(shown@[i], stored->Ok_0@[i]));
        }
    }
}

/// A memory is edited where it is there and the edit can be read; the edit is of
/// that memory. It is recorded as updated where its content is fit, and one that
/// is forgotten is recorded as forgotten; each record names the memory and the
/// device.
pub proof fn law_edits_and_forgetting_are_of_the_memory_named(
    id: Seq<char>,
    stored: Result<Option<Memory>, RepositoryError>,
    request: PatchMemoryRequest,
    device: DeviceContext,
    now: Timestamp,
    r: Result<Memory, ProblemDetails>,
    memory: Memory,
    fault: Option<MemoryError>,
    updated: Result<AuditEvent, ProblemDetails>,
    gone: Result<AuditEvent, ProblemDetails>,
)
    requires
        answers_edit(id, stored, request, now, r),
        records_update(device, memory, fault, now, updated),
        records_forgetting(id, stored, device, now, gone),
    ensures
        r is Ok ==> ids::is_ulid(id) && stored is Ok && stored->Ok_0 is Some,
        r matches Ok(e) ==> e.id == stored->Ok_0->0.id && e.updated_at == now,
        ids::is_ulid(id) && stored is Ok && stored->Ok_0 is Some && request.retention is None
            ==> r is Ok,
        updated is Ok <==> fault is None,
        updated matches Ok(e) ==> e.event_type@ == "memory."@ + "updated"@ && e.target@ == "memory:"@
            + memory.id@ && e.actor@ == "device:"@ + device.device_id@,
        gone is Ok <==> ids::is_ulid(id) && stored is Ok && stored->Ok_0 is Some,
        gone matches Ok(e) ==> e.event_type@ == "memory."@ + "forgotten"@ && e.target@ == "memory:"@
            + stored->Ok_0->0.id@ && e.actor@ == "device:"@ + device.device_id@,
{
    if gone is Ok {
        assert(gone->Ok_0@.target == gone->Ok_0.target@);
    }
    if updated is Ok {
        assert(updated->Ok_0@.target == updated->Ok_0.target@);
    }
}

} // verus!
