//! Sessions: making, reading and listing conversations.

use vstd::prelude::*;

use crate::audit;
use crate::audit::{AuditEvent, AuditValue};
use crate::identity::DeviceContext;
use crate::ids;
use crate::problem;
use crate::problem::{ErrorCode, ProblemDetails, RepositoryError};
use crate::text;
use crate::time;
use crate::time::Timestamp;

verus! {

#[derive(Debug, Clone, Copy, PartialEq, Eq, Structural)]
pub enum SessionStatus {
    Active,
    Archived,
}

#[derive(Debug)]
pub struct Session {
    pub id: String,
    pub title: Option<String>,
    pub status: SessionStatus,
    pub created_at: Timestamp,
    pub updated_at: Timestamp,
}

#[derive(Debug)]
pub struct SessionDto {
    pub id: String,
    pub title: Option<String>,
    pub status: SessionStatus,
    pub created_at: String,
    pub updated_at: String,
}

pub open spec fn shows(dto: SessionDto, s: Session) -> bool {
    &&& dto.id@ == s.id@
    &&& text::opt_view(dto.title) == text::opt_view(s.title)
    &&& dto.status == s.status
    &&& dto.created_at@ == time::rfc3339_of(s.created_at)
    &&& dto.updated_at@ == time::rfc3339_of(s.updated_at)
}

pub fn to_dto(s: &Session) -> (dto: SessionDto)
    ensures
        shows(dto, *s),
{
    SessionDto {
        id: s.id.clone(),
        title: text::copy_opt(&s.title),
        status: s.status,
        created_at: time::rfc3339(s.created_at),
        updated_at: time::rfc3339(s.updated_at),
    }
}

pub open spec fn repository_problem_view(error: RepositoryError) -> problem::ProblemView {
    problem::distinct_problem(
        error,
        "resource conflict"@,
        "idempotency key reused with a different payload"@,
        "storage unavailable"@,
    )
}

pub fn repository_problem(error: RepositoryError) -> (p: ProblemDetails)
    ensures
        p@ == repository_problem_view(error),
{
    problem::repository_problem_distinct_idempotency(
        error,
        "session",
        "resource conflict",
        "idempotency key reused with a different payload",
        "storage unavailable",
    )
}

pub open spec fn title_value(title: Option<Seq<char>>) -> audit::ValueView {
    match title {
        Some(t) => audit::ValueView::Text(t),
        None => audit::ValueView::Null,
    }
}

/// The record of a new session.
pub open spec fn created_event(
    device_id: Seq<char>,
    session_id: Seq<char>,
    title: Option<Seq<char>>,
    at: Timestamp,
) -> audit::AuditView {
    audit::event_of(
        at,
        audit::device_actor(device_id),
        "session.created"@,
        "session:"@ + session_id,
        seq![("title"@, title_value(title))],
    )
}

/// A session under an identifier, and its record. Times are kept at the
/// precision of the store, so what is answered now and what is read later are
/// the same text.
pub fn create_as(id: String, title: Option<String>, device: &DeviceContext, now: Timestamp) -> (r: (
    Session,
    AuditEvent,
))
    ensures
        r.0.id == id,
        r.0.title == title,
        r.0.status == SessionStatus::Active,
        r.0.created_at == time::whole_micros(now),
        r.0.updated_at == time::whole_micros(now),
        r.1@ == created_event(
            device.device_id@,
            id@,
            text::opt_view(title),
            time::whole_micros(now),
        ),
{
    let at = time::truncate_to_micros(now);
    let value = match &title {
        Some(t) => AuditValue::Text(t.clone()),
        None => AuditValue::Null,
    };
    let event = AuditEvent {
        occurred_at: at,
        actor: audit::actor_of(device.device_id.as_str()),
        event_type: "session.created".to_owned(),
        target: text::concat2("session:", id.as_str()),
        correlation_id: None,
        payload: audit::with_field(audit::no_fields(), "title", value),
    };
    assert(event@ =~= created_event(device.device_id@, id@, text::opt_view(title), at));
    let session = Session {
        id,
        title,
        status: SessionStatus::Active,
        created_at: at,
        updated_at: at,
    };
    (session, event)
}

/// A session under a fresh identifier, and its record.
pub fn create(title: Option<String>, device: &DeviceContext, now: Timestamp) -> (r: (
    Session,
    AuditEvent,
))
    ensures
        ids::is_ulid(r.0.id@),
        r.0.title == title,
        r.0.status == SessionStatus::Active,
        r.0.created_at == time::whole_micros(now),
        r.0.updated_at == time::whole_micros(now),
        r.1@ == created_event(
            device.device_id@,
            r.0.id@,
            text::opt_view(title),
            time::whole_micros(now),
        ),
{
    create_as(ids::fresh_id(), title, device, now)
}

/// What the store made of a creation.
#[derive(Debug)]
pub enum CreateOutcome {
    Created(Session),
    /// The same key with the same payload: a safe replay of the first.
    AlreadyExists(Session),
}

/// What a creation is answered with: 201, or 200 for a replay.
pub fn created(outcome: Result<CreateOutcome, RepositoryError>) -> (r: Result<
    (u16, SessionDto),
    ProblemDetails,
>)
    ensures
        answers_creation(outcome, r),
        match outcome {
            Ok(CreateOutcome::Created(s)) => r matches Ok((status, dto)) && status == 201 && shows(
                dto,
                s,
            ),
            Ok(CreateOutcome::AlreadyExists(s)) => r matches Ok((status, dto)) && status == 200
                && shows(dto, s),
            Err(e) => r matches Err(p) && p@ == repository_problem_view(e),
        },
{
    match outcome {
        Ok(CreateOutcome::Created(s)) => Ok((201, to_dto(&s))),
        Ok(CreateOutcome::AlreadyExists(s)) => Ok((200, to_dto(&s))),
        Err(e) => Err(repository_problem(e)),
    }
}

pub open spec fn no_such_session_view() -> problem::ProblemView {
    problem::problem_of(404, ErrorCode::ResourceNotFound, "no such session"@, None)
}

/// A session, as it is shown.
pub fn get(id: &str, stored: Result<Option<Session>, RepositoryError>) -> (r: Result<
    SessionDto,
    ProblemDetails,
>)
    ensures
        answers_lookup(id@, stored, r),
        !ids::is_ulid(id@) ==> (r matches Err(p) && p@ == no_such_session_view()),
        ids::is_ulid(id@) ==> match stored {
            Ok(Some(s)) => r matches Ok(dto) && shows(dto, s),
            Ok(None) => r matches Err(p) && p@ == no_such_session_view(),
            Err(e) => r matches Err(p) && p@ == repository_problem_view(e),
        },
{
    if !ids::is_id(id) {
        return Err(problem::not_found("no such session"));
    }
    match stored {
        Ok(Some(s)) => Ok(to_dto(&s)),
        Ok(None) => Err(problem::not_found("no such session")),
        Err(e) => Err(repository_problem(e)),
    }
}

/// How many sessions a client asks for.
#[derive(Debug, Clone, Copy, PartialEq, Eq, Structural)]
pub struct ListParams {
    pub limit: Option<u32>,
}

impl ListParams {
    /// How many are listed: fifty where none is named, and from one to two
    /// hundred in any case.
    pub fn page_size(&self) -> (n: u32)
        ensures
            n == sessions_on_a_page(self.limit),
            n == (match self.limit {
                Some(l) => if l < 1 {
                    1
                } else if l > 200 {
                    200
                } else {
                    l
                },
                None => 50,
            }),
    {
        match self.limit {
            Some(l) => if l < 1 {
                1
            } else if l > 200 {
                200
            } else {
                l
            },
            None => 50,
        }
    }
}

/// The sessions, in the order of the store.
pub fn list(stored: Result<Vec<Session>, RepositoryError>) -> (r: Result<
    Vec<SessionDto>,
    ProblemDetails,
>)
    ensures
        lists_sessions(stored, r),
        match stored {
            Err(e) => r matches Err(p) && p@ == repository_problem_view(e),
            Ok(all) => r matches Ok(shown) && shown@.len() == all@.len() && forall|i: int|
                0 <= i < all@.len() ==> shows(#[trigger] shown@[i], all@[i]),
        },
{
    let all = match stored {
        Ok(v) => v,
        Err(e) => {
            return Err(repository_problem(e));
        },
    };
    let mut shown: Vec<SessionDto> = Vec::new();
    let mut i: usize = 0;
    while i < all.len()
        invariant
            i <= all@.len(),
            shown@.len() == i,
            forall|k: int| 0 <= k < i ==> shows(#[trigger] shown@[k], all@[k]),
        decreases all@.len() - i,
    {
        shown.push(to_dto(&all[i]));
        i = i + 1;
    }
    Ok(shown)
}

/// A shown session is the stored one: its id, its title, its status and its
/// dates, each in its place.
pub proof fn law_a_shown_session_is_the_stored_one(dto: SessionDto, a: Session, b: Session)
    requires
        shows(dto, a),
        shows(dto, b),
    ensures
        a.id@ == b.id@,
        text::opt_view(a.title) == text::opt_view(b.title),
        a.status == b.status,
        dto.created_at@ == time::rfc3339_of(a.created_at),
        dto.updated_at@ == time::rfc3339_of(a.updated_at),
{
}

/// The record of a new session says which device opened it, when, and under
/// what title, if it has one.
pub proof fn law_new_sessions_are_recorded(
    device_id: Seq<char>,
    session_id: Seq<char>,
    title: Option<Seq<char>>,
    at: Timestamp,
)
    ensures
        ({
            let r = created_event(device_id, session_id, title, at);
            &&& r.occurred_at == at
            &&& r.event_type == "session.created"@
            &&& text::stripped(r.actor, "device:"@) == Some(device_id)
            &&& text::stripped(r.target, "session:"@) == Some(session_id)
            &&& r.payload.len() == 1 && r.payload[0].0 == "title"@
            &&& title matches Some(t) ==> r.payload[0].1 == audit::ValueView::Text(t)
            &&& title is None ==> r.payload[0].1 is Null
        }),
{
    text::law_a_prefix_is_taken_off(seq![], "device:"@, device_id);
    text::law_a_prefix_is_taken_off(seq![], "session:"@, session_id);
}

/// A session that is not there is not found; a race is a conflict and a broken
/// store is not.
pub proof fn law_session_faults_are_told_apart(e: RepositoryError)
    ensures
        no_such_session_view().status == 404,
        repository_problem_view(e).status == (if e is Storage {
            503u16
        } else {
            409u16
        }),
        repository_problem_view(e).code is IdempotencyConflict <==> e is IdempotencyConflict,
{
}

/// How many sessions are listed.
pub open spec fn sessions_on_a_page(limit: Option<u32>) -> u32 {
    match limit {
        Some(l) => if l < 1 {
            1
        } else if l > 200 {
            200
        } else {
            l
        },
        None => 50,
    }
}

/// What the creation of a session is answered with.
pub open spec fn answers_creation(
    outcome: Result<CreateOutcome, RepositoryError>,
    r: Result<(u16, SessionDto), ProblemDetails>,
) -> bool {
    match outcome {
        Ok(CreateOutcome::Created(s)) => r matches Ok((status, dto)) && status == 201 && shows(dto, s),
        Ok(CreateOutcome::AlreadyExists(s)) => r matches Ok((status, dto)) && status == 200 && shows(
            dto,
            s,
        ),
        Err(e) => r matches Err(p) && p@ == repository_problem_view(e),
    }
}

/// What a look for a session is answered with.
pub open spec fn answers_lookup(
    id: Seq<char>,
    stored: Result<Option<Session>, RepositoryError>,
    r: Result<SessionDto, ProblemDetails>,
) -> bool {
    if !ids::is_ulid(id) {
        r matches Err(p) && p@ == no_such_session_view()
    } else {
        match stored {
            Ok(Some(s)) => r matches Ok(dto) && shows(dto, s),
            Ok(None) => r matches Err(p) && p@ == no_such_session_view(),
            Err(e) => r matches Err(p) && p@ == repository_problem_view(e),
        }
    }
}

/// As many sessions are listed as were asked for, but at least one and at most
/// two hundred, and fifty where nothing was said.
pub proof fn law_lists_of_sessions_are_bounded(limit: Option<u32>)
    ensures
        1 <= sessions_on_a_page(limit) <= 200,
        limit is None ==> sessions_on_a_page(limit) == 50,
        limit is Some && 1 <= limit->0 <= 200 ==> sessions_on_a_page(limit) == limit->0,
        limit is Some && limit->0 > 200 ==> sessions_on_a_page(limit) == 200,
{
}

/// A session that was made now is told from one that was there; both are shown
/// as they are stored. One that is looked for is shown exactly where it is there,
/// and an id that is none is not found, whatever the store says.
pub proof fn law_sessions_are_answered_as_stored(
    outcome: Result<CreateOutcome, RepositoryError>,
    made: Result<(u16, SessionDto), ProblemDetails>,
    id: Seq<char>,
    stored: Result<Option<Session>, RepositoryError>,
    found: Result<SessionDto, ProblemDetails>,
)
    requires
        answers_creation(outcome, made),
        answers_lookup(id, stored, found),
    ensures
        made is Ok <==> outcome is Ok,
        outcome matches Ok(CreateOutcome::Created(s)) ==> made->Ok_0.0 == 201 && made->Ok_0.1.id@
            == s.id@,
        outcome matches Ok(CreateOutcome::AlreadyExists(s)) ==> made->Ok_0.0 == 200
            && made->Ok_0.1.id@ == s.id@,
        found is Ok <==> ids::is_ulid(id) && stored is Ok && stored->Ok_0 is Some,
        found matches Ok(dto) ==> dto.id@ == stored->Ok_0->0.id@,
        found matches Err(p) ==> p.status == (if ids::is_ulid(id) && stored is Err {
            if stored->Err_0 is Storage {
                503u16
            } else {
                409u16
            }
        } else {
            404u16
        }),
{
}

/// The code that a client of the sessions branches on.
pub proof fn law_session_problems_have_their_codes()
    ensures
        no_such_session_view().status == 404 && no_such_session_view().code is ResourceNotFound,
{
}

/// What a request for the sessions is answered with.
pub open spec fn lists_sessions(
    stored: Result<Vec<Session>, RepositoryError>,
    r: Result<Vec<SessionDto>, ProblemDetails>,
) -> bool {
    match stored {
        Err(e) => r matches Err(p) && p@ == repository_problem_view(e),
        Ok(all) => r matches Ok(shown) && shown@.len() == all@.len() && forall|i: int|
            0 <= i < all@.len() ==> shows(#[trigger] shown@[i], all@[i]),
    }
}

/// Sessions are listed as they are stored, all of them and in their order.
pub proof fn law_sessions_are_listed_in_their_order(
    stored: Result<Vec<Session>, RepositoryError>,
    r: Result<Vec<SessionDto>, ProblemDetails>,
    i: int,
)
    requires
        lists_sessions(stored, r),
    ensures
        r is Ok <==> stored is Ok,
        r matches Ok(shown) ==> shown@.len() == stored->Ok_0@.len() && (0 <= i < shown@.len()
            ==> shown@[i].id@ == stored->Ok_0@[i].id@ && shown@[i].status
            == stored->Ok_0@[i].status),
{
    if r is Ok {
        let shown = r->Ok_0;
        if 0 <= i < shown@.len() {
            assert(shows(shown@[i], stored->Ok_0@[i]));
        }
    }
}

} // verus!
