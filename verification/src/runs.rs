//! Runs: starting and cancelling them, what a finished one leads to, and the
//! timeline they leave.
//!
//! Text never grants authority. A request starts or cancels a run and reads
//! what it left; there is no way from a request to a change of its state.

use vstd::prelude::*;

use crate::approvals;
use crate::canonical;
use crate::canonical::JsonValue;
use crate::ids;
use crate::problem;
use crate::problem::{ErrorCode, ProblemDetails, RepositoryError};
use crate::text;
use crate::text_map::TextMap;
use crate::time;
use crate::time::Timestamp;

verus! {

/// The page of a timeline that is read where a client names no size.
pub const TIMELINE_DEFAULT_LIMIT: u32 = 200;

pub const TIMELINE_MAX_LIMIT: u32 = 500;

/// How many runs may wait for a provider.
pub const QUEUE_CAPACITY: usize = 100;

/// What stands before the reason in the outcome of a run whose provider was
/// unavailable, its trailing space included.
pub const PROVIDER_UNAVAILABLE_PREFIX: &'static str = "provider unavailable: ";

/// The bare reason for which a provider was unavailable, where that is why a run
/// failed.
pub fn unavailable_reason(detail: &str) -> (r: Option<&str>)
    ensures
        match r {
            Some(reason) => text::stripped(detail@, PROVIDER_UNAVAILABLE_PREFIX@) == Some(reason@),
            None => text::stripped(detail@, PROVIDER_UNAVAILABLE_PREFIX@) is None,
        },
{
    text::strip_prefix(detail, PROVIDER_UNAVAILABLE_PREFIX)
}

// ---------------------------------------------------------------------------
// Runs
// ---------------------------------------------------------------------------

/// Where a run stands. A state between the first and the terminal ones keeps its
/// wire name.
#[derive(Debug)]
pub enum RunState {
    Received,
    InFlight(String),
    Completed,
    Failed,
    Cancelled,
}

#[derive(Debug, Clone, Copy, PartialEq, Eq, Structural)]
pub struct RunBudget {
    pub max_model_turns: u32,
    pub max_tool_calls: u32,
    pub max_duration_secs: u64,
    pub max_artifact_bytes: u64,
}

/// How a run ended.
#[derive(Debug)]
pub struct RunOutcome {
    pub kind: String,
    pub detail: Option<String>,
}

#[derive(Debug)]
pub struct Run {
    pub id: String,
    pub session_id: String,
    pub state: RunState,
    pub budget: RunBudget,
    pub outcome: Option<RunOutcome>,
}

impl Run {
    /// A run that has not begun.
    pub fn new(id: String, session_id: String, budget: RunBudget) -> (r: Run)
        ensures
            r.id == id,
            r.session_id == session_id,
            r.budget == budget,
            r.state is Received,
            r.outcome is None,
    {
        Run { id, session_id, state: RunState::Received, budget, outcome: None }
    }
}

/// What a run is asked.
#[derive(Debug)]
pub struct RunInput {
    pub text: String,
}

/// What the end of a run leads to.
#[derive(Debug)]
pub enum AfterDrive {
    /// The provider was unavailable: note the reason and park a fresh run. No
    /// message is committed.
    Park { reason: String, retry: Run, input: RunInput },
    /// Commit the assistant's message.
    Commit { text: String },
    Nothing,
}

/// The reason for which a run is parked, where it is one that can be retried.
pub open spec fn parks_for(run: Run) -> Option<Seq<char>> {
    match (run.state, run.outcome) {
        (RunState::Failed, Some(outcome)) => match outcome.detail {
            Some(detail) => text::stripped(detail@, PROVIDER_UNAVAILABLE_PREFIX@),
            None => None,
        },
        _ => None,
    }
}

fn parking_reason(run: &Run) -> (r: Option<String>)
    ensures
        text::opt_view(r) == parks_for(*run),
{
    match (&run.state, &run.outcome) {
        (RunState::Failed, Some(outcome)) => match &outcome.detail {
            Some(detail) => match unavailable_reason(detail.as_str()) {
                Some(reason) => Some(reason.to_owned()),
                None => None,
            },
            None => None,
        },
        _ => None,
    }
}

/// What follows a run that was driven to its end: a provider's absence parks a
/// new run with the same identity, a completed run has its text committed, and
/// any other end leads to nothing.
pub open spec fn follows(terminal: Run, input: RunInput, recorded: String, next: AfterDrive) -> bool {
    match parks_for(terminal) {
        Some(why) => next matches AfterDrive::Park { reason, retry, input: again } && reason@ == why
            && again == input && retry.id == terminal.id && retry.session_id == terminal.session_id
            && retry.budget == terminal.budget && retry.state is Received && retry.outcome is None,
        None => if terminal.state is Completed {
            next matches AfterDrive::Commit { text } && text == recorded
        } else {
            next is Nothing
        },
    }
}

/// Decide what follows a run that was driven to its end. What is parked is a new
/// run in its first state: a terminal one would never be driven again.
pub fn after_drive(terminal: Run, input: RunInput, recorded: String) -> (next: AfterDrive)
    ensures
        follows(terminal, input, recorded, next),
{
    if let Some(reason) = parking_reason(&terminal) {
        let retry = Run::new(terminal.id, terminal.session_id, terminal.budget);
        return AfterDrive::Park { reason, retry, input };
    }
    match terminal.state {
        RunState::Completed => AfterDrive::Commit { text: recorded },
        _ => AfterDrive::Nothing,
    }
}

/// A run that failed for want of a provider commits nothing, and what is driven
/// again in its place has not begun: it has its first state and no outcome, so
/// it would not be parked as it stands.
pub proof fn law_parked_runs_can_recover(
    terminal: Run,
    input: RunInput,
    recorded: String,
    next: AfterDrive,
)
    requires
        follows(terminal, input, recorded, next),
    ensures
        next is Commit ==> terminal.state is Completed && parks_for(terminal) is None,
        next matches AfterDrive::Park { reason, retry, input: again } ==> terminal.state is Failed
            && retry.state is Received && retry.outcome is None && parks_for(retry) is None,
{
}

/// The runs that wait for a provider, the longest waiting first.
pub struct ParkedRuns {
    runs: Vec<(Run, RunInput)>,
}

impl View for ParkedRuns {
    type V = Seq<(Run, RunInput)>;

    closed spec fn view(&self) -> Seq<(Run, RunInput)> {
        self.runs@
    }
}

impl ParkedRuns {
    pub fn new() -> (s: Self)
        ensures
            s@ == Seq::<(Run, RunInput)>::empty(),
    {
        ParkedRuns { runs: Vec::new() }
    }

    /// Park a run behind those that wait. One for which there is no room comes
    /// back.
    pub fn park(&mut self, run: Run, input: RunInput) -> (r: Result<(), (Run, RunInput)>)
        ensures
            parked_as(old(self)@, final(self)@, (run, input), r is Ok),
            match r {
                Ok(()) => old(self)@.len() < QUEUE_CAPACITY && final(self)@ == old(self)@.push(
                    (run, input),
                ),
                Err(back) => old(self)@.len() >= QUEUE_CAPACITY && final(self)@ == old(self)@
                    && back == (run, input),
            },
    {
        if self.runs.len() < QUEUE_CAPACITY {
            self.runs.push((run, input));
            Ok(())
        } else {
            Err((run, input))
        }
    }

    /// How many runs wait.
    pub fn queued_len(&self) -> (n: usize)
        ensures
            n == self@.len(),
    {
        self.runs.len()
    }

    /// The run that has waited longest, which then waits no more.
    pub fn try_dequeue(&mut self) -> (r: Option<(Run, RunInput)>)
        ensures
            dequeued_as(old(self)@, final(self)@, r),
            match r {
                Some(first) => old(self)@.len() > 0 && first == old(self)@.first() && final(self)@
                    == old(self)@.skip(1),
                None => old(self)@.len() == 0 && final(self)@ == old(self)@,
            },
    {
        if self.runs.len() == 0 {
            return None;
        }
        let first = self.runs.remove(0);
        assert(self@ =~= old(self)@.skip(1));
        Some(first)
    }
}

/// The reason that was put into an outcome is the reason that is read out of it,
/// without a leading space.
pub proof fn law_the_reason_is_recovered(reason: Seq<char>)
    ensures
        text::stripped(PROVIDER_UNAVAILABLE_PREFIX@ + reason, PROVIDER_UNAVAILABLE_PREFIX@) == Some(
            reason,
        ),
{
    let p = PROVIDER_UNAVAILABLE_PREFIX@;
    assert((p + reason).take(p.len() as int) =~= p);
    assert((p + reason).skip(p.len() as int) =~= reason);
}

// ---------------------------------------------------------------------------
// What a run streams
// ---------------------------------------------------------------------------

/// What a run reports while it is driven.
#[derive(Debug)]
pub enum RunUpdate {
    TextDelta { text: String },
    Other,
}

/// The text that a run has streamed. Deltas are never stored, so this is what
/// becomes the assistant's message.
pub struct RecordedText {
    text: String,
}

impl View for RecordedText {
    type V = Seq<char>;

    closed spec fn view(&self) -> Seq<char> {
        self.text@
    }
}

impl RecordedText {
    pub fn new() -> (s: Self)
        ensures
            s@ == Seq::<char>::empty(),
    {
        RecordedText { text: String::new() }
    }

    pub fn emit(&mut self, update: &RunUpdate)
        ensures
            final(self)@ == heard(old(self)@, *update),
            final(self)@ == (match update {
                RunUpdate::TextDelta { text } => old(self)@ + text@,
                RunUpdate::Other => old(self)@,
            }),
    {
        if let RunUpdate::TextDelta { text } = update {
            self.text = text::concat2(self.text.as_str(), text.as_str());
        }
    }

    /// The text so far; none is left.
    pub fn take_text(&mut self) -> (t: String)
        ensures
            t@ == old(self)@,
            final(self)@ == Seq::<char>::empty(),
    {
        let mut taken = String::new();
        std::mem::swap(&mut taken, &mut self.text);
        taken
    }
}

// ---------------------------------------------------------------------------
// Active runs
// ---------------------------------------------------------------------------

/// The runs that are driven now.
pub struct ActiveRuns {
    runs: TextMap<()>,
}

impl View for ActiveRuns {
    type V = Set<Seq<char>>;

    closed spec fn view(&self) -> Set<Seq<char>> {
        self.runs@.dom()
    }
}

impl ActiveRuns {
    pub fn new() -> (s: Self)
        ensures
            s@ == Set::<Seq<char>>::empty(),
    {
        let s = ActiveRuns { runs: TextMap::new() };
        assert(s@ =~= Set::<Seq<char>>::empty());
        s
    }

    pub fn register(&mut self, run_id: &str)
        ensures
            final(self)@ == old(self)@.insert(run_id@),
    {
        self.runs.insert(run_id.to_owned(), ());
        assert(self@ =~= old(self)@.insert(run_id@));
    }

    pub fn deregister(&mut self, run_id: &str)
        ensures
            final(self)@ == old(self)@.remove(run_id@),
    {
        let _was = self.runs.remove(run_id);
        assert(self@ =~= old(self)@.remove(run_id@));
    }

    pub fn is_active(&self, run_id: &str) -> (b: bool)
        ensures
            b == self@.contains(run_id@),
    {
        self.runs.contains(run_id)
    }
}

// ---------------------------------------------------------------------------
// Requests
// ---------------------------------------------------------------------------

pub fn repository_problem(error: RepositoryError) -> (p: ProblemDetails)
    ensures
        p@ == repository_problem_view(error),
{
    problem::repository_problem_distinct_idempotency(
        error,
        "run",
        "resource conflict",
        "idempotency key reused with a different payload",
        "storage unavailable",
    )
}

pub open spec fn repository_problem_view(error: RepositoryError) -> problem::ProblemView {
    problem::distinct_problem(
        error,
        "resource conflict"@,
        "idempotency key reused with a different payload"@,
        "storage unavailable"@,
    )
}

pub open spec fn not_found_view(title: Seq<char>) -> problem::ProblemView {
    problem::problem_of(404, ErrorCode::ResourceNotFound, title, None)
}

/// A block of a message.
#[derive(Debug)]
pub enum ContentBlock {
    Text { text: String },
    /// A block of a later vocabulary; it contributes nothing.
    Unknown,
}

/// The text of every text block, one after the other.
pub open spec fn text_of(blocks: Seq<ContentBlock>) -> Seq<char>
    decreases blocks.len(),
{
    if blocks.len() == 0 {
        seq![]
    } else {
        let before = text_of(blocks.drop_last());
        match blocks.last() {
            ContentBlock::Text { text } => before + text@,
            ContentBlock::Unknown => before,
        }
    }
}

pub fn first_text(blocks: &Vec<ContentBlock>) -> (s: String)
    ensures
        s@ == text_of(blocks@),
{
    let mut s = String::new();
    let mut i: usize = 0;
    assert(blocks@.take(0) =~= seq![]);
    while i < blocks.len()
        invariant
            i <= blocks@.len(),
            s@ == text_of(blocks@.take(i as int)),
        decreases blocks@.len() - i,
    {
        assert(blocks@.take(i + 1).drop_last() =~= blocks@.take(i as int));
        if let ContentBlock::Text { text } = &blocks[i] {
            s = text::concat2(s.as_str(), text.as_str());
        }
        i = i + 1;
    }
    assert(blocks@.take(blocks@.len() as int) =~= blocks@);
    s
}

#[derive(Debug, Clone, Copy, PartialEq, Eq, Structural)]
pub enum MessageRole {
    User,
    Assistant,
}

#[derive(Debug)]
pub struct Message {
    pub id: String,
    pub session_id: String,
    pub role: MessageRole,
    pub text: String,
    pub created_at: Timestamp,
}

/// A message and the run that it starts. The run is stored before it is driven,
/// so it can be recovered from the first moment on.
#[derive(Debug)]
pub struct Submission {
    pub message: Message,
    pub run: Run,
    pub input: RunInput,
}

/// Why a message starts no run. `known` is what the register said of its session.
pub open spec fn submit_refusal(
    session_id: Seq<char>,
    known: Result<bool, RepositoryError>,
    blocks: Seq<ContentBlock>,
) -> Option<problem::ProblemView> {
    if !ids::is_ulid(session_id) {
        Some(not_found_view("no such session"@))
    } else {
        match known {
            Err(e) => Some(repository_problem_view(e)),
            Ok(false) => Some(not_found_view("no such session"@)),
            Ok(true) => if text::is_blank(text_of(blocks)) {
                Some(
                    problem::problem_of(
                        400,
                        ErrorCode::ValidationFailed,
                        "content must include a non-empty text block"@,
                        None,
                    ),
                )
            } else {
                None
            },
        }
    }
}

/// Whether a submission is what a message asks for.
pub open spec fn submits(s: Submission, session_id: Seq<char>, said: Seq<char>, budget: RunBudget, now: Timestamp) -> bool {
    &&& s.message.session_id@ == session_id
    &&& s.message.role == MessageRole::User
    &&& s.message.text@ == said
    &&& s.message.created_at == time::whole_micros(now)
    &&& s.run.session_id@ == session_id
    &&& s.run.state is Received
    &&& s.run.outcome is None
    &&& s.run.budget == budget
    &&& s.input.text@ == said
}

/// Decide a message under given identifiers.
pub fn submit_message_as(
    message_id: String,
    run_id: String,
    session_id: &str,
    known: Result<bool, RepositoryError>,
    blocks: &Vec<ContentBlock>,
    budget: RunBudget,
    now: Timestamp,
) -> (r: Result<Submission, ProblemDetails>)
    ensures
        match submit_refusal(session_id@, known, blocks@) {
            Some(p) => r matches Err(e) && e@ == p,
            None => r matches Ok(s) && s.message.id == message_id && s.run.id == run_id && submits(
                s,
                session_id@,
                text_of(blocks@),
                budget,
                now,
            ),
        },
{
    if !ids::is_id(session_id) {
        return Err(problem::not_found("no such session"));
    }
    match known {
        Err(e) => {
            return Err(repository_problem(e));
        },
        Ok(false) => {
            return Err(problem::not_found("no such session"));
        },
        Ok(true) => {},
    }
    let said = first_text(blocks);
    if text::blank(said.as_str()) {
        return Err(problem::bad_request("content must include a non-empty text block"));
    }
    let message = Message {
        id: message_id,
        session_id: session_id.to_owned(),
        role: MessageRole::User,
        text: said.clone(),
        created_at: time::truncate_to_micros(now),
    };
    let run = Run::new(run_id, session_id.to_owned(), budget);
    Ok(Submission { message, run, input: RunInput { text: said } })
}

/// Decide a message under fresh identifiers.
pub fn submit_message(
    session_id: &str,
    known: Result<bool, RepositoryError>,
    blocks: &Vec<ContentBlock>,
    budget: RunBudget,
    now: Timestamp,
) -> (r: Result<Submission, ProblemDetails>)
    ensures
        match submit_refusal(session_id@, known, blocks@) {
            Some(p) => r matches Err(e) && e@ == p,
            None => r matches Ok(s) && ids::is_ulid(s.message.id@) && ids::is_ulid(s.run.id@)
                && submits(s, session_id@, text_of(blocks@), budget, now),
        },
{
    submit_message_as(ids::fresh_id(), ids::fresh_id(), session_id, known, blocks, budget, now)
}

/// The assistant's message of a completed run.
pub fn assistant_message(session_id: &str, said: String, now: Timestamp) -> (m: Message)
    ensures
        ids::is_ulid(m.id@),
        m.session_id@ == session_id@,
        m.role == MessageRole::Assistant,
        m.text == said,
        m.created_at == time::whole_micros(now),
{
    Message {
        id: ids::fresh_id(),
        session_id: session_id.to_owned(),
        role: MessageRole::Assistant,
        text: said,
        created_at: time::truncate_to_micros(now),
    }
}

/// A stored run with its times.
#[derive(Debug)]
pub struct RunView {
    pub run: Run,
    pub created_at: Timestamp,
    pub updated_at: Timestamp,
}

#[derive(Debug)]
pub struct RunDto {
    pub id: String,
    pub session_id: String,
    pub state: RunState,
    pub budget: RunBudget,
    pub outcome: Option<RunOutcome>,
    pub created_at: String,
    pub updated_at: String,
}

/// A stored run, as it is shown.
pub fn get_run(id: &str, stored: Result<Option<RunView>, RepositoryError>) -> (r: Result<
    RunDto,
    ProblemDetails,
>)
    ensures
        answers_run(id@, stored, r),
        !ids::is_ulid(id@) ==> (r matches Err(p) && p@ == not_found_view("no such run"@)),
        ids::is_ulid(id@) ==> match stored {
            Err(e) => r matches Err(p) && p@ == repository_problem_view(e),
            Ok(None) => r matches Err(p) && p@ == not_found_view("no such run"@),
            Ok(Some(v)) => r matches Ok(dto) && dto.id@ == id@ && dto.session_id
                == v.run.session_id && dto.state == v.run.state && dto.budget == v.run.budget
                && dto.outcome == v.run.outcome && dto.created_at@ == time::rfc3339_of(v.created_at)
                && dto.updated_at@ == time::rfc3339_of(v.updated_at),
        },
{
    if !ids::is_id(id) {
        return Err(problem::not_found("no such run"));
    }
    match stored {
        Err(e) => Err(repository_problem(e)),
        Ok(None) => Err(problem::not_found("no such run")),
        Ok(Some(v)) => Ok(
            RunDto {
                id: id.to_owned(),
                session_id: v.run.session_id,
                state: v.run.state,
                budget: v.run.budget,
                outcome: v.run.outcome,
                created_at: time::rfc3339(v.created_at),
                updated_at: time::rfc3339(v.updated_at),
            },
        ),
    }
}

/// What a request to cancel comes to.
pub enum CancelStep {
    /// Flip the run's token; the answer is 202.
    Cancel,
    /// Ask the store whether the run exists.
    LookUp,
    Refused(ProblemDetails),
}

/// Begin a cancellation.
pub fn cancel_run(id: &str, active: &ActiveRuns) -> (step: CancelStep)
    ensures
        cancels(id@, active@, step),
        !ids::is_ulid(id@) ==> (step matches CancelStep::Refused(p) && p@ == not_found_view(
            "no such run"@,
        )),
        ids::is_ulid(id@) ==> (if active@.contains(id@) {
            step is Cancel
        } else {
            step is LookUp
        }),
{
    if !ids::is_id(id) {
        return CancelStep::Refused(problem::not_found("no such run"));
    }
    if active.is_active(id) {
        CancelStep::Cancel
    } else {
        CancelStep::LookUp
    }
}

/// Why a run that is not driven cannot be cancelled: there is none, or it is not
/// running.
pub fn not_cancellable(stored: Result<bool, RepositoryError>) -> (p: ProblemDetails)
    ensures
        p@ == refused_cancel(stored),
        p@ == (match stored {
            Err(e) => repository_problem_view(e),
            Ok(false) => not_found_view("no such run"@),
            Ok(true) => problem::problem_of(
                409,
                ErrorCode::RunNotCancellable,
                "run is not currently running"@,
                None,
            ),
        }),
{
    match stored {
        Err(e) => repository_problem(e),
        Ok(false) => problem::not_found("no such run"),
        Ok(true) => problem::problem(
            409,
            ErrorCode::RunNotCancellable,
            "run is not currently running",
            None,
        ),
    }
}

// ---------------------------------------------------------------------------
// The timeline
// ---------------------------------------------------------------------------

/// Where a page starts and how long it may be, as a client asks.
#[derive(Debug, Clone, Copy, PartialEq, Eq, Structural)]
pub struct TimelineParams {
    pub since: Option<i64>,
    pub limit: Option<u32>,
}

impl TimelineParams {
    /// After which row the page starts.
    pub open spec fn from_row(self) -> i64 {
        match self.since {
            Some(n) => if n < 0 {
                0
            } else {
                n
            },
            None => 0,
        }
    }

    /// How many rows it may have.
    pub open spec fn page_size(self) -> u32 {
        match self.limit {
            Some(n) => if n < 1 {
                1
            } else if n > TIMELINE_MAX_LIMIT {
                TIMELINE_MAX_LIMIT
            } else {
                n
            },
            None => TIMELINE_DEFAULT_LIMIT,
        }
    }

    pub fn page(&self) -> (r: (i64, u32))
        ensures
            r.0 == self.from_row(),
            r.1 == self.page_size(),
            r.0 >= 0,
            1 <= r.1 <= TIMELINE_MAX_LIMIT,
    {
        let since: i64 = match self.since {
            Some(n) => if n < 0 {
                0
            } else {
                n
            },
            None => 0,
        };
        let limit: u32 = match self.limit {
            Some(n) => if n < 1 {
                1
            } else if n > TIMELINE_MAX_LIMIT {
                TIMELINE_MAX_LIMIT
            } else {
                n
            },
            None => TIMELINE_DEFAULT_LIMIT,
        };
        (since, limit)
    }
}

/// A stored event.
#[derive(Debug)]
pub struct OutboxRecord {
    pub id: i64,
    pub event_type: String,
    pub payload: JsonValue,
}

/// What a stored event is on the timeline, before its document is decoded: the
/// document of a message, or an event with its type folded back in.
#[derive(Debug)]
pub enum TimelineDocument {
    Message(JsonValue),
    RunEvent(JsonValue),
}

/// The members of an event: those of its payload, and its type.
pub open spec fn folded(payload: Map<Seq<char>, canonical::Meaning>, event_type: Seq<char>) -> Map<
    Seq<char>,
    canonical::Meaning,
> {
    payload.insert("type"@, canonical::Meaning::Str(event_type))
}

/// Whether a document is the one that a row stands for; none where the row maps
/// to nothing.
pub open spec fn stands_for(document: Option<TimelineDocument>, row: OutboxRecord) -> bool {
    if row.event_type@ == "message.created"@ {
        if row.payload is Object && canonical::members_of(row.payload).dom().contains("message"@) {
            document matches Some(TimelineDocument::Message(m)) && canonical::json_meaning(m)
                == canonical::members_of(row.payload)["message"@]
        } else {
            document is None
        }
    } else if row.payload is Object {
        document matches Some(TimelineDocument::RunEvent(e)) && e is Object
            && canonical::members_of(e) == folded(
            canonical::members_of(row.payload),
            row.event_type@,
        )
    } else {
        document is None
    }
}

/// Map a stored event to its place on the timeline.
pub fn timeline_item(row: OutboxRecord) -> (r: Option<TimelineDocument>)
    ensures
        stands_for(r, row),
{
    if text::same(row.event_type.as_str(), "message.created") {
        return match canonical::take_member(row.payload, "message") {
            Some(m) => Some(TimelineDocument::Message(m)),
            None => None,
        };
    }
    match domain_event(row) {
        Some(e) => Some(TimelineDocument::RunEvent(e)),
        None => None,
    }
}

/// An event with its type folded back in. A payload that is no object is no
/// event.
pub fn domain_event(row: OutboxRecord) -> (r: Option<JsonValue>)
    ensures
        match r {
            Some(e) => row.payload is Object && e is Object && canonical::members_of(e)
                == folded(canonical::members_of(row.payload), row.event_type@),
            None => !(row.payload is Object),
        },
{
    let is_object = match &row.payload {
        JsonValue::Object(_) => true,
        _ => false,
    };
    if !is_object {
        return None;
    }
    Some(canonical::with_member(row.payload, "type", JsonValue::Str(row.event_type)))
}

/// Whether a type is one that this daemon writes. One that fails to decode is
/// worth a warning; an unknown one is skipped in silence.
pub fn is_known_event(event_type: &str) -> (b: bool)
    ensures
        b == known_events().contains(event_type@),
        b == (event_type@ == "run.started"@ || event_type@ == "run.state_changed"@ || event_type@
            == "run.queued"@ || event_type@ == "run.completed"@ || event_type@
            == "message.created"@ || event_type@ == "provider.health_changed"@ || event_type@
            == "run.checkpoint_saved"@),
{
    text::same(event_type, "run.started") || text::same(event_type, "run.state_changed")
        || text::same(event_type, "run.queued") || text::same(event_type, "run.completed")
        || text::same(event_type, "message.created") || text::same(
        event_type,
        "provider.health_changed",
    ) || text::same(event_type, "run.checkpoint_saved")
}

/// A page of the timeline.
#[derive(Debug)]
pub struct TimelineResponse<T> {
    pub items: Vec<T>,
    pub next_since: Option<u64>,
}

/// The items of the rows that mapped to one, in order.
pub open spec fn mapped<T>(rows: Seq<(i64, Option<T>)>) -> Seq<T>
    decreases rows.len(),
{
    if rows.len() == 0 {
        seq![]
    } else {
        let before = mapped(rows.drop_last());
        match rows.last().1 {
            Some(item) => before.push(item),
            None => before,
        }
    }
}

/// The furthest row of a page that starts after `since`.
pub open spec fn furthest<T>(since: i64, rows: Seq<(i64, Option<T>)>) -> i64
    decreases rows.len(),
{
    if rows.len() == 0 {
        since
    } else {
        let before = furthest(since, rows.drop_last());
        if rows.last().0 > before {
            rows.last().0
        } else {
            before
        }
    }
}

/// Assemble a page from its rows, each with the item that it mapped to. A cursor
/// is given only where the page was full: otherwise it has reached the head. Rows
/// that mapped to nothing are passed over and still move the cursor.
pub fn get_timeline<T>(params: &TimelineParams, rows: Vec<(i64, Option<T>)>) -> (r: TimelineResponse<
    T,
>)
    ensures
        r.next_since == read_on_from(*params, rows@),
        r.items@ == mapped(rows@),
        r.next_since == (if rows@.len() == params.page_size() {
            Some(furthest(params.from_row(), rows@) as u64)
        } else {
            None
        }),
{
    let (since, limit) = params.page();
    let full_page = rows.len() == limit as usize;
    let ghost all = rows@;
    let mut rows = rows;
    let mut items: Vec<T> = Vec::new();
    let mut max_id: i64 = since;
    let ghost mut done: int = 0;
    assert(all.skip(0) =~= all);
    assert(all.take(0) =~= seq![]);
    while rows.len() > 0
        invariant
            0 <= done <= all.len(),
            rows@ == all.skip(done),
            items@ == mapped(all.take(done)),
            max_id == furthest(since, all.take(done)),
            max_id >= 0,
        decreases rows@.len(),
    {
        let (id, item) = rows.remove(0);
        proof {
            assert((id, item) == all[done]);
            assert(all.take(done + 1).drop_last() =~= all.take(done));
            assert(rows@ =~= all.skip(done + 1));
        }
        if id > max_id {
            max_id = id;
        }
        if let Some(i) = item {
            items.push(i);
        }
        proof {
            done = done + 1;
        }
    }
    assert(all.take(all.len() as int) =~= all);
    let next_since: Option<u64> = if full_page {
        Some(max_id as u64)
    } else {
        None
    };
    TimelineResponse { items, next_since }
}

/// The cursor of a page is no earlier than where the page began and no earlier
/// than any of its rows, so following it never reads a row twice.
pub proof fn law_the_cursor_moves_on<T>(since: i64, rows: Seq<(i64, Option<T>)>)
    ensures
        furthest(since, rows) >= since,
        forall|i: int| 0 <= i < rows.len() ==> (#[trigger] rows[i]).0 <= furthest(since, rows),
    decreases rows.len(),
{
    if rows.len() > 0 {
        law_the_cursor_moves_on(since, rows.drop_last());
        assert forall|i: int| 0 <= i < rows.len() implies (#[trigger] rows[i]).0 <= furthest(
            since,
            rows,
        ) by {
            if i < rows.len() - 1 {
                assert(rows.drop_last()[i] == rows[i]);
            }
        }
    }
}

/// The cursor of a page is where the page began or the number of one of its rows,
/// so following it passes nothing over.
pub proof fn law_the_cursor_is_a_row<T>(since: i64, rows: Seq<(i64, Option<T>)>)
    ensures
        furthest(since, rows) == since || exists|i: int|
            0 <= i < rows.len() && (#[trigger] rows[i]).0 == furthest(since, rows),
    decreases rows.len(),
{
    if rows.len() > 0 {
        law_the_cursor_is_a_row(since, rows.drop_last());
        if furthest(since, rows) == rows.last().0 {
            assert(rows[rows.len() - 1].0 == furthest(since, rows));
        } else if furthest(since, rows.drop_last()) != since {
            let i = choose|i: int|
                0 <= i < rows.drop_last().len() && (#[trigger] rows.drop_last()[i]).0 == furthest(
                    since,
                    rows.drop_last(),
                );
            assert(rows[i].0 == furthest(since, rows));
        }
    }
}

/// Whether the items of a page come from the rows at the given places: those places
/// rise, each has the item that stands for it, and no row with an item is left out.
pub open spec fn come_from<T>(items: Seq<T>, rows: Seq<(i64, Option<T>)>, places: Seq<int>) -> bool {
    &&& places.len() == items.len()
    &&& forall|k: int|
        0 <= k < places.len() ==> 0 <= #[trigger] places[k] < rows.len() && rows[places[k]].1
            == Some(items[k])
    &&& forall|j: int, k: int|
        0 <= j < k < places.len() ==> #[trigger] places[j] < #[trigger] places[k]
    &&& forall|i: int|
        0 <= i < rows.len() && (#[trigger] rows[i]).1 is Some ==> places.contains(i)
}

/// The items of a page stand in the order of their rows, none is missing and none
/// is made up; where every row has an item, the items are theirs one by one.
pub proof fn law_a_page_keeps_the_order_of_its_rows<T>(rows: Seq<(i64, Option<T>)>)
    ensures
        exists|places: Seq<int>| #[trigger] come_from(mapped(rows), rows, places),
        (forall|i: int| 0 <= i < rows.len() ==> (#[trigger] rows[i]).1 is Some) ==> mapped(rows).len()
            == rows.len() && (forall|i: int|
            0 <= i < rows.len() ==> Some(#[trigger] mapped(rows)[i]) == rows[i].1),
    decreases rows.len(),
{
    if rows.len() == 0 {
        assert(come_from(mapped(rows), rows, seq![]));
    } else {
        let before = rows.drop_last();
        law_a_page_keeps_the_order_of_its_rows(before);
        let places = choose|places: Seq<int>| #[trigger] come_from(mapped(before), before, places);
        let n = rows.len() - 1;
        let grown = if rows.last().1 is Some {
            places.push(n)
        } else {
            places
        };
        let items = mapped(rows);
        assert forall|k: int| 0 <= k < grown.len() implies 0 <= #[trigger] grown[k] < rows.len()
            && rows[grown[k]].1 == Some(items[k]) by {
            if k < places.len() {
                assert(0 <= places[k] < before.len());
                assert(before[places[k]] == rows[places[k]]);
            }
        }
        assert forall|j: int, k: int| 0 <= j < k < grown.len() implies #[trigger] grown[j]
            < #[trigger] grown[k] by {
            assert(0 <= places[j] < before.len());
            if k < places.len() {
                assert(places[j] < places[k]);
            }
        }
        assert forall|i: int| 0 <= i < rows.len() && (#[trigger] rows[i]).1 is Some implies grown.contains(
            i,
        ) by {
            if i < n {
                assert(before[i] == rows[i]);
                let k = choose|k: int| 0 <= k < places.len() && places[k] == i;
                assert(grown[k] == i);
            } else {
                assert(grown[grown.len() - 1] == i);
            }
        }
        assert(come_from(items, rows, grown));
        if forall|i: int| 0 <= i < rows.len() ==> (#[trigger] rows[i]).1 is Some {
            assert forall|i: int| 0 <= i < before.len() implies (#[trigger] before[i]).1 is Some by {
                assert(before[i] == rows[i]);
            }
            assert(rows[n].1 is Some);
            assert forall|i: int| 0 <= i < rows.len() implies Some(#[trigger] items[i])
                == rows[i].1 by {
                if i < n {
                    assert(Some(mapped(before)[i]) == before[i].1);
                }
            }
        }
    }
}

/// What is written to the outbox is read back as the event it was: folding a type
/// in and taking it out undo one another.
pub proof fn law_event_types_fold_and_unfold(
    payload: Map<Seq<char>, canonical::Meaning>,
    event: Map<Seq<char>, canonical::Meaning>,
    event_type: Seq<char>,
)
    ensures
        !payload.dom().contains("type"@) ==> approvals::outboxed(folded(payload, event_type))
            == payload,
        event.dom().contains("type"@) && event["type"@] == canonical::Meaning::Str(event_type)
            ==> folded(approvals::outboxed(event), event_type) == event,
{
    if !payload.dom().contains("type"@) {
        assert(approvals::outboxed(folded(payload, event_type)) =~= payload);
    }
    if event.dom().contains("type"@) && event["type"@] == canonical::Meaning::Str(event_type) {
        assert(folded(approvals::outboxed(event), event_type) =~= event);
    }
}

// ---------------------------------------------------------------------------
// Providers
// ---------------------------------------------------------------------------

#[derive(Debug, Clone, Copy, PartialEq, Eq, Structural)]
pub enum HealthState {
    Healthy,
    Degraded,
    Unavailable,
}

#[derive(Debug)]
pub struct ProviderDto {
    pub id: String,
    pub state: HealthState,
    pub reason: Option<String>,
}

/// The health of a provider, as it is shown. A reason that says nothing is not
/// given.
pub fn get_providers(id: &str, state: HealthState, reason: String) -> (p: ProviderDto)
    ensures
        p.id@ == id@,
        p.state == state,
        p.reason == (if reason@.len() == 0 {
            None
        } else {
            Some(reason)
        }),
{
    let given = if reason.as_str().is_empty() {
        None
    } else {
        Some(reason)
    };
    ProviderDto { id: id.to_owned(), state, reason: given }
}

/// A run waits for its provider exactly where it failed and its outcome says
/// that the provider was unavailable; what it waits for is what the outcome says
/// behind that.
pub proof fn law_only_a_provider_parks_a_run(run: Run, why: Seq<char>)
    ensures
        parks_for(run) == Some(why) <==> {
            &&& run.state is Failed
            &&& run.outcome is Some
            &&& run.outcome->0.detail is Some
            &&& run.outcome->0.detail->0@ == "provider unavailable: "@ + why
        },
        run.state !is Failed ==> parks_for(run) is None,
{
    text::law_a_prefix_is_taken_off(seq![], "provider unavailable: "@, why);
    if let Some(outcome) = run.outcome {
        if let Some(detail) = outcome.detail {
            text::law_a_prefix_is_taken_off(detail@, "provider unavailable: "@, why);
        }
    }
}

/// What follows a run: a completed one commits what it recorded, one that waits
/// for its provider is parked as it was received, with its own id, session,
/// budget and input, and nothing follows any other.
pub proof fn law_what_follows_a_run(
    terminal: Run,
    input: RunInput,
    recorded: String,
    next: AfterDrive,
)
    requires
        follows(terminal, input, recorded, next),
    ensures
        next is Park <==> parks_for(terminal) is Some,
        next is Commit <==> terminal.state is Completed,
        next matches AfterDrive::Commit { text } ==> text == recorded,
        next matches AfterDrive::Park { reason, retry, input: again } ==> {
            &&& parks_for(terminal) == Some(reason@)
            &&& again == input
            &&& retry.id == terminal.id
            &&& retry.session_id == terminal.session_id
            &&& retry.budget == terminal.budget
            &&& retry.state is Received
            &&& retry.outcome is None
        },
{
}

/// What was said in blocks is their texts one after the other; a block of
/// another kind says nothing.
pub proof fn law_blocks_are_read_in_their_order(
    a: Seq<ContentBlock>,
    b: Seq<ContentBlock>,
    said: String,
)
    ensures
        text_of(a + b) == text_of(a) + text_of(b),
        text_of(seq![ContentBlock::Text { text: said }]) == said@,
        text_of(seq![ContentBlock::Unknown]).len() == 0,
    decreases b.len(),
{
    assert(seq![ContentBlock::Unknown].drop_last() =~= Seq::<ContentBlock>::empty());
    assert(seq![ContentBlock::Text { text: said }].drop_last() =~= Seq::<ContentBlock>::empty());
    assert(text_of(Seq::<ContentBlock>::empty()) =~= Seq::<char>::empty());
    assert(Seq::<char>::empty() + said@ =~= said@);
    if b.len() == 0 {
        assert(a + b =~= a);
        assert(text_of(a) + text_of(b) =~= text_of(a));
    } else {
        law_blocks_are_read_in_their_order(a, b.drop_last(), said);
        assert((a + b).drop_last() =~= a + b.drop_last());
        assert(text_of(a + b) =~= text_of(a) + text_of(b));
    }
}

/// A message is taken exactly into a session that is there, and only with
/// something said in it. A session that is not there, or that cannot be, is not
/// found; an empty message is the caller's fault.
pub proof fn law_a_message_wants_a_session_and_words(
    session_id: Seq<char>,
    known: Result<bool, RepositoryError>,
    blocks: Seq<ContentBlock>,
)
    ensures
        submit_refusal(session_id, known, blocks) is None <==> {
            &&& ids::is_ulid(session_id)
            &&& known is Ok && known->Ok_0
            &&& text::trimmed(text_of(blocks)).len() > 0
        },
        submit_refusal(session_id, known, blocks) matches Some(p) ==> p.status == (if !ids::is_ulid(
            session_id,
        ) {
            404u16
        } else {
            match known {
                Err(RepositoryError::Storage(_)) => 503u16,
                Err(_) => 409u16,
                Ok(there) => if there {
                    400u16
                } else {
                    404u16
                },
            }
        }),
{
}

/// A submitted message and its run belong to the session they were sent to, hold
/// what was said, and start afresh.
pub proof fn law_a_submission_holds_what_was_said(
    s: Submission,
    session_id: Seq<char>,
    said: Seq<char>,
    budget: RunBudget,
    now: Timestamp,
)
    requires
        submits(s, session_id, said, budget, now),
    ensures
        s.message.session_id@ == session_id,
        s.run.session_id@ == session_id,
        s.message.role is User,
        s.message.text@ == said,
        s.input.text@ == said,
        s.message.created_at == time::whole_micros(now),
        s.run.state is Received,
        s.run.outcome is None,
        s.run.budget == budget,
{
}

/// A page of the timeline starts where it was asked to, and never before the
/// beginning; it has as many rows as were asked for, at least one and at most
/// five hundred, and two hundred where nothing was said.
pub proof fn law_pages_are_bounded(params: TimelineParams)
    ensures
        params.from_row() >= 0,
        params.since matches Some(n) && n >= 0 ==> params.from_row() == params.since->0,
        params.since is None || params.since->0 < 0 ==> params.from_row() == 0,
        1 <= params.page_size() <= 500,
        params.limit matches Some(n) && 1 <= n <= 500 ==> params.page_size() == params.limit->0,
        params.limit matches Some(n) && n > 500 ==> params.page_size() == 500,
        params.limit is None ==> params.page_size() == 200,
{
}

/// A row of the timeline is shown as what it holds: a message as the message it
/// carries, and any other event with all it says and its type; a row that holds
/// neither is left out.
pub proof fn law_rows_are_shown_as_they_are(
    document: Option<TimelineDocument>,
    row: OutboxRecord,
    key: Seq<char>,
)
    requires
        stands_for(document, row),
    ensures
        document matches Some(TimelineDocument::Message(m)) ==> {
            &&& row.event_type@ == "message.created"@
            &&& row.payload is Object
            &&& canonical::members_of(row.payload).dom().contains("message"@)
            &&& canonical::json_meaning(m) == canonical::members_of(row.payload)["message"@]
        },
        document matches Some(TimelineDocument::RunEvent(e)) ==> {
            &&& row.event_type@ != "message.created"@
            &&& canonical::members_of(e).dom().contains("type"@)
            &&& canonical::members_of(e)["type"@] == canonical::Meaning::Str(row.event_type@)
            &&& key != "type"@ ==> (canonical::members_of(e).dom().contains(key)
                <==> canonical::members_of(row.payload).dom().contains(key))
            &&& key != "type"@ && canonical::members_of(row.payload).dom().contains(key)
                ==> canonical::members_of(e)[key] == canonical::members_of(row.payload)[key]
        },
        document is None <==> row.payload !is Object || (row.event_type@ == "message.created"@
            && !canonical::members_of(row.payload).dom().contains("message"@)),
{
}

/// Where the next page of a timeline starts, if there may be one.
pub open spec fn read_on_from<T>(params: TimelineParams, rows: Seq<(i64, Option<T>)>) -> Option<u64> {
    if rows.len() == params.page_size() {
        Some(furthest(params.from_row(), rows) as u64)
    } else {
        None
    }
}

/// How the queue changes as a run is put in.
pub open spec fn parked_as(
    before: Seq<(Run, RunInput)>,
    after: Seq<(Run, RunInput)>,
    item: (Run, RunInput),
    taken: bool,
) -> bool {
    if taken {
        before.len() < QUEUE_CAPACITY && after == before.push(item)
    } else {
        before.len() >= QUEUE_CAPACITY && after == before
    }
}

/// How the queue changes as a run is taken out.
pub open spec fn dequeued_as(
    before: Seq<(Run, RunInput)>,
    after: Seq<(Run, RunInput)>,
    r: Option<(Run, RunInput)>,
) -> bool {
    match r {
        Some(first) => before.len() > 0 && first == before.first() && after == before.skip(1),
        None => before.len() == 0 && after == before,
    }
}

/// What a look for a run is answered with.
pub open spec fn answers_run(
    id: Seq<char>,
    stored: Result<Option<RunView>, RepositoryError>,
    r: Result<RunDto, ProblemDetails>,
) -> bool {
    if !ids::is_ulid(id) {
        r matches Err(p) && p@ == not_found_view("no such run"@)
    } else {
        match stored {
            Err(e) => r matches Err(p) && p@ == repository_problem_view(e),
            Ok(None) => r matches Err(p) && p@ == not_found_view("no such run"@),
            Ok(Some(v)) => r matches Ok(dto) && dto.id@ == id && dto.session_id == v.run.session_id
                && dto.state == v.run.state && dto.budget == v.run.budget && dto.outcome
                == v.run.outcome && dto.created_at@ == time::rfc3339_of(v.created_at)
                && dto.updated_at@ == time::rfc3339_of(v.updated_at),
        }
    }
}

/// What a wish to cancel a run leads to.
pub open spec fn cancels(id: Seq<char>, active: Set<Seq<char>>, step: CancelStep) -> bool {
    if !ids::is_ulid(id) {
        step matches CancelStep::Refused(p) && p@ == not_found_view("no such run"@)
    } else if active.contains(id) {
        step is Cancel
    } else {
        step is LookUp
    }
}

/// Why a run that is not driven cannot be cancelled.
pub open spec fn refused_cancel(stored: Result<bool, RepositoryError>) -> problem::ProblemView {
    match stored {
        Err(e) => repository_problem_view(e),
        Ok(false) => not_found_view("no such run"@),
        Ok(true) => problem::problem_of(
            409,
            ErrorCode::RunNotCancellable,
            "run is not currently running"@,
            None,
        ),
    }
}

/// A page that is full may have more behind it, and the next one starts behind
/// its furthest row; a page that is not full is the last. Reading on from the
/// cursor therefore meets no row of the page again.
pub proof fn law_a_full_page_is_read_on<T>(params: TimelineParams, rows: Seq<(i64, Option<T>)>, i: int)
    ensures
        read_on_from(params, rows) is Some <==> rows.len() == params.page_size(),
        read_on_from(params, rows) matches Some(next) && 0 <= i < rows.len() ==> rows[i].0
            <= read_on_from(params, rows)->0,
        read_on_from(params, rows) matches Some(next) && (forall|k: int|
            0 <= k < rows.len() ==> (#[trigger] rows[k]).0 >= params.from_row()) ==> exists|k: int|
            0 <= k < rows.len() && (#[trigger] rows[k]).0 == read_on_from(params, rows)->0,
{
    law_the_cursor_moves_on(params.from_row(), rows);
    law_the_cursor_is_a_row(params.from_row(), rows);
    if read_on_from(params, rows) is Some {
        assert(rows.len() >= 1);
        if 0 <= i < rows.len() {
            assert(rows[i].0 <= furthest(params.from_row(), rows));
        }
        assert(rows[0].0 <= furthest(params.from_row(), rows));
    }
}

/// Runs wait in a line: what is put in stands behind what is there, what is taken
/// out stood first, and what was put into an empty line comes out of it. A line
/// of a hundred takes no more, and a full one is left as it is.
pub proof fn law_runs_wait_in_a_line(
    before: Seq<(Run, RunInput)>,
    parked: Seq<(Run, RunInput)>,
    item: (Run, RunInput),
    taken: bool,
    after: Seq<(Run, RunInput)>,
    r: Option<(Run, RunInput)>,
)
    requires
        parked_as(before, parked, item, taken),
        dequeued_as(parked, after, r),
    ensures
        taken <==> before.len() < 100,
        taken ==> parked.len() == before.len() + 1 && parked.last() == item && parked.drop_last()
            == before,
        !taken ==> parked == before,
        r is Some <==> parked.len() > 0,
        r matches Some(first) ==> seq![first] + after == parked,
        taken && before.len() == 0 ==> r == Some(item) && after.len() == 0,
{
    if taken {
        assert(parked.drop_last() =~= before);
    }
    if r is Some {
        assert(seq![r->0] + after =~= parked);
    }
}

/// A run is shown exactly where it is there, under the id it was asked for by and
/// with its own state. A run is cancelled exactly while it is driven; one that is
/// not driven is looked up, and then refused as missing or as not running.
pub proof fn law_runs_are_shown_and_cancelled(
    id: Seq<char>,
    stored: Result<Option<RunView>, RepositoryError>,
    r: Result<RunDto, ProblemDetails>,
    active: Set<Seq<char>>,
    step: CancelStep,
    known: Result<bool, RepositoryError>,
)
    requires
        answers_run(id, stored, r),
        cancels(id, active, step),
    ensures
        r is Ok <==> ids::is_ulid(id) && stored is Ok && stored->Ok_0 is Some,
        r matches Ok(dto) ==> {
            let v = stored->Ok_0->0;
            &&& dto.id@ == id
            &&& dto.session_id == v.run.session_id
            &&& dto.state == v.run.state
            &&& dto.budget == v.run.budget
            &&& dto.outcome == v.run.outcome
        },
        step is Cancel <==> ids::is_ulid(id) && active.contains(id),
        step is LookUp <==> ids::is_ulid(id) && !active.contains(id),
        step matches CancelStep::Refused(p) ==> p.status == 404,
        refused_cancel(known).status == (match known {
            Ok(there) => if there {
                409u16
            } else {
                404u16
            },
            Err(RepositoryError::Storage(_)) => 503u16,
            Err(_) => 409u16,
        }),
        refused_cancel(known).code is RunNotCancellable <==> known is Ok && known->Ok_0,
{
}

/// What was heard of a run, after an update.
pub open spec fn heard(before: Seq<char>, update: RunUpdate) -> Seq<char> {
    match update {
        RunUpdate::TextDelta { text } => before + text@,
        RunUpdate::Other => before,
    }
}

/// What was heard of a run after several updates.
pub open spec fn heard_all(before: Seq<char>, updates: Seq<RunUpdate>) -> Seq<char>
    decreases updates.len(),
{
    if updates.len() == 0 {
        before
    } else {
        heard(heard_all(before, updates.drop_last()), updates.last())
    }
}

/// The events that a client is told of.
pub open spec fn known_events() -> Seq<Seq<char>> {
    seq![
        "run.started"@,
        "run.state_changed"@,
        "run.queued"@,
        "run.completed"@,
        "message.created"@,
        "provider.health_changed"@,
        "run.checkpoint_saved"@,
    ]
}

/// What a run says is all it said, in the order it was said, whatever else
/// happened in between: what was heard is kept, and each piece comes behind it.
pub proof fn law_a_run_is_heard_in_order(before: Seq<char>, updates: Seq<RunUpdate>, said: String)
    ensures
        before.is_prefix_of(heard_all(before, updates)),
        heard_all(before, updates.push(RunUpdate::TextDelta { text: said })) == heard_all(
            before,
            updates,
        ) + said@,
        heard_all(before, updates.push(RunUpdate::Other)) == heard_all(before, updates),
    decreases updates.len(),
{
    assert(updates.push(RunUpdate::TextDelta { text: said }).drop_last() =~= updates);
    assert(updates.push(RunUpdate::Other).drop_last() =~= updates);
    if updates.len() > 0 {
        law_a_run_is_heard_in_order(before, updates.drop_last(), said);
        let shorter = heard_all(before, updates.drop_last());
        assert(shorter.is_prefix_of(heard_all(before, updates)));
        assert(heard_all(before, updates).take(before.len() as int) =~= before);
    }
}

/// The codes that a client of the runs branches on, whatever is missing.
pub proof fn law_run_problems_have_their_codes(title: Seq<char>)
    ensures
        not_found_view(title).status == 404 && not_found_view(title).code is ResourceNotFound,
{
}

} // verus!
