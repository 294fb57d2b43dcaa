//! Deep-dive threads: the live threads of conversations, what a turn files, and
//! the promotion of a thread to a document.
//!
//! Nothing here executes. A source handoff is published as a citation, and a
//! canvas instruction can extend or shelve and nothing else. Live threads are in
//! memory and bounded; a slot is taken only for a session that exists.

use vstd::prelude::*;

use crate::cards;
use crate::cards::{HudCardDto, ImageRef, SourceRef};
use crate::ids;
use crate::problem;
use crate::problem::{ErrorCode, ProblemDetails, RepositoryError};
use crate::text;

verus! {

/// How many conversations keep a live thread at once.
pub const MAX_LIVE_THREADS: usize = 8;

/// Most entries of one kind that a findings request may carry.
pub const MAX_FINDINGS_PER_REQUEST: usize = 64;

pub const SOURCES_TITLE: &'static str = "References";

pub const GALLERY_TITLE: &'static str = "Images";

// ---------------------------------------------------------------------------
// Live threads
// ---------------------------------------------------------------------------

/// The live threads, the least recently touched first.
pub struct LiveThreads<T> {
    threads: Vec<(String, T)>,
}

/// Where a session stands among the live threads.
pub open spec fn thread_at<T>(threads: Seq<(Seq<char>, T)>, session: Seq<char>) -> Option<int>
    decreases threads.len(),
{
    if threads.len() == 0 {
        None
    } else {
        match thread_at(threads.drop_last(), session) {
            Some(i) => Some(i),
            None => if threads.last().0 == session {
                Some(threads.len() - 1)
            } else {
                None
            },
        }
    }
}

/// The live threads after a session was touched: its thread, or a fresh one,
/// stands last, and the oldest has gone where there was no room.
pub open spec fn touched<T>(threads: Seq<(Seq<char>, T)>, session: Seq<char>, fresh: T) -> Seq<
    (Seq<char>, T),
> {
    match thread_at(threads, session) {
        Some(i) => threads.remove(i).push(threads[i]),
        None => if threads.len() >= MAX_LIVE_THREADS {
            threads.remove(0).push((session, fresh))
        } else {
            threads.push((session, fresh))
        },
    }
}

/// The live threads after a request for a session, which touches its thread only
/// where the register knows the session.
pub open spec fn slotted<T>(
    threads: Seq<(Seq<char>, T)>,
    session: Seq<char>,
    known: Result<bool, RepositoryError>,
    fresh: T,
) -> Seq<(Seq<char>, T)> {
    if session_refusal(known) is None {
        touched(threads, session, fresh)
    } else {
        threads
    }
}

/// The live threads after a row of requests, each a session and what the register
/// said of it.
pub open spec fn slotted_all<T>(
    threads: Seq<(Seq<char>, T)>,
    requests: Seq<(Seq<char>, Result<bool, RepositoryError>)>,
    fresh: T,
) -> Seq<(Seq<char>, T)>
    decreases requests.len(),
{
    if requests.len() == 0 {
        threads
    } else {
        slotted(
            slotted_all(threads, requests.drop_last(), fresh),
            requests.last().0,
            requests.last().1,
            fresh,
        )
    }
}

/// No session stands twice, and there are no more than the bound.
pub open spec fn threads_ok<T>(threads: Seq<(Seq<char>, T)>) -> bool {
    &&& threads.len() <= MAX_LIVE_THREADS
    &&& forall|i: int, j: int|
        0 <= i < j < threads.len() ==> #[trigger] threads[i].0 != #[trigger] threads[j].0
}

pub open spec fn threads_of<T>(v: Seq<(String, T)>) -> Seq<(Seq<char>, T)> {
    v.map_values(|e: (String, T)| (e.0@, e.1))
}

proof fn lemma_thread_at<T>(threads: Seq<(Seq<char>, T)>, session: Seq<char>)
    ensures
        match thread_at(threads, session) {
            Some(i) => 0 <= i < threads.len() && threads[i].0 == session,
            None => forall|k: int| 0 <= k < threads.len() ==> #[trigger] threads[k].0 != session,
        },
    decreases threads.len(),
{
    if threads.len() > 0 {
        lemma_thread_at(threads.drop_last(), session);
        if thread_at(threads, session) is None {
            assert forall|k: int| 0 <= k < threads.len() implies #[trigger] threads[k].0
                != session by {
                if k < threads.len() - 1 {
                    assert(threads.drop_last()[k].0 != session);
                }
            }
        }
    }
}

proof fn lemma_thread_found<T>(threads: Seq<(Seq<char>, T)>, session: Seq<char>, i: int)
    requires
        0 <= i < threads.len(),
        thread_at(threads.take(i), session) is None,
        threads[i].0 == session,
    ensures
        thread_at(threads, session) == Some(i),
    decreases threads.len(),
{
    if i == threads.len() - 1 {
        assert(threads.drop_last() =~= threads.take(i));
    } else {
        assert(threads.drop_last().take(i) =~= threads.take(i));
        lemma_thread_found(threads.drop_last(), session, i);
    }
}

proof fn lemma_touched_ok<T>(threads: Seq<(Seq<char>, T)>, session: Seq<char>, fresh: T)
    requires
        threads_ok(threads),
    ensures
        threads_ok(touched(threads, session, fresh)),
        touched(threads, session, fresh).len() > 0,
        touched(threads, session, fresh).last().0 == session,
{
    lemma_thread_at(threads, session);
}

impl<T> View for LiveThreads<T> {
    type V = Seq<(Seq<char>, T)>;

    closed spec fn view(&self) -> Seq<(Seq<char>, T)> {
        threads_of(self.threads@)
    }
}

impl<T> LiveThreads<T> {
    #[verifier::type_invariant]
    spec fn bounded(self) -> bool {
        threads_ok(threads_of(self.threads@))
    }

    pub fn new() -> (s: Self)
        ensures
            s@ == Seq::<(Seq<char>, T)>::empty(),
    {
        let threads: Vec<(String, T)> = Vec::new();
        assert(threads_of(threads@) =~= Seq::<(Seq<char>, T)>::empty());
        LiveThreads { threads }
    }

    pub fn len(&self) -> (n: usize)
        ensures
            n == self@.len(),
            n <= MAX_LIVE_THREADS,
    {
        proof {
            use_type_invariant(self);
        }
        self.threads.len()
    }

    fn position(&self, session: &str) -> (r: Option<usize>)
        ensures
            match r {
                Some(i) => i < self.threads@.len() && thread_at(self@, session@) == Some(i as int),
                None => thread_at(self@, session@) is None,
            },
    {
        let ghost all = self@;
        let mut i: usize = 0;
        assert(all.take(0) =~= seq![]);
        while i < self.threads.len()
            invariant
                i <= self.threads@.len(),
                all == threads_of(self.threads@),
                thread_at(all.take(i as int), session@) is None,
            decreases self.threads@.len() - i,
        {
            assert(all.take(i + 1).drop_last() =~= all.take(i as int));
            assert(all[i as int].0 == self.threads@[i as int].0@);
            if text::same(self.threads[i].0.as_str(), session) {
                proof {
                    lemma_thread_found(all, session@, i as int);
                }
                return Some(i);
            }
            i = i + 1;
        }
        assert(all.take(all.len() as int) =~= all);
        None
    }

    /// The place of a session's thread, made with `fresh` where there was none.
    /// The place is always the last: the session is the most recently touched.
    fn slot_for(&mut self, session: &str, fresh: T) -> (i: usize)
        ensures
            final(self)@ == touched(old(self)@, session@, fresh),
            threads_ok(final(self)@),
            i == final(self)@.len() - 1,
            final(self)@[i as int].0 == session@,
    {
        proof {
            use_type_invariant(&*self);
            lemma_touched_ok(self@, session@, fresh);
            lemma_thread_at(self@, session@);
        }
        let ghost before = self@;
        let place = self.position(session);
        let mut threads: Vec<(String, T)> = Vec::new();
        assert(threads_of(threads@) =~= seq![]);
        std::mem::swap(&mut threads, &mut self.threads);
        assert(before == threads_of(threads@));
        match place {
            Some(p) => {
                let entry = threads.remove(p);
                threads.push(entry);
            },
            None => {
                if threads.len() >= MAX_LIVE_THREADS {
                    let _evicted = threads.remove(0);
                }
                threads.push((session.to_owned(), fresh));
            },
        }
        assert(threads_of(threads@) =~= touched(before, session@, fresh));
        let last: usize = threads.len() - 1;
        self.threads = threads;
        last
    }

    /// The place of a session's thread, where the register knows the session.
    /// `known` is what the register said of it. A session that is refused takes no
    /// place and costs no other session its own.
    pub fn live_slot(&mut self, session: &str, known: Result<bool, RepositoryError>, fresh: T) -> (r:
        Result<usize, ProblemDetails>)
        ensures
            final(self)@ == slotted(old(self)@, session@, known, fresh),
            threads_ok(final(self)@),
            match (r, session_refusal(known)) {
                (Ok(i), None) => i == final(self)@.len() - 1 && final(self)@[i as int].0 == session@,
                (Err(e), Some(p)) => e@ == p,
                _ => false,
            },
    {
        match live_session(known) {
            Ok(_) => Ok(self.slot_for(session, fresh)),
            Err(p) => {
                proof {
                    use_type_invariant(&*self);
                }
                Err(p)
            },
        }
    }

    /// Replace the state of the thread at a place.
    pub fn replace(&mut self, i: usize, state: T) -> (was: T)
        requires
            i < old(self)@.len(),
        ensures
            was == old(self)@[i as int].1,
            final(self)@ == old(self)@.update(i as int, (old(self)@[i as int].0, state)),
    {
        proof {
            use_type_invariant(&*self);
        }
        let ghost before = self@;
        let mut threads: Vec<(String, T)> = Vec::new();
        assert(threads_of(threads@) =~= seq![]);
        std::mem::swap(&mut threads, &mut self.threads);
        let (session, was) = threads.remove(i);
        assert(session@ == before[i as int].0);
        threads.insert(i, (session, state));
        assert(threads_of(threads@) =~= before.update(i as int, (before[i as int].0, state)));
        self.threads = threads;
        was
    }

    /// The state of the thread at a place.
    pub fn state(&self, i: usize) -> (s: &T)
        requires
            i < self@.len(),
        ensures
            *s == self@[i as int].1,
    {
        &self.threads[i].1
    }
}

/// However many sessions are touched, the live threads stay within the bound.
pub proof fn law_live_threads_are_bounded<T>(
    threads: Seq<(Seq<char>, T)>,
    session: Seq<char>,
    fresh: T,
)
    requires
        threads_ok(threads),
    ensures
        threads_ok(touched(threads, session, fresh)),
{
    lemma_touched_ok(threads, session, fresh);
}

/// Touching a session that has a thread costs no thread and keeps its state.
pub proof fn law_touching_a_live_thread_keeps_every_state<T>(
    threads: Seq<(Seq<char>, T)>,
    session: Seq<char>,
    fresh: T,
)
    requires
        threads_ok(threads),
        thread_at(threads, session) is Some,
    ensures
        touched(threads, session, fresh).to_multiset() == threads.to_multiset(),
        touched(threads, session, fresh).last() == threads[thread_at(threads, session)->0],
{
    broadcast use vstd::seq_lib::group_to_multiset_ensures;

    lemma_thread_at(threads, session);
    let i = thread_at(threads, session)->0;
    assert(threads.remove(i).push(threads[i]).to_multiset() =~= threads.to_multiset());
}

/// A new session displaces at most the thread that was touched longest ago, and
/// every other keeps its state and its order.
pub proof fn law_only_the_oldest_is_displaced<T>(
    threads: Seq<(Seq<char>, T)>,
    session: Seq<char>,
    fresh: T,
)
    requires
        threads_ok(threads),
        thread_at(threads, session) is None,
    ensures
        touched(threads, session, fresh).last() == (session, fresh),
        touched(threads, session, fresh).drop_last() == (if threads.len() == MAX_LIVE_THREADS {
            threads.skip(1)
        } else {
            threads
        }),
{
    assert(touched(threads, session, fresh).drop_last() =~= (if threads.len() == MAX_LIVE_THREADS {
        threads.skip(1)
    } else {
        threads
    }));
}

/// However many requests carry a session that the register does not know, every
/// thread stays as it is.
pub proof fn law_invented_sessions_displace_nothing<T>(
    threads: Seq<(Seq<char>, T)>,
    requests: Seq<(Seq<char>, Result<bool, RepositoryError>)>,
    fresh: T,
)
    requires
        forall|i: int| 0 <= i < requests.len() ==> session_refusal(#[trigger] requests[i].1) is Some,
    ensures
        slotted_all(threads, requests, fresh) == threads,
    decreases requests.len(),
{
    if requests.len() > 0 {
        let before = requests.drop_last();
        assert forall|i: int| 0 <= i < before.len() implies session_refusal(
            #[trigger] before[i].1,
        ) is Some by {
            assert(before[i] == requests[i]);
        }
        law_invented_sessions_displace_nothing(threads, before, fresh);
        assert(requests[requests.len() - 1] == requests.last());
    }
}

/// A thread is held only for a session that the register knew: whoever has one
/// after a row of requests had it before, or asked under a session that the
/// register knows.
pub proof fn law_only_known_sessions_hold_threads<T>(
    threads: Seq<(Seq<char>, T)>,
    requests: Seq<(Seq<char>, Result<bool, RepositoryError>)>,
    fresh: T,
    k: int,
)
    requires
        0 <= k < slotted_all(threads, requests, fresh).len(),
    ensures
        (exists|i: int|
            0 <= i < threads.len() && (#[trigger] threads[i]).0 == slotted_all(
                threads,
                requests,
                fresh,
            )[k].0) || (exists|j: int|
            0 <= j < requests.len() && (#[trigger] requests[j]).0 == slotted_all(
                threads,
                requests,
                fresh,
            )[k].0 && requests[j].1 == Ok::<bool, RepositoryError>(true)),
    decreases requests.len(),
{
    let held = slotted_all(threads, requests, fresh)[k].0;
    if requests.len() == 0 {
        assert(threads[k].0 == held);
    } else {
        let rest = requests.drop_last();
        let before = slotted_all(threads, rest, fresh);
        let last = requests.last();
        assert(requests[requests.len() - 1] == last);
        lemma_thread_at(before, last.0);
        if !(session_refusal(last.1) is None && held == last.0) {
            let m = choose|m: int| 0 <= m < before.len() && (#[trigger] before[m]).0 == held;
            if session_refusal(last.1) is None {
                match thread_at(before, last.0) {
                    Some(p) => {
                        assert(before[if k < p { k } else { k + 1 }].0 == held);
                    },
                    None => {
                        assert(before[if before.len() >= MAX_LIVE_THREADS { k + 1 } else { k }].0
                            == held);
                    },
                }
            } else {
                assert(before[k].0 == held);
            }
            law_only_known_sessions_hold_threads(threads, rest, fresh, m);
            if exists|j: int|
                0 <= j < rest.len() && (#[trigger] rest[j]).0 == held && rest[j].1 == Ok::<
                    bool,
                    RepositoryError,
                >(true) {
                let j = choose|j: int|
                    0 <= j < rest.len() && (#[trigger] rest[j]).0 == held && rest[j].1 == Ok::<
                        bool,
                        RepositoryError,
                    >(true);
                assert(requests[j] == rest[j]);
            }
        }
    }
}

// ---------------------------------------------------------------------------
// Requests
// ---------------------------------------------------------------------------

pub open spec fn not_a_session_id_view() -> problem::ProblemView {
    problem::problem_of(400, ErrorCode::ValidationFailed, "session id is not a ULID"@, None)
}

pub open spec fn no_such_session_view() -> problem::ProblemView {
    problem::problem_of(404, ErrorCode::ResourceNotFound, "no such session"@, None)
}

pub open spec fn storage_view() -> problem::ProblemView {
    problem::problem_of(503, ErrorCode::ProviderUnavailable, "storage unavailable"@, None)
}

pub open spec fn too_many_findings_view() -> problem::ProblemView {
    problem::problem_of(
        422,
        ErrorCode::ValidationFailed,
        "a findings request carries at most 64 facts, 64 sources and 64 images"@,
        None,
    )
}

/// Why a session gets no slot. `known` is what the register said of it.
pub open spec fn session_refusal(known: Result<bool, RepositoryError>) -> Option<
    problem::ProblemView,
> {
    match known {
        Ok(true) => None,
        Ok(false) => Some(no_such_session_view()),
        Err(_) => Some(storage_view()),
    }
}

/// Refuse whatever is not a real conversation, before a slot is taken. A register
/// that cannot be read is no answer about the session, so it has its own.
pub fn live_session(known: Result<bool, RepositoryError>) -> (r: Result<(), ProblemDetails>)
    ensures
        match (r, session_refusal(known)) {
            (Ok(_), None) => true,
            (Err(e), Some(p)) => e@ == p,
            _ => false,
        },
{
    match known {
        Ok(true) => Ok(()),
        Ok(false) => Err(problem::not_found("no such session")),
        Err(_) => Err(problem::unavailable("storage unavailable")),
    }
}

/// Why a findings request is refused before the register is asked.
pub open spec fn findings_refusal(session: Seq<char>, facts: nat, sources: nat, images: nat) -> Option<
    problem::ProblemView,
> {
    if !ids::is_ulid(session) {
        Some(not_a_session_id_view())
    } else if facts > MAX_FINDINGS_PER_REQUEST || sources > MAX_FINDINGS_PER_REQUEST || images
        > MAX_FINDINGS_PER_REQUEST {
        Some(too_many_findings_view())
    } else {
        None
    }
}

/// Admit a findings request by its session and the sizes of its three lists.
/// Whatever comes after holds the lock that every conversation needs, so both
/// are looked at first.
pub fn admit_findings(session: &str, facts: usize, sources: usize, images: usize) -> (r: Result<
    (),
    ProblemDetails,
>)
    ensures
        match (r, findings_refusal(session@, facts as nat, sources as nat, images as nat)) {
            (Ok(_), None) => true,
            (Err(e), Some(p)) => e@ == p,
            _ => false,
        },
{
    if !ids::is_id(session) {
        return Err(problem::bad_request("session id is not a ULID"));
    }
    if facts > MAX_FINDINGS_PER_REQUEST || sources > MAX_FINDINGS_PER_REQUEST || images
        > MAX_FINDINGS_PER_REQUEST {
        return Err(
            problem::problem(
                422,
                ErrorCode::ValidationFailed,
                "a findings request carries at most 64 facts, 64 sources and 64 images",
                None,
            ),
        );
    }
    Ok(())
}

/// Admit a promotion by its session.
pub fn admit_promotion(session: &str) -> (r: Result<(), ProblemDetails>)
    ensures
        match r {
            Ok(_) => ids::is_ulid(session@),
            Err(e) => !ids::is_ulid(session@) && e@ == not_a_session_id_view(),
        },
{
    if ids::is_id(session) {
        Ok(())
    } else {
        Err(problem::bad_request("session id is not a ULID"))
    }
}

// ---------------------------------------------------------------------------
// Findings
// ---------------------------------------------------------------------------

/// Why a thread did not record an entry.
#[derive(Debug, Clone, Copy, PartialEq, Eq, Structural)]
pub enum ThreadError {
    NotAParaphrase,
    Empty,
    FactsFull,
    SourcesFull,
    ImagesFull,
    Unattributable,
    UrlTooLong,
}

/// The stable reason for a refusal. Every variant has one of its own, so nothing
/// that a caller sent can be reflected back.
pub open spec fn reason_of(error: ThreadError) -> &'static str {
    match error {
        ThreadError::NotAParaphrase => "a fact must be a paraphrase, not fetched page text",
        ThreadError::Empty => "nothing to record",
        ThreadError::FactsFull => "this thread already holds the most findings it can",
        ThreadError::SourcesFull => "this thread already cites the most pages it can",
        ThreadError::ImagesFull => "this thread already references the most images it can",
        ThreadError::Unattributable => "not an attributable http(s) source",
        ThreadError::UrlTooLong => "that URL is too long to record",
    }
}

pub fn refusal_reason(error: &ThreadError) -> (s: &'static str)
    ensures
        s == reason_of(*error),
{
    match error {
        ThreadError::NotAParaphrase => "a fact must be a paraphrase, not fetched page text",
        ThreadError::Empty => "nothing to record",
        ThreadError::FactsFull => "this thread already holds the most findings it can",
        ThreadError::SourcesFull => "this thread already cites the most pages it can",
        ThreadError::ImagesFull => "this thread already references the most images it can",
        ThreadError::Unattributable => "not an attributable http(s) source",
        ThreadError::UrlTooLong => "that URL is too long to record",
    }
}

/// How many entries were recorded.
pub open spec fn recorded(outcomes: Seq<Result<(), ThreadError>>) -> nat
    decreases outcomes.len(),
{
    if outcomes.len() == 0 {
        0
    } else {
        recorded(outcomes.drop_last()) + (if outcomes.last() is Ok {
            1nat
        } else {
            0nat
        })
    }
}

/// The reasons of those that were not, in order.
pub open spec fn reasons(outcomes: Seq<Result<(), ThreadError>>) -> Seq<Seq<char>>
    decreases outcomes.len(),
{
    if outcomes.len() == 0 {
        seq![]
    } else {
        match outcomes.last() {
            Ok(_) => reasons(outcomes.drop_last()),
            Err(e) => reasons(outcomes.drop_last()).push(reason_of(e)@),
        }
    }
}

/// What is answered to a findings request.
#[derive(Debug)]
pub struct DeepDiveFindingsResponse {
    pub facts: u32,
    pub sources: u32,
    pub images: u32,
    pub refused: Vec<String>,
}

/// Count the recorded entries of one kind and append the reasons of the rest.
fn tally(outcomes: &Vec<Result<(), ThreadError>>, refused: &mut Vec<String>) -> (n: u32)
    requires
        outcomes@.len() <= MAX_FINDINGS_PER_REQUEST,
    ensures
        n == recorded(outcomes@),
        text::views(final(refused)@) == text::views(old(refused)@) + reasons(outcomes@),
{
    let ghost before = text::views(refused@);
    let mut n: u32 = 0;
    let mut i: usize = 0;
    assert(outcomes@.take(0) =~= seq![]);
    assert(text::views(refused@) =~= before + seq![]);
    while i < outcomes.len()
        invariant
            i <= outcomes@.len(),
            outcomes@.len() <= MAX_FINDINGS_PER_REQUEST,
            n <= i,
            n == recorded(outcomes@.take(i as int)),
            text::views(refused@) == before + reasons(outcomes@.take(i as int)),
        decreases outcomes@.len() - i,
    {
        assert(outcomes@.take(i + 1).drop_last() =~= outcomes@.take(i as int));
        match &outcomes[i] {
            Ok(_) => {
                n = n + 1;
            },
            Err(e) => {
                let ghost so_far = text::views(refused@);
                refused.push(refusal_reason(e).to_owned());
                assert(text::views(refused@) =~= so_far.push(reason_of(*e)@));
                assert(text::views(refused@) =~= before + reasons(outcomes@.take(i + 1)));
            },
        }
        i = i + 1;
    }
    assert(outcomes@.take(outcomes@.len() as int) =~= outcomes@);
    n
}

/// What a findings request is answered with, given what the thread made of each
/// entry: facts first, then sources, then images. One bad entry never costs the
/// good ones.
pub fn record_findings(
    facts: &Vec<Result<(), ThreadError>>,
    sources: &Vec<Result<(), ThreadError>>,
    images: &Vec<Result<(), ThreadError>>,
) -> (r: DeepDiveFindingsResponse)
    requires
        facts@.len() <= MAX_FINDINGS_PER_REQUEST,
        sources@.len() <= MAX_FINDINGS_PER_REQUEST,
        images@.len() <= MAX_FINDINGS_PER_REQUEST,
    ensures
        r.facts == recorded(facts@),
        r.sources == recorded(sources@),
        r.images == recorded(images@),
        text::views(r.refused@) == reasons(facts@) + reasons(sources@) + reasons(images@),
{
    let mut refused: Vec<String> = Vec::new();
    assert(text::views(refused@) =~= Seq::<Seq<char>>::empty());
    let recorded_facts: u32 = tally(facts, &mut refused);
    let recorded_sources: u32 = tally(sources, &mut refused);
    let recorded_images: u32 = tally(images, &mut refused);
    assert(text::views(refused@) =~= reasons(facts@) + reasons(sources@) + reasons(images@));
    DeepDiveFindingsResponse {
        facts: recorded_facts,
        sources: recorded_sources,
        images: recorded_images,
        refused,
    }
}

/// Every entry is either recorded or has a reason.
pub proof fn law_every_finding_is_accounted_for(outcomes: Seq<Result<(), ThreadError>>)
    ensures
        recorded(outcomes) + reasons(outcomes).len() == outcomes.len(),
    decreases outcomes.len(),
{
    if outcomes.len() > 0 {
        law_every_finding_is_accounted_for(outcomes.drop_last());
    }
}

/// Reasons are a fixed vocabulary: each is the sentence of some refusal, and no
/// text of the caller is ever among them.
pub proof fn law_refusals_are_a_fixed_vocabulary(outcomes: Seq<Result<(), ThreadError>>, i: int)
    requires
        0 <= i < reasons(outcomes).len(),
    ensures
        exists|e: ThreadError| reasons(outcomes)[i] == (#[trigger] reason_of(e))@,
    decreases outcomes.len(),
{
    let before = reasons(outcomes.drop_last());
    if i < before.len() {
        law_refusals_are_a_fixed_vocabulary(outcomes.drop_last(), i);
        let e = choose|e: ThreadError| before[i] == (#[trigger] reason_of(e))@;
        assert(reasons(outcomes)[i] == reason_of(e)@);
    } else {
        match outcomes.last() {
            Ok(_) => {},
            Err(e) => {
                assert(reasons(outcomes)[i] == reason_of(e)@);
            },
        }
    }
}

// ---------------------------------------------------------------------------
// The canvas
// ---------------------------------------------------------------------------

/// What a turn does to the canvas.
#[derive(Debug, Clone, Copy, PartialEq, Eq, Structural)]
pub enum CanvasAction {
    Extend,
    Shelve,
}

#[derive(Debug, Clone, Copy, PartialEq, Eq, Structural)]
pub enum CanvasActionDto {
    Extend,
    Shelve,
}

pub fn canvas_action(action: CanvasAction) -> (dto: CanvasActionDto)
    ensures
        action == CanvasAction::Extend <==> dto == CanvasActionDto::Extend,
        action == CanvasAction::Shelve <==> dto == CanvasActionDto::Shelve,
{
    match action {
        CanvasAction::Extend => CanvasActionDto::Extend,
        CanvasAction::Shelve => CanvasActionDto::Shelve,
    }
}

/// What a thread shows: the pages it consulted and the images for its gallery.
#[derive(Debug)]
pub struct ThreadView {
    pub topic: String,
    pub sources: Vec<SourceRef>,
    pub gallery: Vec<ImageRef>,
}

pub open spec fn is_sources_card(card: HudCardDto, session: Seq<char>, t: ThreadView) -> bool {
    card matches HudCardDto::Sources { id, title, items } && id@ == "deepdive-sources-"@ + session
        && title@ == SOURCES_TITLE@ && cards::items_of(items@) == cards::attributed(t.sources@)
}

pub open spec fn is_gallery_card(card: HudCardDto, session: Seq<char>, t: ThreadView) -> bool {
    card matches HudCardDto::Gallery { id, title, images } && id@ == "deepdive-gallery-"@ + session
        && title@ == GALLERY_TITLE@ && cards::tiles_of(images@) == cards::attributed_images(
        t.gallery@,
    )
}

/// The whole current set of cards of a thread: its sources and its gallery,
/// where either has anything that can be attributed.
pub open spec fn shows_thread(shown: Seq<HudCardDto>, session: Seq<char>, t: ThreadView) -> bool {
    let sources = cards::attributed(t.sources@).len() > 0;
    let gallery = cards::attributed_images(t.gallery@).len() > 0;
    if sources && gallery {
        shown.len() == 2 && is_sources_card(shown[0], session, t) && is_gallery_card(
            shown[1],
            session,
            t,
        )
    } else if sources {
        shown.len() == 1 && is_sources_card(shown[0], session, t)
    } else if gallery {
        shown.len() == 1 && is_gallery_card(shown[0], session, t)
    } else {
        shown.len() == 0
    }
}

/// Project a thread onto its cards. Their identifiers are stable for a session,
/// so a client that applies them by identifier converges on the thread.
pub fn thread_cards(session: &str, t: &ThreadView) -> (shown: Vec<HudCardDto>)
    ensures
        shows_thread(shown@, session@, *t),
{
    let mut shown: Vec<HudCardDto> = Vec::new();
    let sources_id = text::concat2("deepdive-sources-", session);
    if let Some(card) = cards::sources_card(sources_id, SOURCES_TITLE, &t.sources) {
        shown.push(card);
    }
    let gallery_id = text::concat2("deepdive-gallery-", session);
    if let Some(card) = cards::gallery_card(gallery_id, GALLERY_TITLE, &t.gallery) {
        shown.push(card);
    }
    shown
}

/// A page to read, as a citation. It has no tool and no arguments.
#[derive(Debug)]
pub struct SourceHandoffDto {
    pub url: String,
    pub domain: String,
}

/// An instruction for the canvas.
#[derive(Debug)]
pub struct HudCanvasDto {
    pub session_id: Option<String>,
    pub action: CanvasActionDto,
    pub label: String,
    pub cards: Vec<HudCardDto>,
    pub offer: Option<String>,
    pub handoff: Option<SourceHandoffDto>,
}

/// What routing a turn came to.
#[derive(Debug)]
pub struct TurnOutcome {
    pub canvas: CanvasAction,
    pub offer: Option<String>,
    pub handoff: Option<SourceHandoffDto>,
}

/// The instruction of a turn: the whole card set of the thread after it, under
/// the topic as it stood before, which is what a shelved set is filed as.
pub fn observe_turn(
    session: &str,
    displaced_label: String,
    outcome: TurnOutcome,
    after: &ThreadView,
) -> (c: HudCanvasDto)
    ensures
        text::opt_view(c.session_id) == Some(session@),
        outcome.canvas == CanvasAction::Extend <==> c.action == CanvasActionDto::Extend,
        c.label == displaced_label,
        shows_thread(c.cards@, session@, *after),
        c.offer == outcome.offer,
        c.handoff == outcome.handoff,
{
    HudCanvasDto {
        session_id: Some(session.to_owned()),
        action: canvas_action(outcome.canvas),
        label: displaced_label,
        cards: thread_cards(session, after),
        offer: outcome.offer,
        handoff: outcome.handoff,
    }
}

/// The instruction after findings were filed. Filing is never a change of topic,
/// so it extends.
pub fn findings_canvas(session: &str, t: &ThreadView) -> (c: HudCanvasDto)
    ensures
        text::opt_view(c.session_id) == Some(session@),
        c.action == CanvasActionDto::Extend,
        c.label@ == t.topic@,
        shows_thread(c.cards@, session@, *t),
        c.offer is None,
        c.handoff is None,
{
    HudCanvasDto {
        session_id: Some(session.to_owned()),
        action: CanvasActionDto::Extend,
        label: t.topic.clone(),
        cards: thread_cards(session, t),
        offer: None,
        handoff: None,
    }
}

// ---------------------------------------------------------------------------
// Promotion
// ---------------------------------------------------------------------------

/// Why a thread was not promoted.
#[derive(Debug)]
pub enum DeepDiveError {
    NothingToPromote,
    VersionOverflow,
    Cancelled,
    Blob(String),
    Store(String),
}

pub open spec fn promotion_problem_view(error: DeepDiveError) -> problem::ProblemView {
    match error {
        DeepDiveError::NothingToPromote => problem::problem_of(
            409,
            ErrorCode::DeepDiveNothingToPromote,
            "this thread has nothing worth keeping yet"@,
            None,
        ),
        DeepDiveError::VersionOverflow => problem::problem_of(
            409,
            ErrorCode::ResourceVersionConflict,
            "this document has no next version"@,
            None,
        ),
        DeepDiveError::Cancelled => problem::problem_of(
            503,
            ErrorCode::ProviderUnavailable,
            "the request was cancelled"@,
            None,
        ),
        DeepDiveError::Blob(_) => storage_view(),
        DeepDiveError::Store(_) => storage_view(),
    }
}

pub fn promotion_problem(error: DeepDiveError) -> (p: ProblemDetails)
    ensures
        p@ == promotion_problem_view(error),
{
    match error {
        DeepDiveError::NothingToPromote => problem::problem(
            409,
            ErrorCode::DeepDiveNothingToPromote,
            "this thread has nothing worth keeping yet",
            None,
        ),
        DeepDiveError::VersionOverflow => problem::problem(
            409,
            ErrorCode::ResourceVersionConflict,
            "this document has no next version",
            None,
        ),
        DeepDiveError::Cancelled => problem::unavailable("the request was cancelled"),
        DeepDiveError::Blob(_) | DeepDiveError::Store(_) => problem::unavailable(
            "storage unavailable",
        ),
    }
}

/// A document that a thread became.
#[derive(Debug)]
pub struct Promoted {
    pub artifact_id: String,
    pub version: u32,
    pub sha256_hex: String,
}

#[derive(Debug)]
pub struct PromoteNotesResponse {
    pub artifact_id: String,
    pub version: u32,
    pub sha256: String,
    pub first_promotion: bool,
}

/// What a promotion is answered with.
pub fn promote(outcome: Result<Promoted, DeepDiveError>) -> (r: Result<
    PromoteNotesResponse,
    ProblemDetails,
>)
    ensures
        answers_promotion(r, outcome),
        match outcome {
            Ok(p) => r matches Ok(a) && a.artifact_id == p.artifact_id && a.version == p.version
                && a.sha256 == p.sha256_hex && a.first_promotion == (p.version == 1),
            Err(e) => r matches Err(p) && p@ == promotion_problem_view(e),
        },
{
    match outcome {
        Ok(p) => {
            let first_promotion = p.version == 1;
            Ok(
                PromoteNotesResponse {
                    artifact_id: p.artifact_id,
                    version: p.version,
                    sha256: p.sha256_hex,
                    first_promotion,
                },
            )
        },
        Err(e) => Err(promotion_problem(e)),
    }
}

/// Eight threads live at once: the ninth session displaces the thread that was
/// longest untouched, and no other.
pub proof fn law_the_ninth_thread_displaces_the_first<T>(
    threads: Seq<(Seq<char>, T)>,
    session: Seq<char>,
    fresh: T,
)
    requires
        forall|i: int| 0 <= i < threads.len() ==> (#[trigger] threads[i]).0 != session,
        threads.len() <= 8,
    ensures
        touched(threads, session, fresh).len() == (if threads.len() == 8 {
            8
        } else {
            threads.len() + 1
        }),
        touched(threads, session, fresh).last() == (session, fresh),
        threads.len() == 8 ==> touched(threads, session, fresh).drop_last() == threads.skip(1),
        threads.len() < 8 ==> touched(threads, session, fresh).drop_last() == threads,
{
    law_a_live_thread_is_found(threads, session);
    if threads.len() == 8 {
        assert(touched(threads, session, fresh).drop_last() =~= threads.skip(1));
    } else {
        assert(touched(threads, session, fresh).drop_last() =~= threads);
    }
}

/// A session's thread is found at its first place, and only where it is live.
pub proof fn law_a_live_thread_is_found<T>(threads: Seq<(Seq<char>, T)>, session: Seq<char>)
    ensures
        match thread_at(threads, session) {
            Some(i) => 0 <= i < threads.len() && threads[i].0 == session && forall|k: int|
                0 <= k < i ==> (#[trigger] threads[k]).0 != session,
            None => forall|k: int| 0 <= k < threads.len() ==> (#[trigger] threads[k]).0 != session,
        },
    decreases threads.len(),
{
    if threads.len() > 0 {
        let shorter = threads.drop_last();
        law_a_live_thread_is_found(shorter, session);
        assert forall|k: int| 0 <= k < shorter.len() implies shorter[k] == threads[k] by {}
        match thread_at(shorter, session) {
            Some(i) => {
                assert(threads[i] == shorter[i]);
                assert forall|k: int| 0 <= k < i implies (#[trigger] threads[k]).0 != session by {
                    assert(shorter[k].0 != session);
                }
            },
            None => {
                assert forall|k: int| 0 <= k < threads.len() - 1 implies (#[trigger] threads[k]).0
                    != session by {
                    assert(shorter[k].0 != session);
                }
            },
        }
    }
}

/// What became of the findings is told one by one: those of two runs are counted
/// together, the refusals keep their order, and a finding that was recorded is
/// counted and not among them.
pub proof fn law_findings_are_told_in_their_order(
    a: Seq<Result<(), ThreadError>>,
    b: Seq<Result<(), ThreadError>>,
    e: ThreadError,
)
    ensures
        recorded(a + b) == recorded(a) + recorded(b),
        reasons(a + b) == reasons(a) + reasons(b),
        recorded(seq![Ok::<(), ThreadError>(())]) == 1,
        recorded(seq![Err::<(), ThreadError>(e)]) == 0,
        reasons(seq![Ok::<(), ThreadError>(())]).len() == 0,
        reasons(seq![Err::<(), ThreadError>(e)]) == seq![reason_of(e)@],
    decreases b.len(),
{
    let one = seq![Ok::<(), ThreadError>(())];
    let none = seq![Err::<(), ThreadError>(e)];
    assert(one.drop_last() =~= Seq::<Result<(), ThreadError>>::empty());
    assert(none.drop_last() =~= Seq::<Result<(), ThreadError>>::empty());
    assert(recorded(Seq::<Result<(), ThreadError>>::empty()) == 0);
    assert(reasons(Seq::<Result<(), ThreadError>>::empty()) =~= Seq::<Seq<char>>::empty());
    assert(reasons(none) =~= seq![reason_of(e)@]);
    if b.len() == 0 {
        assert(a + b =~= a);
        assert(reasons(a) + reasons(b) =~= reasons(a));
    } else {
        law_findings_are_told_in_their_order(a, b.drop_last(), e);
        assert((a + b).drop_last() =~= a + b.drop_last());
        assert(reasons(a + b) =~= reasons(a) + reasons(b));
    }
}

/// Findings are taken exactly for a session id that is one, and at most
/// sixty-four of each kind at a time; a session is worked on exactly where the
/// store knows it.
pub proof fn law_findings_want_a_session_and_a_bound(
    session: Seq<char>,
    facts: nat,
    sources: nat,
    images: nat,
    known: Result<bool, RepositoryError>,
)
    ensures
        findings_refusal(session, facts, sources, images) is None <==> ids::is_ulid(session) && facts
            <= 64 && sources <= 64 && images <= 64,
        findings_refusal(session, facts, sources, images) matches Some(p) ==> p.status == (
        if ids::is_ulid(session) {
            422u16
        } else {
            400u16
        }),
        session_refusal(known) is None <==> known is Ok && known->Ok_0,
        session_refusal(known) matches Some(p) ==> p.status == (if known is Ok {
            404u16
        } else {
            503u16
        }),
{
}

/// A thread's cards are its sources and its pictures, in that order, each where
/// there is anything to show, under ids that name the session.
pub proof fn law_a_thread_shows_what_it_has(
    shown: Seq<HudCardDto>,
    session: Seq<char>,
    t: ThreadView,
)
    requires
        shows_thread(shown, session, t),
    ensures
        shown.len() == (if cards::attributed(t.sources@).len() > 0 {
            1nat
        } else {
            0nat
        }) + (if cards::attributed_images(t.gallery@).len() > 0 {
            1nat
        } else {
            0nat
        }),
        cards::attributed(t.sources@).len() > 0 ==> (shown[0] matches HudCardDto::Sources {
            id,
            title,
            items,
        } && text::stripped(id@, "deepdive-sources-"@) == Some(session) && title@ == "References"@
            && cards::items_of(items@) == cards::attributed(t.sources@)),
        cards::attributed_images(t.gallery@).len() > 0 ==> (shown.last() matches HudCardDto::Gallery {
            id,
            title,
            images,
        } && text::stripped(id@, "deepdive-gallery-"@) == Some(session) && title@ == "Images"@
            && cards::tiles_of(images@) == cards::attributed_images(t.gallery@)),
{
    text::law_a_prefix_is_taken_off(seq![], "deepdive-sources-"@, session);
    text::law_a_prefix_is_taken_off(seq![], "deepdive-gallery-"@, session);
}

/// A thread that cannot be promoted is answered by why: there is nothing in it,
/// its document has no next version, or the service could not go on.
pub proof fn law_promotion_faults_are_told_apart(error: DeepDiveError)
    ensures
        promotion_problem_view(error).status == (match error {
            DeepDiveError::NothingToPromote => 409u16,
            DeepDiveError::VersionOverflow => 409u16,
            DeepDiveError::Cancelled => 503u16,
            DeepDiveError::Blob(_) => 503u16,
            DeepDiveError::Store(_) => 503u16,
        }),
        promotion_problem_view(error).code is DeepDiveNothingToPromote
            <==> error is NothingToPromote,
{
}

/// What a promotion is answered with.
pub open spec fn answers_promotion(
    r: Result<PromoteNotesResponse, ProblemDetails>,
    outcome: Result<Promoted, DeepDiveError>,
) -> bool {
    match outcome {
        Ok(p) => r matches Ok(a) && a.artifact_id == p.artifact_id && a.version == p.version
            && a.sha256 == p.sha256_hex && a.first_promotion == (p.version == 1),
        Err(e) => r matches Err(p) && p@ == promotion_problem_view(e),
    }
}

/// A promotion that went through is told as the document it made; it was the
/// first exactly where the document has its first version.
pub proof fn law_a_promotion_is_told_as_its_document(
    r: Result<PromoteNotesResponse, ProblemDetails>,
    outcome: Result<Promoted, DeepDiveError>,
)
    requires
        answers_promotion(r, outcome),
    ensures
        r is Ok <==> outcome is Ok,
        r matches Ok(a) ==> a.artifact_id == outcome->Ok_0.artifact_id && a.version
            == outcome->Ok_0.version && a.sha256 == outcome->Ok_0.sha256_hex,
        r matches Ok(a) ==> (a.first_promotion <==> a.version < 2 && a.version > 0),
{
}

/// Each refusal of a finding has a sentence of its own.
pub proof fn law_refusals_are_told_apart(a: ThreadError, b: ThreadError)
    ensures
        reason_of(a)@ == reason_of(b)@ ==> a == b,
{
    reveal_strlit("a fact must be a paraphrase, not fetched page text");
    reveal_strlit("nothing to record");
    reveal_strlit("this thread already holds the most findings it can");
    reveal_strlit("this thread already cites the most pages it can");
    reveal_strlit("this thread already references the most images it can");
    reveal_strlit("not an attributable http(s) source");
    reveal_strlit("that URL is too long to record");
    assert("a fact must be a paraphrase, not fetched page text"@.len() == 50);
    assert("a fact must be a paraphrase, not fetched page text"@[0] == 'a');
    assert("nothing to record"@.len() == 17);
    assert("this thread already holds the most findings it can"@.len() == 50);
    assert("this thread already holds the most findings it can"@[0] == 't');
    assert("this thread already cites the most pages it can"@.len() == 47);
    assert("this thread already references the most images it can"@.len() == 53);
    assert("not an attributable http(s) source"@.len() == 34);
    assert("that URL is too long to record"@.len() == 30);
}

/// Touching a live thread moves it behind all others and leaves these in their
/// order, so that the one longest untouched stays the first to go.
pub proof fn law_the_others_keep_their_order<T>(
    threads: Seq<(Seq<char>, T)>,
    session: Seq<char>,
    fresh: T,
    i: int,
)
    requires
        0 <= i < threads.len(),
        threads[i].0 == session,
        forall|k: int| 0 <= k < i ==> (#[trigger] threads[k]).0 != session,
    ensures
        touched(threads, session, fresh) == threads.take(i) + threads.skip(i + 1) + seq![threads[i]],
{
    law_a_live_thread_is_found(threads, session);
    let at = thread_at(threads, session);
    assert(at is Some);
    assert(at->0 == i);
    assert(touched(threads, session, fresh) =~= threads.take(i) + threads.skip(i + 1) + seq![
        threads[i],
    ]);
}

/// The codes that a client of the threads branches on.
pub proof fn law_thread_problems_have_their_codes()
    ensures
        not_a_session_id_view().status == 400 && not_a_session_id_view().code is ValidationFailed,
        no_such_session_view().status == 404 && no_such_session_view().code is ResourceNotFound,
        storage_view().status == 503 && storage_view().code is ProviderUnavailable,
        too_many_findings_view().status == 422 && too_many_findings_view().code is ValidationFailed,
{
}

} // verus!
