use jarvisd::cards::{HudCardDto, SourceRef};
use jarvisd::deepdive::{
    admit_findings, admit_promotion, canvas_action, findings_canvas, live_session, observe_turn,
    promote, promotion_problem, record_findings, refusal_reason, CanvasAction, CanvasActionDto,
    DeepDiveError, LiveThreads, Promoted, SourceHandoffDto, ThreadError, ThreadView, TurnOutcome,
    MAX_FINDINGS_PER_REQUEST, MAX_LIVE_THREADS,
};
use jarvisd::problem::{ErrorCode, RepositoryError};

fn session(n: usize) -> String {
    format!("01J8Z0000000000000000000{n:02}")
}

fn thread() -> ThreadView {
    ThreadView {
        topic: "ramen places".to_owned(),
        sources: vec![SourceRef {
            title: "Guide".to_owned(),
            url: "https://guide.example/ramen".to_owned(),
            domain: Some("guide.example".to_owned()),
        }],
        gallery: Vec::new(),
    }
}

#[test]
fn every_canvas_action_has_a_wire_mapping() {
    assert_eq!(canvas_action(CanvasAction::Extend), CanvasActionDto::Extend);
    assert_eq!(canvas_action(CanvasAction::Shelve), CanvasActionDto::Shelve);
}

#[test]
fn live_threads_are_bounded() {
    let mut threads: LiveThreads<u32> = LiveThreads::new();
    for n in 0..MAX_LIVE_THREADS + 3 {
        let i = threads.live_slot(&session(n), Ok(true), n as u32).expect("a slot");
        assert_eq!(i, threads.len() - 1);
        assert_eq!(*threads.state(i), n as u32);
    }
    assert_eq!(threads.len(), MAX_LIVE_THREADS);
    // The oldest three are gone; a session that stayed keeps its state.
    let kept = threads.live_slot(&session(3), Ok(true), 99).expect("a slot");
    assert_eq!(*threads.state(kept), 3);
    let fresh = threads.live_slot(&session(0), Ok(true), 77).expect("a slot");
    assert_eq!(*threads.state(fresh), 77);
    assert_eq!(threads.len(), MAX_LIVE_THREADS);
    assert_eq!(threads.replace(fresh, 78), 77);
    assert_eq!(*threads.state(fresh), 78);
}

#[test]
fn a_findings_request_is_bounded_before_the_global_lock_is_taken() {
    let over = MAX_FINDINGS_PER_REQUEST + 1;
    for (facts, sources, images) in [(over, 0, 0), (0, over, 0), (0, 0, over)] {
        let p = admit_findings(&session(1), facts, sources, images).unwrap_err();
        assert_eq!(p.status, 422);
        assert_eq!(
            p.title,
            "a findings request carries at most 64 facts, 64 sources and 64 images"
        );
    }
    // A request at the bound is a normal request.
    assert!(admit_findings(&session(1), MAX_FINDINGS_PER_REQUEST, 0, 0).is_ok());
    let outcomes: Vec<Result<(), ThreadError>> = vec![Ok(()); MAX_FINDINGS_PER_REQUEST];
    let filed = record_findings(&outcomes, &Vec::new(), &Vec::new());
    assert_eq!(filed.facts as usize, MAX_FINDINGS_PER_REQUEST);
    assert!(filed.refused.is_empty());
    assert_eq!(admit_findings("not-an-id", 0, 0, 0).unwrap_err().status, 400);
}

#[test]
fn refusals_are_a_fixed_vocabulary_and_never_quote_the_caller_back() {
    let filed = record_findings(
        &vec![Err(ThreadError::NotAParaphrase), Ok(())],
        &vec![Err(ThreadError::Unattributable), Err(ThreadError::UrlTooLong)],
        &vec![Err(ThreadError::ImagesFull)],
    );
    assert_eq!(filed.facts, 1);
    assert_eq!(filed.sources, 0);
    assert_eq!(filed.images, 0);
    assert_eq!(
        filed.refused,
        [
            "a fact must be a paraphrase, not fetched page text",
            "not an attributable http(s) source",
            "that URL is too long to record",
            "this thread already references the most images it can",
        ]
    );
    assert_eq!(refusal_reason(&ThreadError::Empty), "nothing to record");
    assert_eq!(
        refusal_reason(&ThreadError::FactsFull),
        "this thread already holds the most findings it can"
    );
    assert_eq!(
        refusal_reason(&ThreadError::SourcesFull),
        "this thread already cites the most pages it can"
    );
}

#[test]
fn an_invented_session_id_gets_no_thread_slot_and_no_artifact() {
    let mut threads: LiveThreads<u32> = LiveThreads::new();
    let (real, invented) = (session(3), session(90));

    // The real session works, so the guard is not simply refusing everything.
    assert!(admit_findings(&real, 1, 0, 0).is_ok());
    let slot = threads.live_slot(&real, Ok(true), 7).expect("a real session has a slot");
    let live_before = threads.len();
    assert_eq!(live_before, 1);

    // Neither a findings request nor a promotion gets one for the other.
    assert!(admit_findings(&invented, 0, 0, 0).is_ok());
    let unknown = threads.live_slot(&invented, Ok(false), 8).unwrap_err();
    assert_eq!((unknown.status, unknown.title.as_str()), (404, "no such session"));
    assert!(admit_promotion(&invented).is_ok());
    assert_eq!(threads.live_slot(&invented, Ok(false), 8).unwrap_err().status, 404);
    for n in 0..=MAX_LIVE_THREADS {
        assert!(threads.live_slot(&session(90 + n), Ok(false), 9).is_err());
    }

    // No slot was allocated, and the real conversation's thread is untouched.
    assert_eq!(threads.len(), live_before);
    assert_eq!(*threads.state(slot), 7);

    // A register that cannot be read is no answer about the session.
    let down = Err(RepositoryError::Storage("pg: refused".to_owned()));
    let down = threads.live_slot(&invented, down, 8).unwrap_err();
    assert_eq!(down.status, 503);
    assert!(!down.title.contains("pg"));
    assert_eq!(threads.len(), live_before);
    assert!(live_session(Ok(true)).is_ok());
    assert_eq!(live_session(Ok(false)).unwrap_err().status, 404);
    assert_eq!(admit_promotion("x").unwrap_err().title, "session id is not a ULID");
}

#[test]
fn a_handoff_is_published_as_a_citation_and_nothing_executable() {
    let outcome = TurnOutcome {
        canvas: CanvasAction::Extend,
        offer: None,
        handoff: Some(SourceHandoffDto {
            url: "https://guide.example/ramen".to_owned(),
            domain: "guide.example".to_owned(),
        }),
    };
    let canvas = observe_turn(&session(7), "ramen places".to_owned(), outcome, &thread());
    assert_eq!(canvas.session_id.as_deref(), Some(session(7).as_str()));
    assert_eq!(canvas.action, CanvasActionDto::Extend);
    let handoff = canvas.handoff.expect("the citation is published");
    assert_eq!(handoff.url, "https://guide.example/ramen");
    assert_eq!(handoff.domain, "guide.example");
    assert_eq!(canvas.cards.len(), 1);
    match &canvas.cards[0] {
        HudCardDto::Sources { id, title, .. } => {
            assert_eq!(id, &format!("deepdive-sources-{}", session(7)));
            assert_eq!(title, "References");
        }
        _ => panic!("expected a sources card"),
    }
}

#[test]
fn a_topic_change_shelves_under_the_label_of_what_it_displaced() {
    let outcome = TurnOutcome { canvas: CanvasAction::Shelve, offer: None, handoff: None };
    let after = ThreadView {
        topic: "what's the weather tomorrow".to_owned(),
        sources: Vec::new(),
        gallery: Vec::new(),
    };
    let canvas =
        observe_turn(&session(3), "ramen places near Kreuzberg".to_owned(), outcome, &after);
    assert_eq!(canvas.action, CanvasActionDto::Shelve);
    assert_eq!(canvas.label, "ramen places near Kreuzberg");
    assert!(canvas.cards.is_empty());
}

#[test]
fn filing_findings_extends_the_canvas() {
    let canvas = findings_canvas(&session(4), &thread());
    assert_eq!(canvas.action, CanvasActionDto::Extend);
    assert_eq!(canvas.label, "ramen places");
    assert!(canvas.offer.is_none() && canvas.handoff.is_none());
}

#[test]
fn promotions_are_answered_by_what_became_of_them() {
    let promoted = |version| Promoted {
        artifact_id: session(1),
        version,
        sha256_hex: "ab".to_owned(),
    };
    assert!(promote(Ok(promoted(1))).unwrap().first_promotion);
    assert!(!promote(Ok(promoted(2))).unwrap().first_promotion);
    let p = promotion_problem(DeepDiveError::NothingToPromote);
    assert_eq!((p.status, p.code), (409, ErrorCode::DeepDiveNothingToPromote));
    let p = promotion_problem(DeepDiveError::VersionOverflow);
    assert_eq!((p.status, p.code), (409, ErrorCode::ResourceVersionConflict));
    let p = promotion_problem(DeepDiveError::Cancelled);
    assert_eq!((p.status, p.title.as_str()), (503, "the request was cancelled"));
    for e in [
        DeepDiveError::Blob("disk".to_owned()),
        DeepDiveError::Store("pg".to_owned()),
    ] {
        assert_eq!(promotion_problem(e).title, "storage unavailable");
    }
}
