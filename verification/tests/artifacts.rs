use jarvisd::appbridge::{
    actor_of, bridge_problem, context_of, exchanged, invoke, mint_token, minted, BridgeDenial,
    BridgeError, CapabilityResultDto,
};
use jarvisd::artifacts::{
    address, get_app_document, get_blob, list_versions, parse_version, serve_app_document,
    serve_blob, ArtifactKind, ArtifactManifest, ArtifactSource, ArtifactSourceKindDto,
    BlobStep, BlobStoreError, BuildNetwork, BuildProvenance, PrefixedChunks, ReplyHead,
    Sensitivity, APP_DOCUMENT_CSP, APP_DOCUMENT_PREFIX, APP_DOCUMENT_PREFIX_LEN,
};
use jarvisd::http::matches_tag;
use jarvisd::identity::{DeviceClass, DeviceContext};
use jarvisd::ids::{fresh_id, is_id};
use jarvisd::problem::{ErrorCode, RepositoryError};
use jarvisd::time::Timestamp;

fn manifest(kind: ArtifactKind) -> ArtifactManifest {
    ArtifactManifest {
        id: fresh_id(),
        version: 3,
        created_by_run: fresh_id(),
        sha256: "abc123".to_owned(),
        media_type: "text/markdown".to_owned(),
        kind,
        renderer: "markdown".to_owned(),
        sources: vec![ArtifactSource::Web { url: "https://example.com".to_owned() }],
        sensitivity: Sensitivity::Normal,
        build: BuildProvenance {
            worker_image: None,
            lockfile_hash: None,
            network: BuildNetwork::Disabled,
        },
        capabilities: vec!["lists".to_owned()],
    }
}

fn header<'a>(head: &'a ReplyHead, name: &str) -> Option<&'a str> {
    head.headers.iter().find(|h| h.name == name).map(|h| h.value.as_str())
}

#[test]
fn versions_count_from_one() {
    assert_eq!(parse_version("1"), Some(1));
    assert_eq!(parse_version("4294967295"), Some(u32::MAX));
    for bad in ["0", "-1", "4294967296", "", "1.0", "one"] {
        assert_eq!(parse_version(bad), None, "{bad}");
    }
    let id = fresh_id();
    assert_eq!(address(&id, "2").ok(), Some(2));
    assert_eq!(address(&id, "0").unwrap_err().title, "no such artifact version");
    assert_eq!(address("nope", "2").unwrap_err().title, "no such artifact");
}

#[test]
fn an_artifact_lists_its_versions() {
    let m = manifest(ArtifactKind::MarkdownHtml);
    let id = m.id.clone();
    let shown = list_versions(&id, Ok(vec![m])).expect("listed");
    assert_eq!(shown[0].version, 3);
    assert_eq!(shown[0].sources[0].kind, ArtifactSourceKindDto::Web);
    assert_eq!(shown[0].sources[0].reference, "https://example.com");
    assert_eq!(list_versions(&id, Ok(Vec::new())).unwrap_err().status, 404);
    assert_eq!(list_versions("nope", Ok(Vec::new())).unwrap_err().status, 404);
    let down = Err(RepositoryError::Storage("pg".to_owned()));
    assert_eq!(list_versions(&id, down).unwrap_err().status, 503);
}

#[test]
fn a_blob_is_a_download_and_validates_by_its_hash() {
    let m = manifest(ArtifactKind::MarkdownHtml);
    let head = serve_blob(&m, Ok(Some(42))).ok().expect("served");
    assert_eq!(head.status, 200);
    assert_eq!(header(&head, "content-type"), Some("text/markdown"));
    assert_eq!(header(&head, "content-length"), Some("42"));
    assert_eq!(header(&head, "content-disposition"), Some("attachment"));
    assert_eq!(header(&head, "x-content-type-options"), Some("nosniff"));
    assert_eq!(header(&head, "etag"), Some("\"abc123\""));

    match get_blob(Ok(Some(manifest(ArtifactKind::Image))), Some("\"other\", \"abc123\"")) {
        BlobStep::NotModified(head) => assert_eq!(head.status, 304),
        _ => panic!("the client holds these bytes"),
    }
    assert!(matches!(
        get_blob(Ok(Some(manifest(ArtifactKind::Image))), Some("\"other\"")),
        BlobStep::Open(_)
    ));
    assert!(matches!(get_blob(Ok(None), None), BlobStep::Refused(_)));
    assert!(matches_tag("*", "\"abc123\""));
}

#[test]
fn a_blob_that_fails_verification_yields_nothing() {
    let m = manifest(ArtifactKind::Bundle);
    let broken = serve_blob(&m, Err(BlobStoreError::IntegrityMismatch)).err().expect("refused");
    assert_eq!((broken.status, broken.code), (500, ErrorCode::ArtifactIntegrityFailed));
    let large = serve_app_document(&m, Err(BlobStoreError::TooLarge { len: 9, max: 8 }));
    assert_eq!(large.err().expect("refused").code, ErrorCode::ArtifactTooLarge);
    let io = serve_blob(&m, Err(BlobStoreError::Io("disk".to_owned()))).err().expect("refused");
    assert_eq!(io.status, 503);
    assert_eq!(serve_blob(&m, Ok(None)).err().expect("refused").status, 404);
}

#[test]
fn an_app_renders_under_its_policy_and_nothing_else_does() {
    let m = get_app_document(Ok(Some(manifest(ArtifactKind::Bundle)))).expect("an app");
    let head = serve_app_document(&m, Ok(Some(100))).ok().expect("served");
    assert_eq!(header(&head, "content-security-policy"), Some(APP_DOCUMENT_CSP));
    assert_eq!(header(&head, "content-type"), Some("text/html; charset=utf-8"));
    let total = 100 + APP_DOCUMENT_PREFIX.len();
    assert_eq!(header(&head, "content-length"), Some(total.to_string().as_str()));
    assert_eq!(APP_DOCUMENT_PREFIX.len() as u64, APP_DOCUMENT_PREFIX_LEN);
    for kind in [ArtifactKind::MarkdownHtml, ArtifactKind::CodeText, ArtifactKind::Chart] {
        assert_eq!(get_app_document(Ok(Some(manifest(kind)))).unwrap_err().status, 404);
    }
    let mut chunks = PrefixedChunks::new(APP_DOCUMENT_PREFIX.as_bytes().to_vec());
    assert_eq!(chunks.take_prefix().as_deref(), Some(APP_DOCUMENT_PREFIX.as_bytes()));
    assert_eq!(chunks.take_prefix(), None);
}

#[test]
fn the_bridge_reads_paths_and_widens_nothing() {
    let app = fresh_id();
    assert_eq!(mint_token(&app, "2").ok(), Some(2));
    assert_eq!(mint_token(&app, "0").unwrap_err().title, "no such app version");
    assert_eq!(mint_token("nope", "2").unwrap_err().title, "no such app");
    assert_eq!(invoke(&app, "2", true).ok(), Some(2));
    assert_eq!(invoke(&app, "2", false).unwrap_err().code, ErrorCode::AppTokenRejected);

    let device = DeviceContext {
        device_id: fresh_id(),
        user_id: fresh_id(),
        class: DeviceClass::OwnerUi,
        scopes: vec!["ui".to_owned(), "b a d".to_owned()],
    };
    let context = context_of(&device, &vec![true, false]);
    assert_eq!(context.granted_scopes, ["ui"]);
    assert_eq!(context.device_id, device.device_id);
    let actor = actor_of(&device);
    assert!(is_id(&actor.run_id));
    assert_ne!(actor.run_id, actor_of(&device).run_id);
}

#[test]
fn a_refused_app_learns_only_that_it_was() {
    let token = |why: &str| {
        bridge_problem(BridgeError::Denied(BridgeDenial::Token(why.to_owned())))
    };
    assert_eq!(token("expired").title, token("other device").title);
    assert_eq!(token("expired").code, ErrorCode::AppTokenRejected);
    assert!(token("expired").detail.is_none());
    let of = |denial| bridge_problem(BridgeError::Denied(denial));
    assert_eq!(
        of(BridgeDenial::UndeclaredCapability("x".to_owned())).code,
        ErrorCode::AppUndeclaredCapability
    );
    assert_eq!(of(BridgeDenial::UnknownApp).status, 404);
    assert_eq!(of(BridgeDenial::NotAnApp(ArtifactKind::Image)).status, 404);
    assert_eq!(of(BridgeDenial::InvalidTarget).code, ErrorCode::AppInvalidRequest);
    assert_eq!(bridge_problem(BridgeError::Policy("p".to_owned())).code, ErrorCode::PolicyDenied);
    assert_eq!(bridge_problem(BridgeError::NotApproved).status, 403);
    assert_eq!(bridge_problem(BridgeError::Grant("g".to_owned())).code, ErrorCode::GrantExpired);
    assert_eq!(
        bridge_problem(BridgeError::GrantRejected("g".to_owned())).code,
        ErrorCode::GrantExpired
    );
    assert_eq!(bridge_problem(BridgeError::Tool("t".to_owned())).status, 502);
    assert_eq!(bridge_problem(BridgeError::Cancelled).code, ErrorCode::DegradedQueued);
    assert_eq!(bridge_problem(BridgeError::Storage).status, 503);
}

#[test]
fn the_bridge_answers_with_the_token_or_the_result() {
    let token = minted("weather.read", Ok(("T".to_owned(), Timestamp { nanos: 0 })))
        .ok()
        .expect("a token");
    assert_eq!(token.capability, "weather.read");
    assert_eq!((token.token.as_str(), token.expires_at.as_str()), ("T", "1970-01-01T00:00:00Z"));
    assert_eq!(minted("c", Err(BridgeError::Storage)).err().expect("a problem").status, 503);
    let done = CapabilityResultDto { content: "21 C".to_owned(), truncated: true };
    let answer = exchanged(Ok(done)).ok().expect("a result");
    assert!(answer.content == "21 C" && answer.truncated);
    let failed = exchanged(Err(BridgeError::Tool("secret".to_owned()))).err().expect("a problem");
    assert_eq!((failed.status, failed.title.as_str()), (502, "the operation failed"));
}
