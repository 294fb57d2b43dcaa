//! Reading artifacts: the versions of one, the bytes of a version, and the
//! document of a generated app.
//!
//! Artifact bytes derive from untrusted input and are served from the origin of
//! the control surface. The blob route therefore never lets them render; the app
//! route renders one kind only, under a policy that comes first.

use vstd::prelude::*;

use crate::http;
use crate::http::Header;
use crate::ids;
use crate::problem;
use crate::problem::{ErrorCode, ProblemDetails, RepositoryError};
use crate::text;

verus! {

#[derive(Debug, Clone, Copy, PartialEq, Eq, Structural)]
pub enum ArtifactKind {
    MarkdownHtml,
    CodeText,
    Image,
    Chart,
    Bundle,
}

impl ArtifactKind {
    /// Every kind has exactly one render path; a bundle's is the app sandbox.
    pub fn renders_in_app_sandbox(self) -> (b: bool)
        ensures
            b == (self == ArtifactKind::Bundle),
    {
        self == ArtifactKind::Bundle
    }
}

#[derive(Debug, Clone, Copy, PartialEq, Eq, Structural)]
pub enum Sensitivity {
    Normal,
    Sensitive,
}

#[derive(Debug, Clone, Copy, PartialEq, Eq, Structural)]
pub enum BuildNetwork {
    Disabled,
    Enabled,
}

/// What an artifact was made from.
#[derive(Debug)]
pub enum ArtifactSource {
    Message(String),
    Run(String),
    Web { url: String },
}

/// How an artifact was built.
#[derive(Debug)]
pub struct BuildProvenance {
    pub worker_image: Option<String>,
    pub lockfile_hash: Option<String>,
    pub network: BuildNetwork,
}

/// A version of an artifact and where it came from.
#[derive(Debug)]
pub struct ArtifactManifest {
    pub id: String,
    pub version: u32,
    pub created_by_run: String,
    /// The content hash, in hexadecimal.
    pub sha256: String,
    pub media_type: String,
    pub kind: ArtifactKind,
    pub renderer: String,
    pub sources: Vec<ArtifactSource>,
    pub sensitivity: Sensitivity,
    pub build: BuildProvenance,
    pub capabilities: Vec<String>,
}

pub fn repository_problem(error: RepositoryError) -> (p: ProblemDetails)
    ensures
        p@ == problem::merged_problem(error, "artifact version conflict"@, "storage unavailable"@),
{
    problem::repository_problem_merged_idempotency(
        error,
        "artifact",
        "artifact version conflict",
        "storage unavailable",
    )
}

// ---------------------------------------------------------------------------
// Addresses
// ---------------------------------------------------------------------------

/// The version that a path segment names. Versions count from one.
pub open spec fn version_named(s: Seq<char>) -> Option<u32> {
    match text::unsigned_number(s) {
        Some(n) => if 0 < n <= u32::MAX {
            Some(n as u32)
        } else {
            None
        },
        None => None,
    }
}

pub fn parse_version(s: &str) -> (r: Option<u32>)
    ensures
        r == version_named(s@),
{
    match text::parse_unsigned(s, u32::MAX as u64) {
        Some(n) => if n == 0 {
            None
        } else {
            Some(n as u32)
        },
        None => None,
    }
}

pub open spec fn not_found_view(title: Seq<char>) -> problem::ProblemView {
    problem::problem_of(404, ErrorCode::ResourceNotFound, title, None)
}

/// The version that a path addresses, or what is answered.
pub open spec fn addressed(id: Seq<char>, version: Seq<char>) -> Result<u32, problem::ProblemView> {
    if !ids::is_ulid(id) {
        Err(not_found_view("no such artifact"@))
    } else {
        match version_named(version) {
            Some(v) => Ok(v),
            None => Err(not_found_view("no such artifact version"@)),
        }
    }
}

/// Read the path of a version. A malformed segment names nothing.
pub fn address(id: &str, version: &str) -> (r: Result<u32, ProblemDetails>)
    ensures
        match (r, addressed(id@, version@)) {
            (Ok(v), Ok(w)) => v == w,
            (Err(e), Err(p)) => e@ == p,
            _ => false,
        },
{
    if !ids::is_id(id) {
        return Err(problem::not_found("no such artifact"));
    }
    match parse_version(version) {
        Some(v) => Ok(v),
        None => Err(problem::not_found("no such artifact version")),
    }
}

/// What became of looking a version up.
pub open spec fn looked_up(found: Result<Option<ArtifactManifest>, RepositoryError>) -> Result<
    ArtifactManifest,
    problem::ProblemView,
> {
    match found {
        Err(e) => Err(
            problem::merged_problem(e, "artifact version conflict"@, "storage unavailable"@),
        ),
        Ok(None) => Err(not_found_view("no such artifact version"@)),
        Ok(Some(m)) => Ok(m),
    }
}

fn manifest_of(found: Result<Option<ArtifactManifest>, RepositoryError>) -> (r: Result<
    ArtifactManifest,
    ProblemDetails,
>)
    ensures
        match (r, looked_up(found)) {
            (Ok(m), Ok(n)) => m == n,
            (Err(e), Err(p)) => e@ == p,
            _ => false,
        },
{
    match found {
        Err(e) => Err(repository_problem(e)),
        Ok(None) => Err(problem::not_found("no such artifact version")),
        Ok(Some(m)) => Ok(m),
    }
}

// ---------------------------------------------------------------------------
// Versions
// ---------------------------------------------------------------------------

#[derive(Debug, Clone, Copy, PartialEq, Eq, Structural)]
pub enum ArtifactSourceKindDto {
    Message,
    Run,
    Web,
}

#[derive(Debug)]
pub struct ArtifactSourceDto {
    pub kind: ArtifactSourceKindDto,
    pub reference: String,
}

/// A manifest as it is shown.
#[derive(Debug)]
pub struct ArtifactManifestDto {
    pub id: String,
    pub version: u32,
    pub created_by_run: String,
    pub sha256: String,
    pub media_type: String,
    pub kind: ArtifactKind,
    pub renderer: String,
    pub sources: Vec<ArtifactSourceDto>,
    pub sensitivity: Sensitivity,
    pub build: BuildProvenance,
    pub capabilities: Vec<String>,
}

pub open spec fn shows_source(dto: ArtifactSourceDto, s: ArtifactSource) -> bool {
    match s {
        ArtifactSource::Message(id) => dto.kind == ArtifactSourceKindDto::Message && dto.reference@
            == id@,
        ArtifactSource::Run(id) => dto.kind == ArtifactSourceKindDto::Run && dto.reference@ == id@,
        ArtifactSource::Web { url } => dto.kind == ArtifactSourceKindDto::Web && dto.reference@
            == url@,
    }
}

pub fn source_dto(s: &ArtifactSource) -> (dto: ArtifactSourceDto)
    ensures
        shows_source(dto, *s),
{
    match s {
        ArtifactSource::Message(id) => ArtifactSourceDto {
            kind: ArtifactSourceKindDto::Message,
            reference: id.clone(),
        },
        ArtifactSource::Run(id) => ArtifactSourceDto {
            kind: ArtifactSourceKindDto::Run,
            reference: id.clone(),
        },
        ArtifactSource::Web { url } => ArtifactSourceDto {
            kind: ArtifactSourceKindDto::Web,
            reference: url.clone(),
        },
    }
}

/// Whether a shown manifest says what the stored one does.
pub open spec fn shows(dto: ArtifactManifestDto, m: ArtifactManifest) -> bool {
    &&& dto.id@ == m.id@
    &&& dto.version == m.version
    &&& dto.created_by_run@ == m.created_by_run@
    &&& dto.sha256@ == m.sha256@
    &&& dto.media_type@ == m.media_type@
    &&& dto.kind == m.kind
    &&& dto.renderer@ == m.renderer@
    &&& dto.sources@.len() == m.sources@.len()
    &&& forall|i: int|
        0 <= i < m.sources@.len() ==> shows_source(#[trigger] dto.sources@[i], m.sources@[i])
    &&& dto.sensitivity == m.sensitivity
    &&& text::opt_view(dto.build.worker_image) == text::opt_view(m.build.worker_image)
    &&& text::opt_view(dto.build.lockfile_hash) == text::opt_view(m.build.lockfile_hash)
    &&& dto.build.network == m.build.network
    &&& text::views(dto.capabilities@) == text::views(m.capabilities@)
}

pub fn to_manifest_dto(m: &ArtifactManifest) -> (dto: ArtifactManifestDto)
    ensures
        shows(dto, *m),
{
    let mut sources: Vec<ArtifactSourceDto> = Vec::new();
    let mut i: usize = 0;
    while i < m.sources.len()
        invariant
            i <= m.sources@.len(),
            sources@.len() == i,
            forall|k: int|
                0 <= k < i ==> shows_source(#[trigger] sources@[k], m.sources@[k]),
        decreases m.sources@.len() - i,
    {
        sources.push(source_dto(&m.sources[i]));
        i = i + 1;
    }
    ArtifactManifestDto {
        id: m.id.clone(),
        version: m.version,
        created_by_run: m.created_by_run.clone(),
        sha256: m.sha256.clone(),
        media_type: m.media_type.clone(),
        kind: m.kind,
        renderer: m.renderer.clone(),
        sources,
        sensitivity: m.sensitivity,
        build: BuildProvenance {
            worker_image: text::copy_opt(&m.build.worker_image),
            lockfile_hash: text::copy_opt(&m.build.lockfile_hash),
            network: m.build.network,
        },
        capabilities: text::copy_texts(&m.capabilities),
    }
}

/// All versions of an artifact, in the order in which the store lists them. An
/// artifact without versions is not found: the identifier names nothing.
pub fn list_versions(id: &str, stored: Result<Vec<ArtifactManifest>, RepositoryError>) -> (r:
    Result<Vec<ArtifactManifestDto>, ProblemDetails>)
    ensures
        lists_versions(id@, stored, r),
        !ids::is_ulid(id@) ==> (r matches Err(p) && p@ == not_found_view("no such artifact"@)),
        ids::is_ulid(id@) ==> match stored {
            Err(e) => r matches Err(p) && p@ == problem::merged_problem(
                e,
                "artifact version conflict"@,
                "storage unavailable"@,
            ),
            Ok(all) => if all@.len() == 0 {
                r matches Err(p) && p@ == not_found_view("no such artifact"@)
            } else {
                r matches Ok(shown) && shown@.len() == all@.len() && forall|i: int|
                    0 <= i < all@.len() ==> shows(#[trigger] shown@[i], all@[i])
            },
        },
{
    if !ids::is_id(id) {
        return Err(problem::not_found("no such artifact"));
    }
    let all = match stored {
        Ok(v) => v,
        Err(e) => {
            return Err(repository_problem(e));
        },
    };
    if all.len() == 0 {
        return Err(problem::not_found("no such artifact"));
    }
    let mut shown: Vec<ArtifactManifestDto> = Vec::new();
    let mut i: usize = 0;
    while i < all.len()
        invariant
            i <= all@.len(),
            shown@.len() == i,
            forall|k: int| 0 <= k < i ==> shows(#[trigger] shown@[k], all@[k]),
        decreases all@.len() - i,
    {
        shown.push(to_manifest_dto(&all[i]));
        i = i + 1;
    }
    Ok(shown)
}

// ---------------------------------------------------------------------------
// Blobs
// ---------------------------------------------------------------------------

/// What the blob store reports of a failure.
#[derive(Debug)]
pub enum BlobStoreError {
    IntegrityMismatch,
    TooLarge { len: u64, max: u64 },
    Io(String),
}

/// What opening a blob came to: its length, or what is answered. No failure
/// yields any bytes, and nothing is ever truncated.
pub open spec fn opened_as(
    opened: Result<Option<u64>, BlobStoreError>,
    missing: Seq<char>,
) -> Result<u64, problem::ProblemView> {
    match opened {
        Ok(Some(len)) => Ok(len),
        Ok(None) => Err(not_found_view(missing)),
        Err(BlobStoreError::IntegrityMismatch) => Err(
            problem::problem_of(
                500,
                ErrorCode::ArtifactIntegrityFailed,
                "artifact blob failed integrity verification"@,
                None,
            ),
        ),
        Err(BlobStoreError::TooLarge { len, max }) => Err(
            problem::problem_of(
                413,
                ErrorCode::ArtifactTooLarge,
                "artifact blob exceeds the served-size limit"@,
                None,
            ),
        ),
        Err(BlobStoreError::Io(_)) => Err(
            problem::problem_of(
                503,
                ErrorCode::ProviderUnavailable,
                "storage unavailable"@,
                None,
            ),
        ),
    }
}

fn opened_len(opened: Result<Option<u64>, BlobStoreError>, missing: &str) -> (r: Result<
    u64,
    ProblemDetails,
>)
    ensures
        match (r, opened_as(opened, missing@)) {
            (Ok(n), Ok(m)) => n == m,
            (Err(e), Err(p)) => e@ == p,
            _ => false,
        },
{
    match opened {
        Ok(Some(len)) => Ok(len),
        Ok(None) => Err(problem::not_found(missing)),
        Err(e) => match e {
            BlobStoreError::IntegrityMismatch => Err(
                problem::problem(
                    500,
                    ErrorCode::ArtifactIntegrityFailed,
                    "artifact blob failed integrity verification",
                    None,
                ),
            ),
            BlobStoreError::TooLarge { len: _, max: _ } => Err(
                problem::problem(
                    413,
                    ErrorCode::ArtifactTooLarge,
                    "artifact blob exceeds the served-size limit",
                    None,
                ),
            ),
            BlobStoreError::Io(_) => Err(problem::unavailable("storage unavailable")),
        },
    }
}

/// A response without its body.
pub struct ReplyHead {
    pub status: u16,
    pub headers: Vec<Header>,
}

/// What a request for a blob comes to once the manifest was looked up.
pub enum BlobStep {
    Refused(ProblemDetails),
    /// The client holds these bytes already.
    NotModified(ReplyHead),
    /// Open the blob with the manifest's hash.
    Open(ArtifactManifest),
}

/// The content hash is a strong validator: the bytes behind it never change.
pub open spec fn etag_of(m: ArtifactManifest) -> Seq<char> {
    http::quoted_tag(m.sha256@)
}

fn etag(m: &ArtifactManifest) -> (s: String)
    ensures
        s@ == etag_of(*m),
{
    text::concat3("\"", m.sha256.as_str(), "\"")
}

/// Decide a request for a blob. `if_none_match` is the conditional header where
/// it was sent as text.
pub fn get_blob(
    found: Result<Option<ArtifactManifest>, RepositoryError>,
    if_none_match: Option<&str>,
) -> (step: BlobStep)
    ensures
        steps_to_blob(found, if_none_match, step),
        match looked_up(found) {
            Err(p) => step matches BlobStep::Refused(e) && e@ == p,
            Ok(m) => if if_none_match matches Some(h) && http::names_tag(h@, etag_of(m)) {
                step matches BlobStep::NotModified(head) && head.status == 304 && http::headers_of(
                    head.headers@,
                ) == seq![("etag"@, etag_of(m))]
            } else {
                step == BlobStep::Open(m)
            },
        },
{
    let manifest = match manifest_of(found) {
        Ok(m) => m,
        Err(p) => {
            return BlobStep::Refused(p);
        },
    };
    let tag = etag(&manifest);
    if let Some(header) = if_none_match {
        if http::matches_tag(header, tag.as_str()) {
            let mut headers = http::no_headers();
            http::put(&mut headers, "etag", tag.as_str());
            assert(http::headers_of(headers@) =~= seq![("etag"@, etag_of(manifest))]);
            return BlobStep::NotModified(ReplyHead { status: 304, headers });
        }
    }
    BlobStep::Open(manifest)
}

pub open spec fn blob_headers(m: ArtifactManifest, len: u64) -> Seq<(Seq<char>, Seq<char>)> {
    seq![
        ("content-type"@, m.media_type@),
        ("content-length"@, text::decimal(len as nat)),
        ("etag"@, etag_of(m)),
        ("x-content-type-options"@, "nosniff"@),
        ("content-disposition"@, "attachment"@),
        ("cache-control"@, "private, immutable"@),
    ]
}

/// The head of a served blob: the declared type is pinned and the bytes are a
/// download, never an inline document.
pub fn serve_blob(m: &ArtifactManifest, opened: Result<Option<u64>, BlobStoreError>) -> (r: Result<
    ReplyHead,
    ProblemDetails,
>)
    ensures
        serves_blob(*m, opened, r),
        match (r, opened_as(opened, "artifact blob is unavailable"@)) {
            (Ok(head), Ok(len)) => head.status == 200 && http::headers_of(head.headers@)
                == blob_headers(*m, len),
            (Err(e), Err(p)) => e@ == p,
            _ => false,
        },
{
    let len: u64 = match opened_len(opened, "artifact blob is unavailable") {
        Ok(n) => n,
        Err(p) => {
            return Err(p);
        },
    };
    let size = text::decimal_of(len);
    let tag = etag(m);
    let mut headers = http::no_headers();
    http::put(&mut headers, "content-type", m.media_type.as_str());
    http::put(&mut headers, "content-length", size.as_str());
    http::put(&mut headers, "etag", tag.as_str());
    http::put(&mut headers, "x-content-type-options", "nosniff");
    http::put(&mut headers, "content-disposition", "attachment");
    http::put(&mut headers, "cache-control", "private, immutable");
    assert(http::headers_of(headers@) =~= blob_headers(*m, len));
    Ok(ReplyHead { status: 200, headers })
}

// ---------------------------------------------------------------------------
// App documents
// ---------------------------------------------------------------------------

/// The policy that a generated app is rendered under, as a response header.
/// `default-src 'none'` denies whatever is not named, so an app cannot reach the
/// network; `sandbox` forces an opaque origin.
pub const APP_DOCUMENT_CSP: &'static str = "sandbox allow-scripts; default-src 'none'; script-src 'unsafe-inline'; style-src 'unsafe-inline'; img-src data:; font-src data:; connect-src 'none'; form-action 'none'; base-uri 'none'; frame-ancestors 'self'";

/// The markup that stands before the bundle: the same policy without the
/// directives that a `<meta>` may not carry.
pub const APP_DOCUMENT_PREFIX: &'static str = "<meta http-equiv=\"Content-Security-Policy\" content=\"default-src 'none'; script-src 'unsafe-inline'; style-src 'unsafe-inline'; img-src data:; font-src data:; connect-src 'none'; form-action 'none'; base-uri 'none'\">\n";

/// The bytes of the prefix.
pub const APP_DOCUMENT_PREFIX_LEN: u64 = 216;

/// What a request for an app document comes to once the manifest was looked up.
pub open spec fn app_manifest(found: Result<Option<ArtifactManifest>, RepositoryError>) -> Result<
    ArtifactManifest,
    problem::ProblemView,
> {
    match looked_up(found) {
        Err(p) => Err(p),
        Ok(m) => if m.kind == ArtifactKind::Bundle {
            Ok(m)
        } else {
            Err(not_found_view("this artifact is not a generated app"@))
        },
    }
}

/// Decide a request for an app document: the manifest whose blob is to be
/// opened. No other kind becomes executable by being asked for as an app.
pub fn get_app_document(found: Result<Option<ArtifactManifest>, RepositoryError>) -> (r: Result<
    ArtifactManifest,
    ProblemDetails,
>)
    ensures
        match (r, app_manifest(found)) {
            (Ok(m), Ok(n)) => m == n,
            (Err(e), Err(p)) => e@ == p,
            _ => false,
        },
{
    let manifest = match manifest_of(found) {
        Ok(m) => m,
        Err(p) => {
            return Err(p);
        },
    };
    if !manifest.kind.renders_in_app_sandbox() {
        return Err(problem::not_found("this artifact is not a generated app"));
    }
    Ok(manifest)
}

pub open spec fn app_headers(m: ArtifactManifest, len: u64) -> Seq<(Seq<char>, Seq<char>)> {
    seq![
        ("content-type"@, "text/html; charset=utf-8"@),
        ("content-length"@, text::decimal(len as nat + text::bytes_in(APP_DOCUMENT_PREFIX@))),
        ("etag"@, etag_of(m)),
        ("x-content-type-options"@, "nosniff"@),
        ("content-security-policy"@, APP_DOCUMENT_CSP@),
        ("cache-control"@, "private, immutable"@),
    ]
}

/// The prefix is ASCII, so its characters are its bytes.
proof fn lemma_prefix_len()
    ensures
        text::bytes_in(APP_DOCUMENT_PREFIX@) == APP_DOCUMENT_PREFIX_LEN,
{
    reveal_strlit(
        "<meta http-equiv=\"Content-Security-Policy\" content=\"default-src 'none'; script-src 'unsafe-inline'; style-src 'unsafe-inline'; img-src data:; font-src data:; connect-src 'none'; form-action 'none'; base-uri 'none'\">\n",
    );
    let p = APP_DOCUMENT_PREFIX@;
    assert(p.len() == APP_DOCUMENT_PREFIX_LEN);
    assert(vstd::utf8::is_ascii_chars(p));
    vstd::utf8::is_ascii_chars_encode_utf8(p);
}

/// The head of a served app document; the body is what [`PrefixedChunks`] emits.
pub fn serve_app_document(m: &ArtifactManifest, opened: Result<Option<u64>, BlobStoreError>) -> (r:
    Result<ReplyHead, ProblemDetails>)
    requires
        opened matches Ok(Some(len)) ==> len <= u64::MAX - APP_DOCUMENT_PREFIX_LEN,
    ensures
        match (r, opened_as(opened, "app bundle is unavailable"@)) {
            (Ok(head), Ok(len)) => head.status == 200 && http::headers_of(head.headers@)
                == app_headers(*m, len),
            (Err(e), Err(p)) => e@ == p,
            _ => false,
        },
{
    let len: u64 = match opened_len(opened, "app bundle is unavailable") {
        Ok(n) => n,
        Err(p) => {
            return Err(p);
        },
    };
    proof {
        lemma_prefix_len();
    }
    let total = text::decimal_of(len + APP_DOCUMENT_PREFIX_LEN);
    let tag = etag(m);
    let mut headers = http::no_headers();
    http::put(&mut headers, "content-type", "text/html; charset=utf-8");
    http::put(&mut headers, "content-length", total.as_str());
    http::put(&mut headers, "etag", tag.as_str());
    http::put(&mut headers, "x-content-type-options", "nosniff");
    http::put(&mut headers, "content-security-policy", APP_DOCUMENT_CSP);
    http::put(&mut headers, "cache-control", "private, immutable");
    assert(http::headers_of(headers@) =~= app_headers(*m, len));
    Ok(ReplyHead { status: 200, headers })
}

/// A prefix that is emitted once, before the chunks of a verified blob. That the
/// blob stands behind it is what makes the policy the first thing parsed.
pub struct PrefixedChunks {
    prefix: Option<Vec<u8>>,
}

impl PrefixedChunks {
    /// What is still to come before the blob's own chunks.
    pub closed spec fn pending(self) -> Option<Seq<u8>> {
        match self.prefix {
            Some(v) => Some(v@),
            None => None,
        }
    }

    pub fn new(prefix: Vec<u8>) -> (s: Self)
        ensures
            s.pending() == Some(prefix@),
    {
        PrefixedChunks { prefix: Some(prefix) }
    }

    /// The prefix where it was not emitted yet; otherwise the next chunk is the
    /// blob's.
    pub fn take_prefix(&mut self) -> (r: Option<Vec<u8>>)
        ensures
            match r {
                Some(v) => old(self).pending() == Some(v@),
                None => old(self).pending() is None,
            },
            final(self).pending() is None,
    {
        let mut taken: Option<Vec<u8>> = None;
        std::mem::swap(&mut taken, &mut self.prefix);
        taken
    }
}

/// Whatever is stored, a blob is served as a download whose declared type is
/// pinned.
pub proof fn law_blobs_never_render(m: ArtifactManifest, len: u64)
    ensures
        blob_headers(m, len).contains(("content-disposition"@, "attachment"@)),
        blob_headers(m, len).contains(("x-content-type-options"@, "nosniff"@)),
{
    assert(blob_headers(m, len)[4] == ("content-disposition"@, "attachment"@));
    assert(blob_headers(m, len)[3] == ("x-content-type-options"@, "nosniff"@));
}

/// An app document is served under the policy, and only of a bundle.
pub proof fn law_apps_render_under_the_policy(
    found: Result<Option<ArtifactManifest>, RepositoryError>,
    len: u64,
)
    ensures
        app_manifest(found) matches Ok(m) ==> m.kind == ArtifactKind::Bundle && app_headers(
            m,
            len,
        ).contains(("content-security-policy"@, APP_DOCUMENT_CSP@)),
{
    if let Ok(m) = app_manifest(found) {
        assert(app_headers(m, len)[4] == ("content-security-policy"@, APP_DOCUMENT_CSP@));
    }
}

/// A blob that failed verification, or is too large, yields no head and no
/// bytes, on either route.
pub proof fn law_failed_blobs_yield_nothing(
    opened: Result<Option<u64>, BlobStoreError>,
    missing: Seq<char>,
)
    ensures
        opened_as(opened, missing) is Ok <==> (opened matches Ok(Some(len))),
{
}

/// A version is named by its number in decimal, from one on; nothing names a
/// version zero.
pub proof fn law_versions_are_named_by_their_number(n: nat, s: Seq<char>)
    ensures
        0 < n <= u32::MAX ==> version_named(text::decimal(n)) == Some(n as u32),
        version_named(s) matches Some(v) ==> v >= 1 && (text::plain_number(s) == Some(v as nat)
            || text::stripped(s, "+"@) is Some),
        text::plain_number(s) == Some(0nat) ==> version_named(s) is None,
{
    text::lemma_plain_has_no_sign(s);
    if 0 < n <= u32::MAX {
        text::law_decimal_round_trip(n);
        text::lemma_plain_has_no_sign(text::decimal(n));
    }
}

/// An artifact is addressed exactly by an id and a version; whatever else is
/// asked for is not found.
pub proof fn law_artifacts_are_addressed_by_id_and_version(id: Seq<char>, version: Seq<char>)
    ensures
        addressed(id, version) is Ok <==> ids::is_ulid(id) && version_named(version) is Some,
        addressed(id, version) matches Ok(v) ==> version_named(version) == Some(v),
        addressed(id, version) matches Err(p) ==> p.status == 404,
{
}

/// A manifest is served exactly where the store has it, and it is that one. An
/// app is served exactly where the manifest is that of a bundle. What is missing
/// is not found, a race is a conflict, and a broken store is an outage.
pub proof fn law_manifests_are_served_as_stored(
    found: Result<Option<ArtifactManifest>, RepositoryError>,
)
    ensures
        looked_up(found) is Ok <==> (found matches Ok(Some(_))),
        looked_up(found) matches Ok(m) ==> found == Ok::<Option<ArtifactManifest>, RepositoryError>(
            Some(m),
        ),
        app_manifest(found) is Ok <==> (found matches Ok(Some(m)) && m.kind is Bundle),
        app_manifest(found) matches Ok(m) ==> found == Ok::<
            Option<ArtifactManifest>,
            RepositoryError,
        >(Some(m)),
        looked_up(found) matches Err(p) ==> p.status == (match found {
            Err(RepositoryError::Storage(_)) => 503u16,
            Err(_) => 409u16,
            Ok(_) => 404u16,
        }),
        app_manifest(found) matches Err(p) ==> p.status == (match found {
            Err(RepositoryError::Storage(_)) => 503u16,
            Err(_) => 409u16,
            Ok(_) => 404u16,
        }),
{
}

/// Where an artifact comes from is shown as it is: a message, a run or a page of
/// the web, under its own reference.
pub proof fn law_sources_are_shown_as_they_are(
    dto: ArtifactSourceDto,
    a: ArtifactSource,
    b: ArtifactSource,
)
    requires
        shows_source(dto, a),
        shows_source(dto, b),
    ensures
        a is Message <==> b is Message,
        a is Run <==> b is Run,
        a is Web <==> b is Web,
        a matches ArtifactSource::Message(id) ==> dto.reference@ == id@,
        a matches ArtifactSource::Run(id) ==> dto.reference@ == id@,
        a matches ArtifactSource::Web { url } ==> dto.reference@ == url@,
        dto.kind is Message <==> a is Message,
        dto.kind is Run <==> a is Run,
{
}

/// A shown manifest is the stored one, part for part, and its sources stand in
/// their order.
pub proof fn law_a_shown_manifest_is_the_stored_one(
    dto: ArtifactManifestDto,
    m: ArtifactManifest,
    i: int,
)
    requires
        shows(dto, m),
    ensures
        dto.id@ == m.id@ && dto.version == m.version && dto.created_by_run@ == m.created_by_run@,
        dto.sha256@ == m.sha256@ && dto.media_type@ == m.media_type@ && dto.kind == m.kind,
        dto.renderer@ == m.renderer@ && dto.sensitivity == m.sensitivity,
        dto.build.network == m.build.network,
        text::views(dto.capabilities@) == text::views(m.capabilities@),
        dto.sources@.len() == m.sources@.len(),
        0 <= i < m.sources@.len() ==> shows_source(dto.sources@[i], m.sources@[i]),
{
}

/// A blob that could not be opened is answered by why: it is not there, it is
/// not what it was, it is too large, or the store is broken. One that was opened
/// has the length that the store gave.
pub proof fn law_blob_faults_are_told_apart(
    opened: Result<Option<u64>, BlobStoreError>,
    missing: Seq<char>,
)
    ensures
        opened matches Ok(Some(len)) ==> opened_as(opened, missing) == Ok::<
            u64,
            problem::ProblemView,
        >(len),
        opened_as(opened, missing) matches Err(p) ==> p.status == (match opened {
            Err(BlobStoreError::IntegrityMismatch) => 500u16,
            Err(BlobStoreError::TooLarge { len, max }) => 413u16,
            Err(BlobStoreError::Io(_)) => 503u16,
            Ok(_) => 404u16,
        }),
        opened is Ok ==> (opened_as(opened, missing) matches Err(p) ==> p.title == missing),
{
}

/// A blob and an app are served with the length of what follows, and under a
/// validator that is their content's hash, so that two with one validator have
/// the same content. A blob keeps its own type; an app is a page whatever it
/// says.
pub proof fn law_served_artifacts_carry_their_headers(m: ArtifactManifest, n: ArtifactManifest, len: u64)
    ensures
        blob_headers(m, len).contains(("content-type"@, m.media_type@)),
        blob_headers(m, len).contains(("content-length"@, text::decimal(len as nat))),
        blob_headers(m, len).contains(("etag"@, "\""@ + m.sha256@ + "\""@)),
        blob_headers(m, len).contains(("cache-control"@, "private, immutable"@)),
        blob_headers(m, len).len() == 6,
        app_headers(m, len).contains(("content-type"@, "text/html; charset=utf-8"@)),
        app_headers(m, len).contains(
            ("content-length"@, text::decimal(len as nat + text::bytes_in(APP_DOCUMENT_PREFIX@))),
        ),
        app_headers(m, len).contains(("etag"@, "\""@ + m.sha256@ + "\""@)),
        app_headers(m, len).contains(("x-content-type-options"@, "nosniff"@)),
        app_headers(m, len).contains(("cache-control"@, "private, immutable"@)),
        app_headers(m, len).len() == 6,
        etag_of(m) == etag_of(n) ==> m.sha256@ == n.sha256@,
{
    let b = blob_headers(m, len);
    let a = app_headers(m, len);
    assert(b[0] == ("content-type"@, m.media_type@));
    assert(b[1] == ("content-length"@, text::decimal(len as nat)));
    assert(b[2] == ("etag"@, "\""@ + m.sha256@ + "\""@));
    assert(b[5] == ("cache-control"@, "private, immutable"@));
    assert(a[0] == ("content-type"@, "text/html; charset=utf-8"@));
    assert(a[1].0 == "content-length"@);
    assert(a[2] == ("etag"@, "\""@ + m.sha256@ + "\""@));
    assert(a[3] == ("x-content-type-options"@, "nosniff"@));
    assert(a[5] == ("cache-control"@, "private, immutable"@));
    if etag_of(m) == etag_of(n) {
        reveal_strlit("\"");
        let quote = "\""@;
        assert(quote.len() == 1);
        let x = quote + m.sha256@ + quote;
        let y = quote + n.sha256@ + quote;
        assert(x.len() == y.len());
        assert(x.subrange(1, x.len() - 1) =~= m.sha256@);
        assert(y.subrange(1, y.len() - 1) =~= n.sha256@);
    }
}

/// What a request for the versions of an artifact is answered with.
pub open spec fn lists_versions(
    id: Seq<char>,
    stored: Result<Vec<ArtifactManifest>, RepositoryError>,
    r: Result<Vec<ArtifactManifestDto>, ProblemDetails>,
) -> bool {
    if !ids::is_ulid(id) {
        r matches Err(p) && p@ == not_found_view("no such artifact"@)
    } else {
        match stored {
            Err(e) => r matches Err(p) && p@ == problem::merged_problem(
                e,
                "artifact version conflict"@,
                "storage unavailable"@,
            ),
            Ok(all) => if all@.len() == 0 {
                r matches Err(p) && p@ == not_found_view("no such artifact"@)
            } else {
                r matches Ok(shown) && shown@.len() == all@.len() && forall|i: int|
                    0 <= i < all@.len() ==> shows(#[trigger] shown@[i], all@[i])
            },
        }
    }
}

/// What a request for a blob leads to.
pub open spec fn steps_to_blob(
    found: Result<Option<ArtifactManifest>, RepositoryError>,
    if_none_match: Option<&str>,
    step: BlobStep,
) -> bool {
    match looked_up(found) {
        Err(p) => step matches BlobStep::Refused(e) && e@ == p,
        Ok(m) => if if_none_match matches Some(h) && http::names_tag(h@, etag_of(m)) {
            step matches BlobStep::NotModified(head) && head.status == 304 && http::headers_of(
                head.headers@,
            ) == seq![("etag"@, etag_of(m))]
        } else {
            step == BlobStep::Open(m)
        },
    }
}

/// An artifact's versions are listed exactly where it has any, all of them and in
/// their order; an artifact without one is not found.
pub proof fn law_versions_are_listed_in_their_order(
    id: Seq<char>,
    stored: Result<Vec<ArtifactManifest>, RepositoryError>,
    r: Result<Vec<ArtifactManifestDto>, ProblemDetails>,
    i: int,
)
    requires
        lists_versions(id, stored, r),
    ensures
        r is Ok <==> ids::is_ulid(id) && stored is Ok && stored->Ok_0@.len() > 0,
        r matches Ok(shown) ==> shown@.len() == stored->Ok_0@.len() && (0 <= i < shown@.len()
            ==> shown@[i].id@ == stored->Ok_0@[i].id@ && shown@[i].version
            == stored->Ok_0@[i].version && shown@[i].sha256@ == stored->Ok_0@[i].sha256@),
{
    if r is Ok {
        let shown = r->Ok_0;
        if 0 <= i < shown@.len() {
            assert(shows(shown@[i], stored->Ok_0@[i]));
        }
    }
}

/// A blob is opened where its manifest is there and the client does not hold it
/// already; a client holds it where it names the hash of what is stored, and is
/// told so without the bytes.
pub proof fn law_a_blob_is_sent_where_it_is_not_held(
    found: Result<Option<ArtifactManifest>, RepositoryError>,
    if_none_match: Option<&str>,
    step: BlobStep,
)
    requires
        steps_to_blob(found, if_none_match, step),
    ensures
        step is Refused <==> !(found is Ok && found->Ok_0 is Some),
        step matches BlobStep::Open(m) ==> found->Ok_0 == Some(m),
        found is Ok && found->Ok_0 is Some && if_none_match is None ==> step is Open,
        found is Ok && found->Ok_0 is Some && if_none_match is Some ==> (step is NotModified
            <==> http::names_tag(if_none_match->0@, "\""@ + found->Ok_0->0.sha256@ + "\""@)),
        step matches BlobStep::NotModified(head) ==> head.status == 304,
{
}

/// What an app may do: the policy it is served under puts it in a sandbox that
/// loads nothing, opens no connection, sends no form, moves no base and is framed
/// by this site alone. The page itself says the same in front of all else.
pub proof fn law_the_app_policy_lets_nothing_out()
    ensures
        text::has_part(APP_DOCUMENT_CSP@, "sandbox allow-scripts;"@),
        text::has_part(APP_DOCUMENT_CSP@, "default-src 'none';"@),
        text::has_part(APP_DOCUMENT_CSP@, "connect-src 'none';"@),
        text::has_part(APP_DOCUMENT_CSP@, "form-action 'none';"@),
        text::has_part(APP_DOCUMENT_CSP@, "base-uri 'none'"@),
        text::has_part(APP_DOCUMENT_CSP@, "frame-ancestors 'self'"@),
        text::has_part(APP_DOCUMENT_PREFIX@, "default-src 'none';"@),
        text::has_part(APP_DOCUMENT_PREFIX@, "connect-src 'none';"@),
        text::has_part(APP_DOCUMENT_PREFIX@, "form-action 'none';"@),
        text::has_part(APP_DOCUMENT_PREFIX@, "base-uri 'none'"@),
{
    reveal_strlit("sandbox allow-scripts; default-src 'none'; script-src 'unsafe-inline'; style-src 'unsafe-inline'; img-src data:; font-src data:; connect-src 'none'; form-action 'none'; base-uri 'none'; frame-ancestors 'self'");
    reveal_strlit("<meta http-equiv=\"Content-Security-Policy\" content=\"default-src 'none'; script-src 'unsafe-inline'; style-src 'unsafe-inline'; img-src data:; font-src data:; connect-src 'none'; form-action 'none'; base-uri 'none'\">\n");
    reveal_strlit("sandbox allow-scripts;");
    reveal_strlit("default-src 'none';");
    reveal_strlit("connect-src 'none';");
    reveal_strlit("form-action 'none';");
    reveal_strlit("base-uri 'none'");
    reveal_strlit("frame-ancestors 'self'");
    assert(APP_DOCUMENT_CSP@.subrange(0, 22) =~= "sandbox allow-scripts;"@);
    assert(text::occurs_at(APP_DOCUMENT_CSP@, "sandbox allow-scripts;"@, 0));
    assert(APP_DOCUMENT_CSP@.subrange(23, 42) =~= "default-src 'none';"@);
    assert(text::occurs_at(APP_DOCUMENT_CSP@, "default-src 'none';"@, 23));
    assert(APP_DOCUMENT_CSP@.subrange(129, 148) =~= "connect-src 'none';"@);
    assert(text::occurs_at(APP_DOCUMENT_CSP@, "connect-src 'none';"@, 129));
    assert(APP_DOCUMENT_CSP@.subrange(149, 168) =~= "form-action 'none';"@);
    assert(text::occurs_at(APP_DOCUMENT_CSP@, "form-action 'none';"@, 149));
    assert(APP_DOCUMENT_CSP@.subrange(169, 184) =~= "base-uri 'none'"@);
    assert(text::occurs_at(APP_DOCUMENT_CSP@, "base-uri 'none'"@, 169));
    assert(APP_DOCUMENT_CSP@.subrange(186, 208) =~= "frame-ancestors 'self'"@);
    assert(text::occurs_at(APP_DOCUMENT_CSP@, "frame-ancestors 'self'"@, 186));
    assert(APP_DOCUMENT_PREFIX@.subrange(52, 71) =~= "default-src 'none';"@);
    assert(text::occurs_at(APP_DOCUMENT_PREFIX@, "default-src 'none';"@, 52));
    assert(APP_DOCUMENT_PREFIX@.subrange(158, 177) =~= "connect-src 'none';"@);
    assert(text::occurs_at(APP_DOCUMENT_PREFIX@, "connect-src 'none';"@, 158));
    assert(APP_DOCUMENT_PREFIX@.subrange(178, 197) =~= "form-action 'none';"@);
    assert(text::occurs_at(APP_DOCUMENT_PREFIX@, "form-action 'none';"@, 178));
    assert(APP_DOCUMENT_PREFIX@.subrange(198, 213) =~= "base-uri 'none'"@);
    assert(text::occurs_at(APP_DOCUMENT_PREFIX@, "base-uri 'none'"@, 198));
}

/// The codes that a client of the artifacts branches on, whatever is missing.
pub proof fn law_artifact_problems_have_their_codes(title: Seq<char>)
    ensures
        not_found_view(title).status == 404 && not_found_view(title).code is ResourceNotFound,
{
}

/// What an opened blob is answered with.
pub open spec fn serves_blob(
    m: ArtifactManifest,
    opened: Result<Option<u64>, BlobStoreError>,
    r: Result<ReplyHead, ProblemDetails>,
) -> bool {
    match (r, opened_as(opened, "artifact blob is unavailable"@)) {
        (Ok(head), Ok(len)) => head.status == 200 && http::headers_of(head.headers@) == blob_headers(
            m,
            len,
        ),
        (Err(e), Err(p)) => e@ == p,
        _ => false,
    }
}

/// A blob is served exactly where it could be opened, under the headers of its
/// own manifest and with its own length.
pub proof fn law_a_blob_is_served_where_it_was_opened(
    m: ArtifactManifest,
    opened: Result<Option<u64>, BlobStoreError>,
    r: Result<ReplyHead, ProblemDetails>,
)
    requires
        serves_blob(m, opened, r),
    ensures
        r is Ok <==> opened is Ok && opened->Ok_0 is Some,
        r matches Ok(head) ==> {
            &&& head.status == 200
            &&& http::headers_of(head.headers@).contains(("content-type"@, m.media_type@))
            &&& http::headers_of(head.headers@).contains(
                ("content-length"@, text::decimal(opened->Ok_0->0 as nat)),
            )
        },
{
    if r is Ok {
        law_served_artifacts_carry_their_headers(m, m, opened->Ok_0->0);
    }
}

} // verus!
