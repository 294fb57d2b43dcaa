//! The tool that builds an app from a document a model wrote.
//!
//! The one argument is the document itself. It is validated before a worker is
//! driven, and what the model reads back names the artifact and never holds its
//! bytes.

use vstd::prelude::*;

use crate::canonical;
use crate::canonical::{CanonicalValue, JsonValue};
use crate::ids;
use crate::policy_view::ToolPolicy;
use crate::text;

verus! {

/// Cap on the diagnostic that a failed build folds back into a model's context.
pub const MAX_DIAGNOSTIC_BYTES: usize = 512;

/// The bound of a build's round trip, in seconds.
pub const APP_BUILD_TIMEOUT_SECS: u64 = 180;

/// How a tool fails.
#[derive(Debug)]
pub enum ToolError {
    SchemaInvalid(String),
    /// The bound that was exceeded, in seconds.
    Timeout(u64),
    Cancelled,
    ExecutionFailed(String),
}

/// Why a build failed. Texts are sanitized and no longer than
/// [`MAX_DIAGNOSTIC_BYTES`].
#[derive(Debug)]
pub enum AppBuildError {
    Timeout,
    Cancelled,
    Other(String),
}

pub open spec fn not_exact() -> Seq<char> {
    "app.generate arguments must be exactly {spec: <json document>}"@
}

pub open spec fn not_an_object() -> Seq<char> {
    "app.generate arguments must be an object"@
}

/// The document that arguments carry, or what is wrong with them. It is the one
/// argument: an object with anything beside it is refused.
pub open spec fn document_of(arguments: CanonicalValue) -> Result<Seq<char>, Seq<char>> {
    match arguments {
        CanonicalValue::Object(members) => if members@.len() != 1 {
            Err(not_exact())
        } else {
            match canonical::member(members@, "spec"@) {
                Some(CanonicalValue::Str(s)) => Ok(s@),
                _ => Err(not_exact()),
            }
        },
        _ => Err(not_an_object()),
    }
}

/// What a build runs under: the artifact it makes, and the run that the artifact
/// is correlated by.
#[derive(Debug)]
pub struct BuildTicket {
    pub artifact_id: String,
    pub run_id: String,
}

/// A tool as it is registered: its identifier, its version and its policy.
#[derive(Debug)]
pub struct ToolDescriptor {
    pub id: &'static str,
    pub version: (u32, u32, u32),
    pub policy: Option<ToolPolicy>,
}

/// What a tool hands back.
#[derive(Debug)]
pub struct ToolResult {
    pub content: JsonValue,
    pub truncated: bool,
}

/// Builds an app from a document that a model wrote.
pub struct AppGenerateTool;

impl AppGenerateTool {
    /// The identifier that the tool is registered under.
    pub fn id() -> (s: &'static str)
        ensures
            s == "app.generate",
    {
        "app.generate"
    }

    /// What the tool is registered as, under the policy of its builder.
    pub fn descriptor(policy: ToolPolicy) -> (d: ToolDescriptor)
        ensures
            d.id == "app.generate",
            d.version == (1u32, 0u32, 0u32),
            d.policy == Some(policy),
    {
        ToolDescriptor { id: Self::id(), version: (1, 0, 0), policy: Some(policy) }
    }

    /// The document, verbatim. A text rather than a tree, because its size limit is
    /// counted in what the model wrote.
    pub fn spec_document(arguments: &CanonicalValue) -> (r: Result<&str, ToolError>)
        ensures
            match (r, document_of(*arguments)) {
                (Ok(s), Ok(d)) => s@ == d,
                (Err(ToolError::SchemaInvalid(why)), Err(w)) => why@ == w,
                _ => false,
            },
    {
        match arguments {
            CanonicalValue::Object(members) => {
                let spec = if members.len() == 1 {
                    canonical::find_member(members, "spec")
                } else {
                    None
                };
                match spec {
                    Some(CanonicalValue::Str(s)) => Ok(s.as_str()),
                    _ => Err(
                        ToolError::SchemaInvalid(
                            "app.generate arguments must be exactly {spec: <json document>}".to_owned(),
                        ),
                    ),
                }
            },
            _ => Err(
                ToolError::SchemaInvalid("app.generate arguments must be an object".to_owned()),
            ),
        }
    }

    /// Begin an execution. Validation comes before a worker is driven; the build of
    /// a document that passes runs under fresh identifiers.
    pub fn begin(arguments: &CanonicalValue, fault: Option<String>) -> (r: Result<
        BuildTicket,
        ToolError,
    >)
        ensures
            match document_of(*arguments) {
                Err(w) => r matches Err(ToolError::SchemaInvalid(why)) && why@ == w,
                Ok(_) => match fault {
                    Some(f) => r == Err::<BuildTicket, ToolError>(ToolError::SchemaInvalid(f)),
                    None => r matches Ok(t) && ids::is_ulid(t.artifact_id@) && ids::is_ulid(
                        t.run_id@,
                    ),
                },
            },
    {
        match Self::validate_args(arguments, fault) {
            Err(e) => Err(e),
            Ok(()) => Ok(BuildTicket { artifact_id: ids::fresh_id(), run_id: ids::fresh_id() }),
        }
    }

    /// What an execution comes to once the build is over. There is nothing to undo:
    /// the artifact is inert until somebody opens it.
    pub fn execute(built: Result<BuiltApp, AppBuildError>) -> (r: Result<ToolResult, ToolError>)
        ensures
            match built {
                Ok(app) => r matches Ok(t) && canonical::json_meaning(t.content) == content_of(app)
                    && !t.truncated,
                Err(e) => r == Err::<ToolResult, ToolError>(tool_error_of(e)),
            },
    {
        match built {
            Ok(app) => Ok(ToolResult { content: result_content(&app), truncated: false }),
            Err(e) => Err(build_error(e)),
        }
    }

    /// What the validation of a document comes to. `fault` is its sanitized
    /// diagnostic. Both a proposal and an execution are held to it, so an edit is
    /// caught before anything binds.
    pub fn validate_args(arguments: &CanonicalValue, fault: Option<String>) -> (r: Result<
        (),
        ToolError,
    >)
        ensures
            match document_of(*arguments) {
                Err(w) => r matches Err(ToolError::SchemaInvalid(why)) && why@ == w,
                Ok(_) => match fault {
                    Some(f) => r == Err::<(), ToolError>(ToolError::SchemaInvalid(f)),
                    None => r is Ok,
                },
            },
    {
        match Self::spec_document(arguments) {
            Err(e) => Err(e),
            Ok(_) => match fault {
                Some(f) => Err(ToolError::SchemaInvalid(f)),
                None => Ok(()),
            },
        }
    }
}

/// The failure of the tool that a build failure is: a wedged builder is a tool
/// that timed out.
pub open spec fn tool_error_of(error: AppBuildError) -> ToolError {
    match error {
        AppBuildError::Timeout => ToolError::Timeout(APP_BUILD_TIMEOUT_SECS),
        AppBuildError::Cancelled => ToolError::Cancelled,
        AppBuildError::Other(diagnostic) => ToolError::ExecutionFailed(diagnostic),
    }
}

pub fn build_error(error: AppBuildError) -> (e: ToolError)
    ensures
        e == tool_error_of(error),
{
    match error {
        AppBuildError::Timeout => ToolError::Timeout(APP_BUILD_TIMEOUT_SECS),
        AppBuildError::Cancelled => ToolError::Cancelled,
        AppBuildError::Other(diagnostic) => ToolError::ExecutionFailed(diagnostic),
    }
}

/// A document that passed validation, and what building it came to.
#[derive(Debug)]
pub struct BuiltApp {
    pub artifact_id: String,
    pub version: u32,
    pub title: String,
    pub template: String,
    pub capabilities: Vec<String>,
    pub bytes: u64,
}

pub open spec fn texts_meaning(s: Seq<Seq<char>>) -> Seq<canonical::Meaning> {
    s.map_values(|t: Seq<char>| canonical::Meaning::Str(t))
}

/// What the model reads back.
pub open spec fn content_of(app: BuiltApp) -> canonical::Meaning {
    canonical::Meaning::Object(
        map![
        "artifactId"@ => canonical::Meaning::Str(app.artifact_id@),
        "version"@ => canonical::Meaning::Int(app.version as i64),
        "title"@ => canonical::Meaning::Str(app.title@),
        "template"@ => canonical::Meaning::Str(app.template@),
        "capabilities"@ => canonical::Meaning::Array(
            texts_meaning(text::views(app.capabilities@)),
        ),
        "bytes"@ => canonical::count_meaning(app.bytes),
    ],
    )
}

/// The content that the model sees. It names the artifact; no byte of the bundle
/// is ever folded into a prompt.
pub fn result_content(app: &BuiltApp) -> (content: JsonValue)
    ensures
        canonical::json_meaning(content) == content_of(*app),
{
    let content = canonical::empty_object();
    let content = canonical::with_member(
        content,
        "artifactId",
        JsonValue::Str(app.artifact_id.clone()),
    );
    let content = canonical::with_member(content, "version", canonical::count(app.version as u64));
    let content = canonical::with_member(content, "title", JsonValue::Str(app.title.clone()));
    let content = canonical::with_member(content, "template", JsonValue::Str(app.template.clone()));
    let content = canonical::with_member(content, "capabilities", canonical::texts(&app.capabilities));
    let content = canonical::with_member(content, "bytes", canonical::count(app.bytes));
    assert(canonical::members_of(content) =~= content_of(*app)->Object_0);
    content
}

/// The arguments of a build are one member, `spec`, and that is a text: the
/// document is that text, and nothing else is taken for arguments.
pub proof fn law_the_document_is_the_one_argument(
    arguments: CanonicalValue,
    members: Vec<(String, CanonicalValue)>,
    document: String,
)
    ensures
        members@.len() == 1 && members@[0].0@ == "spec"@ && members@[0].1 == CanonicalValue::Str(
            document,
        ) ==> document_of(CanonicalValue::Object(members)) == Ok::<Seq<char>, Seq<char>>(document@),
        document_of(arguments) is Ok ==> (arguments matches CanonicalValue::Object(all) && all@.len()
            == 1 && all@[0].0@ == "spec"@ && (all@[0].1 matches CanonicalValue::Str(s) && s@
            == document_of(arguments)->Ok_0)),
        arguments !is Object ==> document_of(arguments) == Err::<Seq<char>, Seq<char>>(
            "app.generate arguments must be an object"@,
        ),
{
    if let CanonicalValue::Object(all) = arguments {
        if all@.len() == 1 {
            assert(all@.skip(1).len() == 0);
            reveal_with_fuel(canonical::member, 2);
        }
    }
    if members@.len() == 1 {
        reveal_with_fuel(canonical::member, 2);
    }
}

/// A build that ran out of time is told with its three minutes, one that was
/// stopped is told as stopped, and any other failure is told with what the
/// builder said.
pub proof fn law_build_failures_are_told_apart(error: AppBuildError)
    ensures
        error is Timeout ==> tool_error_of(error) == ToolError::Timeout(180),
        error is Cancelled ==> tool_error_of(error) is Cancelled,
        error matches AppBuildError::Other(said) ==> tool_error_of(error)
            == ToolError::ExecutionFailed(said),
{
}

/// What a build tells of the app: which artifact it is, in which version, what
/// it is called, what it was made from, what it may do, and how large it is.
pub proof fn law_a_built_app_is_told_in_full(app: BuiltApp)
    ensures
        content_of(app) matches canonical::Meaning::Object(said) && {
            &&& said.dom().contains("artifactId"@) && said["artifactId"@] == canonical::Meaning::Str(
                app.artifact_id@,
            )
            &&& said.dom().contains("version"@) && said["version"@] == canonical::Meaning::Int(
                app.version as i64,
            )
            &&& said.dom().contains("title"@) && said["title"@] == canonical::Meaning::Str(app.title@)
            &&& said.dom().contains("template"@) && said["template"@] == canonical::Meaning::Str(
                app.template@,
            )
            &&& said.dom().contains("capabilities"@) && (
            said["capabilities"@] matches canonical::Meaning::Array(scopes) && scopes.len()
                == app.capabilities@.len() && forall|i: int|
                0 <= i < scopes.len() ==> #[trigger] scopes[i] == canonical::Meaning::Str(
                    app.capabilities@[i]@,
                ))
            &&& app.bytes <= i64::MAX ==> said.dom().contains("bytes"@) && said["bytes"@]
                == canonical::Meaning::Int(app.bytes as i64)
        },
{
    reveal_strlit("artifactId");
    reveal_strlit("version");
    reveal_strlit("title");
    reveal_strlit("template");
    reveal_strlit("capabilities");
    reveal_strlit("bytes");
    assert("artifactId"@.len() == 10);
    assert("version"@.len() == 7);
    assert("title"@.len() == 5 && "title"@[0] == 't');
    assert("template"@.len() == 8);
    assert("capabilities"@.len() == 12);
    assert("bytes"@.len() == 5 && "bytes"@[0] == 'b');
}

} // verus!
