//! The capability bridge's surface: a token for one declared capability, and one
//! operation for a token.
//!
//! Nothing here decides. Paths are read, a device becomes the actor of a call,
//! and refusals are answered so that a refused app learns only that it was.

use vstd::prelude::*;

use crate::artifacts;
use crate::identity::DeviceContext;
use crate::ids;
use crate::problem;
use crate::problem::{ErrorCode, ProblemDetails};
use crate::text;
use crate::time;
use crate::time::Timestamp;

verus! {

/// Which path segment failed to parse.
#[derive(Debug, Clone, Copy, PartialEq, Eq, Structural)]
pub enum PathFault {
    App,
    Version,
}

/// The app version that a path names.
pub open spec fn path_named(id: Seq<char>, version: Seq<char>) -> Result<u32, PathFault> {
    if !ids::is_ulid(id) {
        Err(PathFault::App)
    } else {
        match artifacts::version_named(version) {
            Some(v) => Ok(v),
            None => Err(PathFault::Version),
        }
    }
}

pub fn parse_path(id: &str, version: &str) -> (r: Result<u32, PathFault>)
    ensures
        r == path_named(id@, version@),
{
    if !ids::is_id(id) {
        return Err(PathFault::App);
    }
    match artifacts::parse_version(version) {
        Some(v) => Ok(v),
        None => Err(PathFault::Version),
    }
}

pub open spec fn path_problem_view(fault: PathFault) -> problem::ProblemView {
    problem::problem_of(
        404,
        ErrorCode::ResourceNotFound,
        match fault {
            PathFault::App => "no such app"@,
            PathFault::Version => "no such app version"@,
        },
        None,
    )
}

pub fn path_problem(fault: PathFault) -> (p: ProblemDetails)
    ensures
        p@ == path_problem_view(fault),
{
    match fault {
        PathFault::App => problem::not_found("no such app"),
        PathFault::Version => problem::not_found("no such app version"),
    }
}

/// What a call may do: the device's own scopes, and no other.
#[derive(Debug)]
pub struct PolicyContext {
    pub user_id: String,
    pub device_id: String,
    pub granted_scopes: Vec<String>,
}

/// The scopes whose names are well formed, in order. `valid[i]` says it of the
/// `i`-th.
pub open spec fn well_formed_scopes(scopes: Seq<Seq<char>>, valid: Seq<bool>) -> Seq<Seq<char>>
    decreases scopes.len(),
{
    if scopes.len() == 0 {
        seq![]
    } else {
        let before = well_formed_scopes(scopes.drop_last(), valid);
        if valid[scopes.len() - 1] {
            before.push(scopes.last())
        } else {
            before
        }
    }
}

/// The scopes whose names are well formed.
pub fn keep_well_formed(scopes: &Vec<String>, valid: &Vec<bool>) -> (granted: Vec<String>)
    requires
        valid@.len() == scopes@.len(),
    ensures
        text::views(granted@) == well_formed_scopes(text::views(scopes@), valid@),
{
    let mut granted: Vec<String> = Vec::new();
    let ghost all = text::views(scopes@);
    assert(text::views(granted@) =~= seq![]);
    let mut i: usize = 0;
    assert(all.take(0) =~= seq![]);
    while i < scopes.len()
        invariant
            i <= scopes@.len(),
            valid@.len() == scopes@.len(),
            all == text::views(scopes@),
            text::views(granted@) == well_formed_scopes(all.take(i as int), valid@),
        decreases scopes@.len() - i,
    {
        proof {
            assert(all.take(i + 1).drop_last() =~= all.take(i as int));
            assert(all.take(i + 1).last() == scopes@[i as int]@);
        }
        if valid[i] {
            let ghost before = text::views(granted@);
            granted.push(scopes[i].clone());
            assert(text::views(granted@) =~= before.push(scopes@[i as int]@));
        }
        i = i + 1;
    }
    assert(all.take(all.len() as int) =~= all);
    granted
}

/// The context that a device's calls run in. The bridge widens nothing.
pub fn context_of(device: &DeviceContext, valid: &Vec<bool>) -> (c: PolicyContext)
    requires
        valid@.len() == device.scopes@.len(),
    ensures
        c.user_id@ == device.user_id@,
        c.device_id@ == device.device_id@,
        text::views(c.granted_scopes@) == well_formed_scopes(text::views(device.scopes@), valid@),
{
    PolicyContext {
        user_id: device.user_id.clone(),
        device_id: device.device_id.clone(),
        granted_scopes: keep_well_formed(&device.scopes, valid),
    }
}

/// Who makes a call. No conversation stands behind it, so the run is a fresh
/// identifier that grants bind to and the audit trail correlates by.
#[derive(Debug)]
pub struct BridgeActor {
    pub user_id: String,
    pub device_id: String,
    pub run_id: String,
}

pub fn actor_of(device: &DeviceContext) -> (a: BridgeActor)
    ensures
        a.user_id@ == device.user_id@,
        a.device_id@ == device.device_id@,
        ids::is_ulid(a.run_id@),
{
    BridgeActor {
        user_id: device.user_id.clone(),
        device_id: device.device_id.clone(),
        run_id: ids::fresh_id(),
    }
}

/// Why the bridge itself refused.
#[derive(Debug)]
pub enum BridgeDenial {
    UndeclaredCapability(String),
    Token(String),
    UnknownApp,
    NotAnApp(artifacts::ArtifactKind),
    InvalidTarget,
}

/// Why a call failed. The texts are for the log alone.
#[derive(Debug)]
pub enum BridgeError {
    Denied(BridgeDenial),
    Policy(String),
    NotApproved,
    Grant(String),
    GrantRejected(String),
    Tool(String),
    Cancelled,
    Storage,
}

pub open spec fn token_rejected_view() -> problem::ProblemView {
    problem::problem_of(403, ErrorCode::AppTokenRejected, "capability token rejected"@, None)
}

pub open spec fn bridge_problem_view(error: BridgeError) -> problem::ProblemView {
    match error {
        BridgeError::Denied(BridgeDenial::UndeclaredCapability(_)) => problem::problem_of(
            403,
            ErrorCode::AppUndeclaredCapability,
            "this app does not declare that capability"@,
            None,
        ),
        BridgeError::Denied(BridgeDenial::Token(_)) => token_rejected_view(),
        BridgeError::Denied(BridgeDenial::UnknownApp) => path_problem_view(PathFault::Version),
        BridgeError::Denied(BridgeDenial::NotAnApp(_)) => path_problem_view(PathFault::Version),
        BridgeError::Denied(BridgeDenial::InvalidTarget) => problem::problem_of(
            400,
            ErrorCode::AppInvalidRequest,
            "the request named an unusable target or value"@,
            None,
        ),
        BridgeError::Policy(_) => problem::problem_of(
            403,
            ErrorCode::PolicyDenied,
            "policy denied this operation"@,
            None,
        ),
        BridgeError::NotApproved => problem::problem_of(
            403,
            ErrorCode::PolicyDenied,
            "the operation was not approved"@,
            None,
        ),
        BridgeError::Grant(_) => no_grant_view(),
        BridgeError::GrantRejected(_) => no_grant_view(),
        BridgeError::Tool(_) => problem::problem_of(
            502,
            ErrorCode::ToolResultInvalid,
            "the operation failed"@,
            None,
        ),
        BridgeError::Cancelled => problem::problem_of(
            503,
            ErrorCode::DegradedQueued,
            "the operation was cancelled"@,
            None,
        ),
        BridgeError::Storage => problem::problem_of(
            503,
            ErrorCode::ProviderUnavailable,
            "storage unavailable"@,
            None,
        ),
    }
}

pub open spec fn no_grant_view() -> problem::ProblemView {
    problem::problem_of(403, ErrorCode::GrantExpired, "no valid execution grant"@, None)
}

/// A token that cannot be read is refused like one that was rejected: the shape
/// of the refusal says nothing about the token space.
pub fn token_rejected() -> (p: ProblemDetails)
    ensures
        p@ == token_rejected_view(),
{
    problem::problem(403, ErrorCode::AppTokenRejected, "capability token rejected", None)
}

fn denial_problem(denial: BridgeDenial) -> (p: ProblemDetails)
    ensures
        p@ == bridge_problem_view(BridgeError::Denied(denial)),
{
    match denial {
        BridgeDenial::UndeclaredCapability(_) => problem::problem(
            403,
            ErrorCode::AppUndeclaredCapability,
            "this app does not declare that capability",
            None,
        ),
        BridgeDenial::Token(_) => token_rejected(),
        BridgeDenial::UnknownApp | BridgeDenial::NotAnApp(_) => problem::not_found(
            "no such app version",
        ),
        BridgeDenial::InvalidTarget => problem::problem(
            400,
            ErrorCode::AppInvalidRequest,
            "the request named an unusable target or value",
            None,
        ),
    }
}

/// One mapping for every way in which the bridge can refuse.
pub fn bridge_problem(error: BridgeError) -> (p: ProblemDetails)
    ensures
        p@ == bridge_problem_view(error),
{
    match error {
        BridgeError::Denied(denial) => denial_problem(denial),
        BridgeError::Policy(_) => problem::problem(
            403,
            ErrorCode::PolicyDenied,
            "policy denied this operation",
            None,
        ),
        BridgeError::NotApproved => problem::problem(
            403,
            ErrorCode::PolicyDenied,
            "the operation was not approved",
            None,
        ),
        BridgeError::Grant(_) | BridgeError::GrantRejected(_) => problem::problem(
            403,
            ErrorCode::GrantExpired,
            "no valid execution grant",
            None,
        ),
        BridgeError::Tool(_) => problem::problem(
            502,
            ErrorCode::ToolResultInvalid,
            "the operation failed",
            None,
        ),
        BridgeError::Cancelled => problem::problem(
            503,
            ErrorCode::DegradedQueued,
            "the operation was cancelled",
            None,
        ),
        BridgeError::Storage => problem::unavailable("storage unavailable"),
    }
}

/// Begin a request to mint a token: the version of the app it is for.
pub fn mint_token(id: &str, version: &str) -> (r: Result<u32, ProblemDetails>)
    ensures
        match (r, path_named(id@, version@)) {
            (Ok(v), Ok(w)) => v == w,
            (Err(e), Err(f)) => e@ == path_problem_view(f),
            _ => false,
        },
{
    match parse_path(id, version) {
        Ok(v) => Ok(v),
        Err(f) => Err(path_problem(f)),
    }
}

/// A minted token, as the app is given it.
#[derive(Debug)]
pub struct CapabilityTokenDto {
    pub token: String,
    pub expires_at: String,
    pub capability: String,
}

/// Answer a request to mint a token: the token, when it expires, and the
/// capability that was asked for.
pub fn minted(capability: &str, outcome: Result<(String, Timestamp), BridgeError>) -> (r: Result<
    CapabilityTokenDto,
    ProblemDetails,
>)
    ensures
        answers_minting(capability@, outcome, r),
        match outcome {
            Ok((token, expires_at)) => r matches Ok(dto) && dto.token == token && dto.expires_at@
                == time::rfc3339_of(expires_at) && dto.capability@ == capability@,
            Err(e) => r matches Err(p) && p@ == bridge_problem_view(e),
        },
{
    match outcome {
        Ok((token, expires_at)) => Ok(
            CapabilityTokenDto {
                token,
                expires_at: time::rfc3339(expires_at),
                capability: capability.to_owned(),
            },
        ),
        Err(e) => Err(bridge_problem(e)),
    }
}

/// What an operation came to.
#[derive(Debug)]
pub struct CapabilityResultDto {
    pub content: String,
    pub truncated: bool,
}

/// Answer an exchange: what the operation came to, as it is.
pub fn exchanged(outcome: Result<CapabilityResultDto, BridgeError>) -> (r: Result<
    CapabilityResultDto,
    ProblemDetails,
>)
    ensures
        match outcome {
            Ok(result) => r == Ok::<CapabilityResultDto, ProblemDetails>(result),
            Err(e) => r matches Err(p) && p@ == bridge_problem_view(e),
        },
{
    match outcome {
        Ok(result) => Ok(result),
        Err(e) => Err(bridge_problem(e)),
    }
}

/// Begin a request to exchange a token for an operation. `token_ok` says whether
/// the token could be read at all.
pub fn invoke(id: &str, version: &str, token_ok: bool) -> (r: Result<u32, ProblemDetails>)
    ensures
        admits_call(id@, version@, token_ok, r),
        match path_named(id@, version@) {
            Err(f) => r matches Err(e) && e@ == path_problem_view(f),
            Ok(v) => if token_ok {
                r == Ok::<u32, ProblemDetails>(v)
            } else {
                r matches Err(e) && e@ == token_rejected_view()
            },
        },
{
    match parse_path(id, version) {
        Ok(v) => if token_ok {
            Ok(v)
        } else {
            Err(token_rejected())
        },
        Err(f) => Err(path_problem(f)),
    }
}

/// A call never runs with a scope that the device does not hold.
pub proof fn law_the_bridge_widens_nothing(scopes: Seq<Seq<char>>, valid: Seq<bool>, scope: Seq<char>)
    ensures
        well_formed_scopes(scopes, valid).contains(scope) ==> scopes.contains(scope),
    decreases scopes.len(),
{
    if scopes.len() > 0 {
        law_the_bridge_widens_nothing(scopes.drop_last(), valid, scope);
        let before = well_formed_scopes(scopes.drop_last(), valid);
        if well_formed_scopes(scopes, valid).contains(scope) {
            if before.contains(scope) {
                let i = choose|i: int|
                    0 <= i < scopes.drop_last().len() && scopes.drop_last()[i] == scope;
                assert(scopes[i] == scope);
            } else {
                let grown = well_formed_scopes(scopes, valid);
                let i = choose|i: int| 0 <= i < grown.len() && grown[i] == scope;
                if i < before.len() {
                    assert(before[i] == scope);
                }
                assert(scopes[scopes.len() - 1] == scope);
            }
        }
    }
}

/// No refusal says which binding a token failed, or anything else that the
/// texts behind it hold.
pub proof fn law_refusals_leak_nothing(a: String, b: String)
    ensures
        bridge_problem_view(BridgeError::Denied(BridgeDenial::Token(a))) == bridge_problem_view(
            BridgeError::Denied(BridgeDenial::Token(b)),
        ),
        bridge_problem_view(BridgeError::Denied(BridgeDenial::Token(a))) == token_rejected_view(),
        bridge_problem_view(BridgeError::Policy(a)) == bridge_problem_view(BridgeError::Policy(b)),
        bridge_problem_view(BridgeError::Tool(a)) == bridge_problem_view(BridgeError::Tool(b)),
        bridge_problem_view(BridgeError::Grant(a)) == bridge_problem_view(
            BridgeError::GrantRejected(b),
        ),
        bridge_problem_view(BridgeError::Denied(BridgeDenial::UndeclaredCapability(a)))
            == bridge_problem_view(BridgeError::Denied(BridgeDenial::UndeclaredCapability(b))),
{
}

/// The scopes that an app is granted are those that are well formed, each one,
/// in their order: those of two runs are those of the first and then those of
/// the second.
pub proof fn law_well_formed_scopes_keep_their_order(
    a: Seq<Seq<char>>,
    va: Seq<bool>,
    b: Seq<Seq<char>>,
    vb: Seq<bool>,
    scope: Seq<char>,
)
    requires
        a.len() == va.len(),
        b.len() <= vb.len(),
    ensures
        well_formed_scopes(a + b, va + vb) == well_formed_scopes(a, va) + well_formed_scopes(b, vb),
        well_formed_scopes(seq![scope], seq![true]) == seq![scope],
        well_formed_scopes(seq![scope], seq![false]).len() == 0,
    decreases b.len(),
{
    assert(seq![scope].drop_last() =~= Seq::<Seq<char>>::empty());
    assert(seq![scope].last() == scope);
    assert(well_formed_scopes(Seq::<Seq<char>>::empty(), seq![true]) =~= Seq::<Seq<char>>::empty());
    assert(well_formed_scopes(Seq::<Seq<char>>::empty(), seq![false]) =~= Seq::<
        Seq<char>,
    >::empty());
    assert(well_formed_scopes(seq![scope], seq![true]) =~= seq![scope]);
    if b.len() == 0 {
        assert(a + b =~= a);
        lemma_scopes_of_a_beginning(a, va, vb);
        assert(well_formed_scopes(a, va) + well_formed_scopes(b, vb) =~= well_formed_scopes(a, va));
    } else {
        law_well_formed_scopes_keep_their_order(a, va, b.drop_last(), vb, scope);
        assert((a + b).drop_last() =~= a + b.drop_last());
        assert((va + vb)[a.len() + b.len() - 1] == vb[b.len() - 1]);
        assert(well_formed_scopes(a + b, va + vb) =~= well_formed_scopes(a, va)
            + well_formed_scopes(b, vb));
    }
}

proof fn lemma_scopes_of_a_beginning(a: Seq<Seq<char>>, va: Seq<bool>, vb: Seq<bool>)
    requires
        a.len() <= va.len(),
    ensures
        well_formed_scopes(a, va + vb) == well_formed_scopes(a, va),
    decreases a.len(),
{
    if a.len() > 0 {
        lemma_scopes_of_a_beginning(a.drop_last(), va, vb);
    }
}

/// An app is addressed exactly by an id and a version; what is not addressed so
/// is not found.
pub proof fn law_apps_are_addressed_by_id_and_version(id: Seq<char>, version: Seq<char>, fault: PathFault)
    ensures
        path_named(id, version) is Ok <==> ids::is_ulid(id) && artifacts::version_named(
            version,
        ) is Some,
        path_named(id, version) matches Ok(v) ==> artifacts::version_named(version) == Some(v),
        !ids::is_ulid(id) ==> path_named(id, version) == Err::<u32, PathFault>(PathFault::App),
        path_problem_view(fault).status == 404,
{
}

/// What the bridge refused is answered by whose doing it was: the app asked for
/// what it may not have, it asked for what is not there or makes no sense, the
/// tool failed, or the service could not go on.
pub proof fn law_bridge_refusals_are_told_apart(error: BridgeError)
    ensures
        bridge_problem_view(error).status == (match error {
            BridgeError::Denied(BridgeDenial::UndeclaredCapability(_)) => 403u16,
            BridgeError::Denied(BridgeDenial::Token(_)) => 403u16,
            BridgeError::Denied(BridgeDenial::UnknownApp) => 404u16,
            BridgeError::Denied(BridgeDenial::NotAnApp(_)) => 404u16,
            BridgeError::Denied(BridgeDenial::InvalidTarget) => 400u16,
            BridgeError::Policy(_) => 403u16,
            BridgeError::NotApproved => 403u16,
            BridgeError::Grant(_) => 403u16,
            BridgeError::GrantRejected(_) => 403u16,
            BridgeError::Tool(_) => 502u16,
            BridgeError::Cancelled => 503u16,
            BridgeError::Storage => 503u16,
        }),
        bridge_problem_view(error).detail is None,
        bridge_problem_view(error).code is GrantExpired <==> error is Grant || error is GrantRejected,
        bridge_problem_view(error).code is AppTokenRejected <==> (error matches BridgeError::Denied(
            BridgeDenial::Token(_),
        )),
        bridge_problem_view(error).code is AppUndeclaredCapability <==> (
        error matches BridgeError::Denied(BridgeDenial::UndeclaredCapability(_))),
        bridge_problem_view(error).code is PolicyDenied <==> error is Policy || error is NotApproved,
{
}

/// The codes that an app branches on.
pub proof fn law_bridge_problems_have_their_codes(fault: PathFault, said: String)
    ensures
        token_rejected_view().status == 403 && token_rejected_view().code is AppTokenRejected,
        no_grant_view().status == 403 && no_grant_view().code is GrantExpired,
        path_problem_view(fault).status == 404 && path_problem_view(fault).code is ResourceNotFound,
        bridge_problem_view(BridgeError::Cancelled).status == 503 && bridge_problem_view(BridgeError::Cancelled).code is DegradedQueued,
        bridge_problem_view(BridgeError::Storage).status == 503 && bridge_problem_view(BridgeError::Storage).code is ProviderUnavailable,
        bridge_problem_view(BridgeError::Denied(BridgeDenial::InvalidTarget)).status == 400 && bridge_problem_view(BridgeError::Denied(BridgeDenial::InvalidTarget)).code is AppInvalidRequest,
        bridge_problem_view(BridgeError::Tool(said)).status == 502 && bridge_problem_view(BridgeError::Tool(said)).code is ToolResultInvalid,
{
}

/// What a wish for a capability token is answered with.
pub open spec fn answers_minting(
    capability: Seq<char>,
    outcome: Result<(String, Timestamp), BridgeError>,
    r: Result<CapabilityTokenDto, ProblemDetails>,
) -> bool {
    match outcome {
        Ok((token, expires_at)) => r matches Ok(dto) && dto.token == token && dto.expires_at@
            == time::rfc3339_of(expires_at) && dto.capability@ == capability,
        Err(e) => r matches Err(p) && p@ == bridge_problem_view(e),
    }
}

/// What a call of an app meets.
pub open spec fn admits_call(
    id: Seq<char>,
    version: Seq<char>,
    token_ok: bool,
    r: Result<u32, ProblemDetails>,
) -> bool {
    match path_named(id, version) {
        Err(f) => r matches Err(e) && e@ == path_problem_view(f),
        Ok(v) => if token_ok {
            r == Ok::<u32, ProblemDetails>(v)
        } else {
            r matches Err(e) && e@ == token_rejected_view()
        },
    }
}

/// A token that was made is handed out as it is, with the capability it is for
/// and the time it ends. A call goes ahead exactly for an app that is addressed
/// and under a token that is in order.
pub proof fn law_tokens_are_handed_out_and_asked_for(
    capability: Seq<char>,
    outcome: Result<(String, Timestamp), BridgeError>,
    made: Result<CapabilityTokenDto, ProblemDetails>,
    id: Seq<char>,
    version: Seq<char>,
    token_ok: bool,
    called: Result<u32, ProblemDetails>,
)
    requires
        answers_minting(capability, outcome, made),
        admits_call(id, version, token_ok, called),
    ensures
        made is Ok <==> outcome is Ok,
        made matches Ok(dto) ==> dto.token == outcome->Ok_0.0 && dto.capability@ == capability
            && dto.expires_at@ == time::rfc3339_of(outcome->Ok_0.1),
        called is Ok <==> ids::is_ulid(id) && artifacts::version_named(version) is Some && token_ok,
        called matches Ok(v) ==> artifacts::version_named(version) == Some(v),
        called matches Err(e) ==> e.status == (if ids::is_ulid(id) && artifacts::version_named(
            version,
        ) is Some {
            403u16
        } else {
            404u16
        }),
{
}

} // verus!
