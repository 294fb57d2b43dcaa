//! Device management: who is connected, what each screen shows, and revocation.

use vstd::multiset::Multiset;
use vstd::prelude::*;

use crate::audit;
use crate::audit::{AuditEvent, AuditValue};
use crate::auth;
use crate::identity::{Device, DeviceContext};
use crate::ids;
use crate::problem;
use crate::problem::{ErrorCode, ProblemDetails, RepositoryError};
use crate::text;
use crate::text_map::TextMap;
use crate::time;
use crate::time::Timestamp;

verus! {

/// Longest revocation reason accepted.
pub const MAX_REASON_CHARS: usize = 200;

// ---------------------------------------------------------------------------
// Presence
// ---------------------------------------------------------------------------

/// Which devices currently hold a socket. A device is listed once for each that
/// it holds.
pub struct ConnectedDevices {
    pub sockets: Vec<String>,
}

impl View for ConnectedDevices {
    type V = Multiset<Seq<char>>;

    /// How many sockets each device holds.
    open spec fn view(&self) -> Multiset<Seq<char>> {
        text::views(self.sockets@).to_multiset()
    }
}

impl ConnectedDevices {
    pub fn new() -> (s: Self)
        ensures
            s@ == Multiset::<Seq<char>>::empty(),
    {
        broadcast use vstd::seq_lib::group_to_multiset_ensures;

        let s = ConnectedDevices { sockets: Vec::new() };
        assert(text::views(s.sockets@).len() == 0);
        assert(s@ =~= Multiset::<Seq<char>>::empty());
        s
    }

    /// A device opened a socket.
    pub fn mark_present(&mut self, device: &str)
        ensures
            final(self)@ == old(self)@.insert(device@),
    {
        broadcast use vstd::seq_lib::group_to_multiset_ensures;

        self.sockets.push(device.to_owned());
        assert(text::views(self.sockets@) =~= text::views(old(self).sockets@).push(device@));
    }

    /// One socket of a device ended. It stays connected for as long as it holds
    /// another.
    pub fn mark_gone(&mut self, device: &str)
        ensures
            final(self)@ == old(self)@.remove(device@),
    {
        broadcast use vstd::seq_lib::group_to_multiset_ensures;

        let mut i: usize = 0;
        while i < self.sockets.len()
            invariant
                i <= self.sockets@.len(),
                self.sockets == old(self).sockets,
                forall|k: int| 0 <= k < i ==> (#[trigger] self.sockets@[k])@ != device@,
            decreases self.sockets@.len() - i,
        {
            if text::same(self.sockets[i].as_str(), device) {
                let _ended = self.sockets.remove(i);
                proof {
                    let before = text::views(old(self).sockets@);
                    assert(before[i as int] == device@);
                    assert(text::views(self.sockets@) =~= before.remove(i as int));
                    before.to_multiset_ensures();
                }
                return ;
            }
            i = i + 1;
        }
        proof {
            let all = text::views(self.sockets@);
            assert forall|k: int| 0 <= k < all.len() implies all[k] != device@ by {
                assert(all[k] == self.sockets@[k]@);
            }
            assert(!all.contains(device@));
            assert(all.to_multiset().count(device@) == 0);
            assert(self@ =~= old(self)@.remove(device@));
        }
    }

    pub fn is_connected(&self, device: &str) -> (b: bool)
        ensures
            b == (self@.count(device@) > 0),
    {
        broadcast use vstd::seq_lib::group_to_multiset_ensures;

        text::contains_text(&self.sockets, device)
    }
}

/// A socket that ends takes nothing with it but itself: a device that held another
/// before is still connected, and so is every other device.
pub proof fn law_a_socket_ends_alone(
    sockets: Multiset<Seq<char>>,
    device: Seq<char>,
    other: Seq<char>,
)
    ensures
        sockets.insert(device).remove(device) == sockets,
        sockets.count(device) > 1 ==> sockets.remove(device).count(device) > 0,
        sockets.count(device) <= 1 ==> sockets.remove(device).count(device) == 0,
        other != device ==> sockets.remove(device).count(other) == sockets.count(other),
{
    broadcast use vstd::multiset::group_multiset_axioms;

    assert(sockets.insert(device).remove(device) =~= sockets);
}

/// What a node was told to show: a surface on one of its monitors.
#[derive(Debug)]
pub struct SurfacePlacement {
    pub surface: crate::display::Surface,
    pub monitor: String,
}

/// What each node should currently be showing. Current state, not a log: a node
/// that reconnects is shown the latest placement and no backlog.
pub struct SurfaceState {
    pub placements: TextMap<SurfacePlacement>,
}

impl View for SurfaceState {
    type V = Map<Seq<char>, SurfacePlacement>;

    open spec fn view(&self) -> Map<Seq<char>, SurfacePlacement> {
        self.placements@
    }
}

impl SurfaceState {
    pub fn new() -> (s: Self)
        ensures
            s@ == Map::<Seq<char>, SurfacePlacement>::empty(),
    {
        SurfaceState { placements: TextMap::new() }
    }

    /// Record what a node was last told to show.
    pub fn remember(&mut self, device: &str, placement: SurfacePlacement)
        ensures
            final(self)@ == old(self)@.insert(device@, placement),
    {
        self.placements.insert(device.to_owned(), placement);
    }

    pub fn current(&self, device: &str) -> (r: Option<&SurfacePlacement>)
        ensures
            match r {
                Some(p) => self@.dom().contains(device@) && *p == self@[device@],
                None => !self@.dom().contains(device@),
            },
    {
        self.placements.get(device)
    }

    /// Forget a node's surface: nothing is restored to a device that is no
    /// longer ours.
    pub fn forget(&mut self, device: &str)
        ensures
            final(self)@ == old(self)@.remove(device@),
    {
        let _ = self.placements.remove(device);
    }
}

// ---------------------------------------------------------------------------
// The owner's surface
// ---------------------------------------------------------------------------

pub open spec fn ui_scope_required_view() -> problem::ProblemView {
    problem::problem_of(
        403,
        ErrorCode::AuthScopeMissing,
        "this surface requires the `ui` scope"@,
        None,
    )
}

pub fn ui_scope_required() -> (p: ProblemDetails)
    ensures
        p@ == ui_scope_required_view(),
{
    problem::problem(
        403,
        ErrorCode::AuthScopeMissing,
        "this surface requires the `ui` scope",
        None,
    )
}

/// The record of an authority operation that was refused.
pub open spec fn refusal_view(
    caller: DeviceContext,
    event_type: Seq<char>,
    target: Seq<char>,
    now: Timestamp,
) -> audit::AuditView {
    audit::event_of(
        now,
        audit::device_actor(caller.device_id@),
        event_type,
        target,
        seq![
            ("deviceClass"@, audit::ValueView::Text(caller.class.name()@)),
            ("reason"@, audit::ValueView::Text("device lacks the `ui` scope"@)),
        ],
    )
}

pub fn refusal_audit(caller: &DeviceContext, event_type: &str, target: &str, now: Timestamp) -> (e:
    AuditEvent)
    ensures
        e@ == refusal_view(*caller, event_type@, target@, now),
{
    let e = AuditEvent {
        occurred_at: now,
        actor: audit::actor_of(caller.device_id.as_str()),
        event_type: event_type.to_owned(),
        target: target.to_owned(),
        correlation_id: None,
        payload: audit::with_field(
            audit::with_field(
                audit::no_fields(),
                "deviceClass",
                AuditValue::Text(caller.class.as_str().to_owned()),
            ),
            "reason",
            AuditValue::Text("device lacks the `ui` scope".to_owned()),
        ),
    };
    assert(e@ =~= refusal_view(*caller, event_type@, target@, now));
    e
}

/// What is decided in front of the owner's surfaces.
pub enum Gate {
    Pass,
    /// Answer with the problem; the event, where there is one, goes on record.
    Refuse { problem: ProblemDetails, audit: Option<AuditEvent> },
}

/// Deny by default: a request passes only with a caller that holds the owner's
/// scope. No caller at all is a refusal too, not a pass.
pub fn require_owner_ui(caller: Option<&DeviceContext>, path: &str, now: Timestamp) -> (g: Gate)
    ensures
        gated(g, caller, path@, now),
        match caller {
            None => g matches Gate::Refuse { problem, audit } && problem@
                == auth::unauthorized_view() && audit is None,
            Some(c) => if c.spec_holds(crate::identity::UI_SCOPE@) {
                g is Pass
            } else {
                g matches Gate::Refuse { problem, audit } && problem@ == ui_scope_required_view()
                    && (audit matches Some(e) && e@ == refusal_view(
                    *c,
                    "device.management_denied"@,
                    path@,
                    now,
                ))
            },
        },
{
    match caller {
        None => Gate::Refuse { problem: auth::unauthorized(), audit: None },
        Some(c) => if c.holds_ui() {
            Gate::Pass
        } else {
            Gate::Refuse {
                problem: ui_scope_required(),
                audit: Some(refusal_audit(c, "device.management_denied", path, now)),
            }
        },
    }
}

/// A device as the owner sees it.
pub struct DeviceDto {
    pub device_id: String,
    pub name: String,
    pub device_class: String,
    pub scopes: Vec<String>,
    pub executes_tools: bool,
    pub created_at: String,
    pub last_seen_at: Option<String>,
    pub revoked_at: Option<String>,
    pub revoked_reason: Option<String>,
}

/// What the class of a device gives it.
pub struct ClassProfile {
    pub scopes: Vec<String>,
    pub executes_tools: bool,
}

pub open spec fn opt_rfc3339(t: Option<Timestamp>) -> Option<Seq<char>> {
    match t {
        Some(at) => Some(time::rfc3339_of(at)),
        None => None,
    }
}

fn show_time(t: Option<Timestamp>) -> (s: Option<String>)
    ensures
        text::opt_view(s) == opt_rfc3339(t),
{
    match t {
        Some(at) => Some(time::rfc3339(at)),
        None => None,
    }
}

/// Whether a row shows a device. The token's digest and the key are not in it.
pub open spec fn shows(dto: DeviceDto, d: Device, profile: ClassProfile) -> bool {
    &&& dto.device_id@ == d.id@
    &&& dto.name@ == d.name@
    &&& dto.device_class@ == d.class.name()@
    &&& dto.scopes@ == profile.scopes@
    &&& dto.executes_tools == profile.executes_tools
    &&& dto.created_at@ == time::rfc3339_of(d.created_at)
    &&& text::opt_view(dto.last_seen_at) == opt_rfc3339(d.last_seen_at)
    &&& text::opt_view(dto.revoked_at) == opt_rfc3339(d.revoked_at)
    &&& dto.revoked_reason == d.revoked_reason
}

pub fn to_dto(d: &Device, profile: &ClassProfile) -> (dto: DeviceDto)
    ensures
        shows(dto, *d, *profile),
{
    DeviceDto {
        device_id: d.id.clone(),
        name: d.name.clone(),
        device_class: d.class.as_str().to_owned(),
        scopes: text::copy_texts(&profile.scopes),
        executes_tools: profile.executes_tools,
        created_at: time::rfc3339(d.created_at),
        last_seen_at: show_time(d.last_seen_at),
        revoked_at: show_time(d.revoked_at),
        revoked_reason: text::copy_opt(&d.revoked_reason),
    }
}

pub open spec fn store_unavailable_view() -> problem::ProblemView {
    problem::problem_of(
        503,
        ErrorCode::ProviderUnavailable,
        "identity store unavailable"@,
        None,
    )
}

/// Every paired device, revoked ones included, for the owner alone. The devices
/// come with the profiles of their classes.
pub fn list(
    caller: &DeviceContext,
    devices: Result<Vec<(Device, ClassProfile)>, RepositoryError>,
) -> (r: Result<Vec<DeviceDto>, ProblemDetails>)
    ensures
        lists_devices(r, *caller, devices),
        if !caller.spec_holds(crate::identity::UI_SCOPE@) {
            r matches Err(e) && e@ == ui_scope_required_view()
        } else {
            match devices {
                Err(_) => r matches Err(e) && e@ == store_unavailable_view(),
                Ok(all) => r matches Ok(rows) && rows@.len() == all@.len() && (forall|i: int|
                    0 <= i < all@.len() ==> shows(#[trigger] rows@[i], all@[i].0, all@[i].1)),
            }
        },
{
    if !caller.holds_ui() {
        return Err(ui_scope_required());
    }
    match devices {
        Err(_) => Err(problem::unavailable("identity store unavailable")),
        Ok(all) => {
            let mut rows: Vec<DeviceDto> = Vec::new();
            let mut i: usize = 0;
            while i < all.len()
                invariant
                    i <= all@.len(),
                    rows@.len() == i,
                    forall|k: int|
                        0 <= k < i ==> shows(#[trigger] rows@[k], all@[k].0, all@[k].1),
                decreases all@.len() - i,
            {
                rows.push(to_dto(&all[i].0, &all[i].1));
                i = i + 1;
            }
            Ok(rows)
        },
    }
}

// ---------------------------------------------------------------------------
// Revocation
// ---------------------------------------------------------------------------

/// An admitted revocation: whom, why, and the record that goes with it.
pub struct Revocation {
    pub target: String,
    pub reason: Option<String>,
    pub audit: AuditEvent,
}

/// The reason that counts: trimmed, and absent where nothing is left.
pub open spec fn reason_given(raw: Option<Seq<char>>) -> Option<Seq<char>> {
    match raw {
        Some(r) => if text::is_blank(r) {
            None
        } else {
            Some(text::trimmed(r))
        },
        None => None,
    }
}

pub open spec fn has_control_char(s: Seq<char>) -> bool {
    exists|i: int| 0 <= i < s.len() && text::is_control(#[trigger] s[i])
}

/// Why a revocation request is refused before the store is asked.
pub open spec fn revoke_refusal(holds_ui: bool, id: Seq<char>, reason: Option<Seq<char>>) -> Option<
    problem::ProblemView,
> {
    if !holds_ui {
        Some(ui_scope_required_view())
    } else if !ids::is_ulid(id) {
        Some(
            problem::problem_of(
                400,
                ErrorCode::ValidationFailed,
                "device id is not a ULID"@,
                None,
            ),
        )
    } else if reason matches Some(r) && r.len() > MAX_REASON_CHARS {
        Some(
            problem::problem_of(
                400,
                ErrorCode::ValidationFailed,
                "reason is too long"@,
                Some("at most 200 characters"@),
            ),
        )
    } else if reason matches Some(r) && has_control_char(r) {
        Some(
            problem::problem_of(
                400,
                ErrorCode::ValidationFailed,
                "reason must not contain control characters"@,
                None,
            ),
        )
    } else {
        None
    }
}

/// The record of a revocation.
pub open spec fn revoked_event(
    caller: DeviceContext,
    target: Seq<char>,
    reason: Option<Seq<char>>,
    now: Timestamp,
) -> audit::AuditView {
    audit::event_of(
        now,
        audit::device_actor(caller.device_id@),
        "device.revoked"@,
        "device:"@ + target,
        seq![
            (
                "reason"@,
                match reason {
                    Some(r) => audit::ValueView::Text(r),
                    None => audit::ValueView::Null,
                },
            ),
            ("selfRevocation"@, audit::ValueView::Bool(target == caller.device_id@)),
        ],
    )
}

/// Check a revocation request, and say what is to be asked of the store.
pub fn revoke(
    caller: &DeviceContext,
    id: &str,
    reason: Option<&str>,
    now: Timestamp,
) -> (r: Result<Revocation, ProblemDetails>)
    ensures
        ({
            let given = reason_given(
                match reason {
                    Some(s) => Some(s@),
                    None => None,
                },
            );
            match revoke_refusal(caller.spec_holds(crate::identity::UI_SCOPE@), id@, given) {
                Some(p) => r matches Err(e) && e@ == p,
                None => r matches Ok(v) && v.target@ == id@ && text::opt_view(v.reason) == given
                    && v.audit@ == revoked_event(*caller, id@, given, now),
            }
        }),
{
    if !caller.holds_ui() {
        return Err(ui_scope_required());
    }
    if !ids::is_id(id) {
        return Err(problem::bad_request("device id is not a ULID"));
    }
    let given: Option<String> = match reason {
        Some(raw) => {
            let said = text::trim(raw);
            if said.is_empty() {
                None
            } else {
                Some(said.to_owned())
            }
        },
        None => None,
    };
    let ghost why = text::opt_view(given);
    if let Some(said) = &given {
        let chars = text::chars_of(said.as_str());
        if chars.len() > MAX_REASON_CHARS {
            return Err(
                problem::problem(
                    400,
                    ErrorCode::ValidationFailed,
                    "reason is too long",
                    Some("at most 200 characters".to_owned()),
                ),
            );
        }
        if text::has_control(&chars) {
            assert(has_control_char(said@));
            return Err(problem::bad_request("reason must not contain control characters"));
        }
        assert(!has_control_char(said@));
    }
    let value = match &given {
        Some(said) => AuditValue::Text(said.clone()),
        None => AuditValue::Null,
    };
    let audit = AuditEvent {
        occurred_at: now,
        actor: audit::actor_of(caller.device_id.as_str()),
        event_type: "device.revoked".to_owned(),
        target: text::concat2("device:", id),
        correlation_id: None,
        payload: audit::with_field(
            audit::with_field(audit::no_fields(), "reason", value),
            "selfRevocation",
            AuditValue::Bool(text::same(id, caller.device_id.as_str())),
        ),
    };
    assert(audit@ =~= revoked_event(*caller, id@, why, now));
    Ok(Revocation { target: id.to_owned(), reason: given, audit })
}

/// What the store made of a revocation.
#[derive(Debug, Clone, Copy, PartialEq, Eq, Structural)]
pub enum RevocationOutcome {
    Revoked,
    AlreadyRevoked,
    NotFound,
    LastOwnerDevice,
}

/// What follows from the outcome of a revocation.
pub enum RevocationStep {
    /// Tell live sockets that the device is revoked; where it was revoked just
    /// now, also forget its surface and cancel its runs. Then read it back.
    Announce { forget_surface: bool, cancel_runs: bool },
    /// Answer with the problem; the event, where there is one, goes on record.
    Refuse { problem: ProblemDetails, audit: Option<AuditEvent> },
}

/// The record of a revocation that would have locked the owner out.
pub open spec fn last_owner_event(caller: DeviceContext, target: Seq<char>, now: Timestamp) -> audit::AuditView {
    audit::event_of(
        now,
        audit::device_actor(caller.device_id@),
        "device.revoke_denied"@,
        "device:"@ + target,
        seq![("reason"@, audit::ValueView::Text("last owner device"@))],
    )
}

pub open spec fn no_such_device_view() -> problem::ProblemView {
    problem::problem_of(404, ErrorCode::ResourceNotFound, "no such device"@, None)
}

/// Decide what follows from the outcome of a revocation. Retrying one that
/// already happened announces it again: the first announcement can have missed a
/// socket.
pub fn after_revocation(
    outcome: Result<RevocationOutcome, RepositoryError>,
    caller: &DeviceContext,
    target: &str,
    now: Timestamp,
) -> (step: RevocationStep)
    ensures
        follows_revocation(step, outcome, *caller, target@, now),
        match outcome {
            Ok(RevocationOutcome::Revoked) => step == (RevocationStep::Announce {
                forget_surface: true,
                cancel_runs: true,
            }),
            Ok(RevocationOutcome::AlreadyRevoked) => step == (RevocationStep::Announce {
                forget_surface: false,
                cancel_runs: false,
            }),
            Ok(RevocationOutcome::NotFound) => step matches RevocationStep::Refuse {
                problem,
                audit,
            } && problem@ == no_such_device_view() && audit is None,
            Ok(RevocationOutcome::LastOwnerDevice) => step matches RevocationStep::Refuse {
                problem,
                audit,
            } && problem@ == problem::problem_of(
                409,
                ErrorCode::IdentityLastOwnerDevice,
                "cannot revoke the last owner device"@,
                Some(
                    "pair a replacement owner device first — revoking this one would leave nothing able to pair, short of restarting jarvisd"@,
                ),
            ) && (audit matches Some(e) && e@ == last_owner_event(*caller, target@, now)),
            Err(_) => step matches RevocationStep::Refuse { problem, audit } && problem@
                == store_unavailable_view() && audit is None,
        },
{
    match outcome {
        Ok(RevocationOutcome::Revoked) => RevocationStep::Announce {
            forget_surface: true,
            cancel_runs: true,
        },
        Ok(RevocationOutcome::AlreadyRevoked) => RevocationStep::Announce {
            forget_surface: false,
            cancel_runs: false,
        },
        Ok(RevocationOutcome::NotFound) => RevocationStep::Refuse {
            problem: problem::not_found("no such device"),
            audit: None,
        },
        Ok(RevocationOutcome::LastOwnerDevice) => {
            let event = AuditEvent {
                occurred_at: now,
                actor: audit::actor_of(caller.device_id.as_str()),
                event_type: "device.revoke_denied".to_owned(),
                target: text::concat2("device:", target),
                correlation_id: None,
                payload: audit::with_field(
                    audit::no_fields(),
                    "reason",
                    AuditValue::Text("last owner device".to_owned()),
                ),
            };
            assert(event@ =~= last_owner_event(*caller, target@, now));
            RevocationStep::Refuse {
                problem: problem::problem(
                    409,
                    ErrorCode::IdentityLastOwnerDevice,
                    "cannot revoke the last owner device",
                    Some(
                        "pair a replacement owner device first — revoking this one would leave nothing able to pair, short of restarting jarvisd".to_owned(),
                    ),
                ),
                audit: Some(event),
            }
        },
        Err(_) => RevocationStep::Refuse {
            problem: problem::unavailable("identity store unavailable"),
            audit: None,
        },
    }
}

/// The first device with an identifier.
pub open spec fn device_at(all: Seq<(Device, ClassProfile)>, id: Seq<char>) -> Option<int>
    decreases all.len(),
{
    if all.len() == 0 {
        None
    } else {
        match device_at(all.drop_last(), id) {
            Some(i) => Some(i),
            None => if all.last().0.id@ == id {
                Some(all.len() - 1)
            } else {
                None
            },
        }
    }
}

/// The answer to a revocation: the device as it is stored now.
pub fn read_back(
    devices: Result<Vec<(Device, ClassProfile)>, RepositoryError>,
    target: &str,
) -> (r: Result<DeviceDto, ProblemDetails>)
    ensures
        match devices {
            Err(_) => r matches Err(e) && e@ == store_unavailable_view(),
            Ok(all) => match device_at(all@, target@) {
                Some(i) => 0 <= i < all@.len() && (r matches Ok(dto) && shows(
                    dto,
                    all@[i].0,
                    all@[i].1,
                )),
                None => r matches Err(e) && e@ == no_such_device_view(),
            },
        },
{
    match devices {
        Err(_) => Err(problem::unavailable("identity store unavailable")),
        Ok(all) => match find_device(&all, target) {
            Some(i) => Ok(to_dto(&all[i].0, &all[i].1)),
            None => Err(problem::not_found("no such device")),
        },
    }
}

fn find_device(all: &Vec<(Device, ClassProfile)>, target: &str) -> (r: Option<usize>)
    ensures
        match r {
            Some(i) => i < all@.len() && device_at(all@, target@) == Some(i as int),
            None => device_at(all@, target@) is None,
        },
{
    let mut i: usize = 0;
    assert(all@.take(0) =~= seq![]);
    while i < all.len()
        invariant
            i <= all@.len(),
            device_at(all@.take(i as int), target@) is None,
        decreases all@.len() - i,
    {
        assert(all@.take(i + 1).drop_last() =~= all@.take(i as int));
        if text::same(all[i].0.id.as_str(), target) {
            proof {
                lemma_device_found(all@, target@, i as int);
            }
            return Some(i);
        }
        i = i + 1;
    }
    assert(all@.take(all@.len() as int) =~= all@);
    None
}

proof fn lemma_device_found(all: Seq<(Device, ClassProfile)>, id: Seq<char>, i: int)
    requires
        0 <= i < all.len(),
        device_at(all.take(i), id) is None,
        all[i].0.id@ == id,
    ensures
        device_at(all, id) == Some(i),
    decreases all.len(),
{
    if i == all.len() - 1 {
        assert(all.drop_last() =~= all.take(i));
    } else {
        assert(all.drop_last().take(i) =~= all.take(i));
        lemma_device_found(all.drop_last(), id, i);
    }
}

/// A device without the owner's scope cannot revoke one of its siblings, whatever
/// it sends.
pub proof fn law_only_the_owner_revokes(caller: DeviceContext, id: Seq<char>, reason: Option<Seq<char>>)
    requires
        revoke_refusal(caller.spec_holds(crate::identity::UI_SCOPE@), id, reason) is None,
    ensures
        caller.spec_holds(crate::identity::UI_SCOPE@),
{
}

/// What reaches the audit row of a revocation is bounded and free of control
/// characters.
pub proof fn law_recorded_reason_is_bounded(id: Seq<char>, raw: Option<Seq<char>>)
    requires
        revoke_refusal(true, id, reason_given(raw)) is None,
    ensures
        reason_given(raw) matches Some(r) ==> 0 < r.len() <= MAX_REASON_CHARS && !has_control_char(
            r,
        ),
{
}

/// A device is found at its first place in the list, and only where it is in
/// the list.
pub proof fn law_a_listed_device_is_found(all: Seq<(Device, ClassProfile)>, id: Seq<char>)
    ensures
        match device_at(all, id) {
            Some(i) => 0 <= i < all.len() && all[i].0.id@ == id && forall|k: int|
                0 <= k < i ==> (#[trigger] all[k]).0.id@ != id,
            None => forall|k: int| 0 <= k < all.len() ==> (#[trigger] all[k]).0.id@ != id,
        },
    decreases all.len(),
{
    if all.len() > 0 {
        let shorter = all.drop_last();
        law_a_listed_device_is_found(shorter, id);
        assert forall|k: int| 0 <= k < shorter.len() implies shorter[k] == all[k] by {}
        match device_at(shorter, id) {
            Some(i) => {
                assert(all[i] == shorter[i]);
                assert forall|k: int| 0 <= k < i implies (#[trigger] all[k]).0.id@ != id by {
                    assert(shorter[k].0.id@ != id);
                }
            },
            None => {
                assert forall|k: int| 0 <= k < all.len() - 1 implies (#[trigger] all[k]).0.id@
                    != id by {
                    assert(shorter[k].0.id@ != id);
                }
            },
        }
    }
}

/// The reason for a revocation is what was said without the white space around
/// it; white space alone is no reason.
pub proof fn law_a_reason_is_what_was_said(raw: Option<Seq<char>>)
    ensures
        reason_given(raw) is Some <==> (raw matches Some(r) && text::trimmed(r).len() > 0),
        reason_given(raw) matches Some(r) ==> raw is Some && r == text::trimmed(raw->0),
{
}

/// A revocation goes ahead exactly from a device with the `ui` scope, of an id
/// that is one, for a reason of at most two hundred characters without a control
/// character, or for none.
pub proof fn law_a_revocation_wants_scope_id_and_reason(
    holds_ui: bool,
    id: Seq<char>,
    reason: Option<Seq<char>>,
)
    ensures
        revoke_refusal(holds_ui, id, reason) is None <==> {
            &&& holds_ui
            &&& ids::is_ulid(id)
            &&& reason matches Some(r) ==> r.len() <= 200 && forall|i: int|
                0 <= i < r.len() ==> !text::is_control(#[trigger] r[i])
        },
        revoke_refusal(holds_ui, id, reason) matches Some(p) ==> p.status == (if holds_ui {
            400u16
        } else {
            403u16
        }),
        no_such_device_view().status == 404,
        store_unavailable_view().status == 503,
{
}

/// A shown device is the stored one, with what its class may do.
pub proof fn law_a_shown_device_is_the_stored_one(dto: DeviceDto, d: Device, profile: ClassProfile)
    requires
        shows(dto, d, profile),
    ensures
        dto.device_id@ == d.id@,
        dto.name@ == d.name@,
        crate::identity::DeviceClass::named(dto.device_class@) == Some(d.class),
        dto.scopes@ == profile.scopes@,
        dto.executes_tools == profile.executes_tools,
        dto.created_at@ == time::rfc3339_of(d.created_at),
        dto.last_seen_at is Some <==> d.last_seen_at is Some,
        d.last_seen_at matches Some(at) ==> dto.last_seen_at->0@ == time::rfc3339_of(at),
        dto.revoked_at is Some <==> d.revoked_at is Some,
        d.revoked_at matches Some(at) ==> dto.revoked_at->0@ == time::rfc3339_of(at),
        dto.revoked_reason == d.revoked_reason,
{
    crate::identity::law_class_names_round_trip(d.class);
}

/// The records of a revocation and of its refusals: who asked, which device it
/// was about, when, and why; and whether a device revoked itself.
pub proof fn law_revocations_are_recorded(
    caller: DeviceContext,
    target: Seq<char>,
    reason: Option<Seq<char>>,
    event_type: Seq<char>,
    now: Timestamp,
)
    ensures
        ({
            let r = revoked_event(caller, target, reason, now);
            &&& r.occurred_at == now
            &&& r.event_type == "device.revoked"@
            &&& text::stripped(r.actor, "device:"@) == Some(caller.device_id@)
            &&& text::stripped(r.target, "device:"@) == Some(target)
            &&& r.payload.len() == 2
            &&& r.payload[0].0 == "reason"@
            &&& reason matches Some(why) ==> r.payload[0].1 == audit::ValueView::Text(why)
            &&& reason is None ==> r.payload[0].1 is Null
            &&& r.payload[1] == (
                "selfRevocation"@,
                audit::ValueView::Bool(caller.device_id@ == target),
            )
        }),
        ({
            let kept = last_owner_event(caller, target, now);
            &&& kept.occurred_at == now
            &&& kept.event_type == "device.revoke_denied"@
            &&& text::stripped(kept.actor, "device:"@) == Some(caller.device_id@)
            &&& text::stripped(kept.target, "device:"@) == Some(target)
            &&& kept.payload == seq![("reason"@, audit::ValueView::Text("last owner device"@))]
        }),
        ({
            let denied = refusal_view(caller, event_type, target, now);
            &&& denied.occurred_at == now
            &&& denied.event_type == event_type
            &&& text::stripped(denied.actor, "device:"@) == Some(caller.device_id@)
            &&& denied.target == target
            &&& denied.payload[0] == (
                "deviceClass"@,
                audit::ValueView::Text(caller.class.name()@),
            )
        }),
{
    text::law_a_prefix_is_taken_off(seq![], "device:"@, caller.device_id@);
    text::law_a_prefix_is_taken_off(seq![], "device:"@, target);
}

/// What a request for the owner's surfaces meets.
pub open spec fn gated(g: Gate, caller: Option<&DeviceContext>, path: Seq<char>, now: Timestamp) -> bool {
    match caller {
        None => g matches Gate::Refuse { problem, audit } && problem@ == auth::unauthorized_view()
            && audit is None,
        Some(c) => if c.spec_holds(crate::identity::UI_SCOPE@) {
            g is Pass
        } else {
            g matches Gate::Refuse { problem, audit } && problem@ == ui_scope_required_view() && (
            audit matches Some(e) && e@ == refusal_view(
                *c,
                "device.management_denied"@,
                path,
                now,
            ))
        },
    }
}

/// What a request for the devices is answered with.
pub open spec fn lists_devices(
    r: Result<Vec<DeviceDto>, ProblemDetails>,
    caller: DeviceContext,
    devices: Result<Vec<(Device, ClassProfile)>, RepositoryError>,
) -> bool {
    if !caller.spec_holds(crate::identity::UI_SCOPE@) {
        r matches Err(e) && e@ == ui_scope_required_view()
    } else {
        match devices {
            Err(_) => r matches Err(e) && e@ == store_unavailable_view(),
            Ok(all) => r matches Ok(rows) && rows@.len() == all@.len() && (forall|i: int|
                0 <= i < all@.len() ==> shows(#[trigger] rows@[i], all@[i].0, all@[i].1)),
        }
    }
}

/// What follows from the outcome of a revocation.
pub open spec fn follows_revocation(
    step: RevocationStep,
    outcome: Result<RevocationOutcome, RepositoryError>,
    caller: DeviceContext,
    target: Seq<char>,
    now: Timestamp,
) -> bool {
    match outcome {
        Ok(RevocationOutcome::Revoked) => step == (RevocationStep::Announce {
            forget_surface: true,
            cancel_runs: true,
        }),
        Ok(RevocationOutcome::AlreadyRevoked) => step == (RevocationStep::Announce {
            forget_surface: false,
            cancel_runs: false,
        }),
        Ok(RevocationOutcome::NotFound) => step matches RevocationStep::Refuse { problem, audit }
            && problem@ == no_such_device_view() && audit is None,
        Ok(RevocationOutcome::LastOwnerDevice) => step matches RevocationStep::Refuse {
            problem,
            audit,
        } && problem@.status == 409 && problem@.code is IdentityLastOwnerDevice && (
        audit matches Some(e) && e@ == last_owner_event(caller, target, now)),
        Err(_) => step matches RevocationStep::Refuse { problem, audit } && problem@
            == store_unavailable_view() && audit is None,
    }
}

/// The owner's surfaces are passed exactly by a caller that holds the `ui` scope.
/// Nobody at all is unauthorized; a device without the scope is refused, and that
/// is recorded.
pub proof fn law_the_owners_surfaces_want_the_scope(
    g: Gate,
    caller: Option<&DeviceContext>,
    path: Seq<char>,
    now: Timestamp,
)
    requires
        gated(g, caller, path, now),
    ensures
        g is Pass <==> caller is Some && text::views(caller->0.scopes@).contains("ui"@),
        g matches Gate::Refuse { problem, audit } ==> {
            &&& problem.status == (if caller is Some {
                403u16
            } else {
                401u16
            })
            &&& audit is Some <==> caller is Some
        },
{
}

/// The devices are listed exactly for the owner, all of them and in their order.
pub proof fn law_devices_are_listed_for_the_owner(
    r: Result<Vec<DeviceDto>, ProblemDetails>,
    caller: DeviceContext,
    devices: Result<Vec<(Device, ClassProfile)>, RepositoryError>,
    i: int,
)
    requires
        lists_devices(r, caller, devices),
    ensures
        r is Ok <==> text::views(caller.scopes@).contains("ui"@) && devices is Ok,
        r matches Ok(rows) ==> rows@.len() == devices->Ok_0@.len() && (0 <= i < rows@.len()
            ==> rows@[i].device_id@ == devices->Ok_0@[i].0.id@),
{
    if r is Ok {
        let rows = r->Ok_0;
        if 0 <= i < rows@.len() {
            assert(shows(rows@[i], devices->Ok_0@[i].0, devices->Ok_0@[i].1));
        }
    }
}

/// A revocation is announced where the device is revoked, now or before; only one
/// that happened now takes its surface and its runs. The last owner device stays,
/// and that is recorded; nothing else leaves a record here.
pub proof fn law_a_revocation_is_announced(
    step: RevocationStep,
    outcome: Result<RevocationOutcome, RepositoryError>,
    caller: DeviceContext,
    target: Seq<char>,
    now: Timestamp,
)
    requires
        follows_revocation(step, outcome, caller, target, now),
    ensures
        step is Announce <==> outcome is Ok && (outcome->Ok_0 is Revoked
            || outcome->Ok_0 is AlreadyRevoked),
        step matches RevocationStep::Announce { forget_surface, cancel_runs } ==> {
            &&& forget_surface <==> outcome->Ok_0 is Revoked
            &&& cancel_runs <==> outcome->Ok_0 is Revoked
        },
        step matches RevocationStep::Refuse { problem, audit } ==> {
            &&& audit is Some <==> outcome is Ok && outcome->Ok_0 is LastOwnerDevice
            &&& problem.status == (if outcome is Err {
                503u16
            } else if outcome->Ok_0 is LastOwnerDevice {
                409u16
            } else {
                404u16
            })
        },
{
}

/// The codes that a client of the devices branches on.
pub proof fn law_device_problems_have_their_codes()
    ensures
        ui_scope_required_view().status == 403 && ui_scope_required_view().code is AuthScopeMissing,
        store_unavailable_view().status == 503 && store_unavailable_view().code is ProviderUnavailable,
        no_such_device_view().status == 404 && no_such_device_view().code is ResourceNotFound,
{
}

} // verus!
