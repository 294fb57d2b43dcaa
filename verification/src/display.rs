//! Display placement: which monitor of which device an artifact is put on.
//!
//! A placement is an authenticated client action. The monitor is the request's
//! or the profile's, and where neither names one the request fails closed.

use vstd::prelude::*;

use crate::audit;
use crate::audit::{AuditEvent, AuditValue};
use crate::devices::{ConnectedDevices, SurfacePlacement, SurfaceState};
use crate::identity::{Device, DeviceContext};
use crate::ids;
use crate::problem;
use crate::problem::{ErrorCode, ProblemDetails, RepositoryError};
use crate::text;
use crate::text_map;
use crate::text_map::TextMap;
use crate::time::Timestamp;

verus! {

/// The closed set of logical surfaces.
#[derive(Debug, Clone, Copy, PartialEq, Eq, Structural)]
pub enum Surface {
    Conversation,
    RunTimeline,
    ApprovalTray,
    ArtifactCanvas,
    AmbientStatus,
    Diagnostics,
    MediaWindow,
}

/// The surface with a wire name.
pub open spec fn surface_named(name: Seq<char>) -> Option<Surface> {
    if name == "conversation"@ {
        Some(Surface::Conversation)
    } else if name == "run_timeline"@ {
        Some(Surface::RunTimeline)
    } else if name == "approval_tray"@ {
        Some(Surface::ApprovalTray)
    } else if name == "artifact_canvas"@ {
        Some(Surface::ArtifactCanvas)
    } else if name == "ambient_status"@ {
        Some(Surface::AmbientStatus)
    } else if name == "diagnostics"@ {
        Some(Surface::Diagnostics)
    } else if name == "media_window"@ {
        Some(Surface::MediaWindow)
    } else {
        None
    }
}

pub fn surface_from_wire(name: &str) -> (r: Option<Surface>)
    ensures
        r == surface_named(name@),
{
    if text::same(name, "conversation") {
        Some(Surface::Conversation)
    } else if text::same(name, "run_timeline") {
        Some(Surface::RunTimeline)
    } else if text::same(name, "approval_tray") {
        Some(Surface::ApprovalTray)
    } else if text::same(name, "artifact_canvas") {
        Some(Surface::ArtifactCanvas)
    } else if text::same(name, "ambient_status") {
        Some(Surface::AmbientStatus)
    } else if text::same(name, "diagnostics") {
        Some(Surface::Diagnostics)
    } else if text::same(name, "media_window") {
        Some(Surface::MediaWindow)
    } else {
        None
    }
}

/// The name of a monitor: not empty, and without control characters, so that no
/// newline can be smuggled into a dispatch line.
pub open spec fn is_monitor_id(s: Seq<char>) -> bool {
    s.len() > 0 && forall|i: int| 0 <= i < s.len() ==> !text::is_control(#[trigger] s[i])
}

pub fn monitor_id_ok(s: &str) -> (b: bool)
    ensures
        b == is_monitor_id(s@),
{
    let v = text::chars_of(s);
    v.len() > 0 && !text::has_control(&v)
}

// ---------------------------------------------------------------------------
// The profile
// ---------------------------------------------------------------------------

/// Which monitor each surface is pinned to.
pub struct DisplayProfile {
    pub assignments: Vec<(Surface, String)>,
}

/// The monitor of the first assignment of a surface.
pub open spec fn assigned(assignments: Seq<(Surface, String)>, surface: Surface) -> Option<Seq<char>>
    decreases assignments.len(),
{
    if assignments.len() == 0 {
        None
    } else if assignments[0].0 == surface {
        Some(assignments[0].1@)
    } else {
        assigned(assignments.drop_first(), surface)
    }
}

impl DisplayProfile {
    pub fn monitor_for(&self, surface: Surface) -> (r: Option<String>)
        ensures
            text::opt_view(r) == assigned(self.assignments@, surface),
    {
        let mut i: usize = 0;
        assert(self.assignments@.skip(0) =~= self.assignments@);
        while i < self.assignments.len()
            invariant
                i <= self.assignments@.len(),
                assigned(self.assignments@, surface) == assigned(
                    self.assignments@.skip(i as int),
                    surface,
                ),
            decreases self.assignments@.len() - i,
        {
            assert(self.assignments@.skip(i as int).drop_first() =~= self.assignments@.skip(
                i + 1,
            ));
            if self.assignments[i].0 == surface {
                return Some(self.assignments[i].1.clone());
            }
            i = i + 1;
        }
        None
    }
}

/// What is wrong with a configured profile.
pub enum ProfileFault {
    /// No surface has this name.
    UnknownSurface(String),
    /// The monitor of this surface is not a monitor name.
    BadMonitor(String),
}

/// What an operator is told of a fault.
pub open spec fn fault_text(fault: ProfileFault) -> Seq<char> {
    match fault {
        ProfileFault::UnknownSurface(name) => "[display].profile: unknown surface "@
            + text::debug_text(name@),
        ProfileFault::BadMonitor(name) => "[display].profile."@ + name@
            + ": not a valid monitor id"@,
    }
}

impl ProfileFault {
    pub fn message(&self) -> (s: String)
        ensures
            s@ == fault_text(*self),
    {
        match self {
            ProfileFault::UnknownSurface(name) => {
                let shown = text::quoted(name.as_str());
                text::concat2("[display].profile: unknown surface ", shown.as_str())
            },
            ProfileFault::BadMonitor(name) => text::concat3(
                "[display].profile.",
                name.as_str(),
                ": not a valid monitor id",
            ),
        }
    }
}

/// Whether one entry of the configured profile is in order.
pub open spec fn entry_ok(surface_name: Seq<char>, monitor: Seq<char>) -> bool {
    surface_named(surface_name) is Some && is_monitor_id(monitor)
}

/// Whether an assignment is the one that an entry names.
pub open spec fn assigns(a: (Surface, String), surface_name: Seq<char>, monitor: Seq<char>) -> bool {
    surface_named(surface_name) == Some(a.0) && a.1@ == monitor
}

/// Build a profile from the configuration. An unknown surface name or a
/// malformed monitor is an error rather than silently ignored. The entries are
/// taken in the order of their names, so of two faults the first by name is told.
pub fn profile_from_config(map: &TextMap<String>) -> (r: Result<DisplayProfile, ProfileFault>)
    ensures
        text_map::in_order(map.keys()),
        map.keys().to_set() == map@.dom(),
        match r {
            Ok(p) => p.assignments@.len() == map.keys().len() && (forall|i: int|
                0 <= i < map.keys().len() ==> assigns(
                    #[trigger] p.assignments@[i],
                    map.keys()[i],
                    map@[map.keys()[i]]@,
                ) && entry_ok(map.keys()[i], map@[map.keys()[i]]@)),
            Err(fault) => exists|i: int|
                #![trigger map.keys()[i]]
                0 <= i < map.keys().len() && !entry_ok(map.keys()[i], map@[map.keys()[i]]@) && (
                forall|j: int|
                    #![trigger map.keys()[j]]
                    0 <= j < i ==> entry_ok(map.keys()[j], map@[map.keys()[j]]@)) && match fault {
                    ProfileFault::UnknownSurface(name) => name@ == map.keys()[i] && surface_named(
                        name@,
                    ) is None,
                    ProfileFault::BadMonitor(name) => name@ == map.keys()[i] && surface_named(
                        name@,
                    ) is Some,
                },
        },
{
    let mut assignments: Vec<(Surface, String)> = Vec::new();
    let n: usize = map.len();
    let mut i: usize = 0;
    while i < n
        invariant
            i <= n,
            n == map.keys().len(),
            text_map::in_order(map.keys()),
            map.keys().to_set() == map@.dom(),
            assignments@.len() == i,
            forall|j: int|
                #![trigger map.keys()[j]]
                0 <= j < i ==> entry_ok(map.keys()[j], map@[map.keys()[j]]@),
            forall|j: int|
                0 <= j < i ==> assigns(
                    #[trigger] assignments@[j],
                    map.keys()[j],
                    map@[map.keys()[j]]@,
                ),
        decreases n - i,
    {
        let name = map.key_at(i);
        let monitor = map.value_at(i);
        let surface = match surface_from_wire(name.as_str()) {
            Some(s) => s,
            None => {
                assert(!entry_ok(map.keys()[i as int], map@[map.keys()[i as int]]@));
                return Err(ProfileFault::UnknownSurface(name.clone()));
            },
        };
        if !monitor_id_ok(monitor.as_str()) {
            assert(!entry_ok(map.keys()[i as int], map@[map.keys()[i as int]]@));
            return Err(ProfileFault::BadMonitor(name.clone()));
        }
        assignments.push((surface, monitor.clone()));
        i = i + 1;
    }
    Ok(DisplayProfile { assignments })
}

// ---------------------------------------------------------------------------
// Nodes
// ---------------------------------------------------------------------------

/// A paired device, and whether its class presents surfaces.
pub struct DisplayDevice {
    pub device: Device,
    pub presents: bool,
}

/// What a placement needs to address a node.
pub struct NodeTargets {
    /// The room names the owner says, and the devices they stand for.
    pub aliases: TextMap<String>,
    /// What the identity store lists.
    pub devices: Result<Vec<DisplayDevice>, RepositoryError>,
    /// Who holds a socket right now.
    pub connected: ConnectedDevices,
}

pub open spec fn node_unavailable_view(detail: Seq<char>) -> problem::ProblemView {
    problem::problem_of(
        409,
        ErrorCode::DisplayNodeUnavailable,
        "the named node cannot take this placement"@,
        Some(detail),
    )
}

fn node_unavailable(detail: &str) -> (p: ProblemDetails)
    ensures
        p@ == node_unavailable_view(detail@),
{
    problem::problem(
        409,
        ErrorCode::DisplayNodeUnavailable,
        "the named node cannot take this placement",
        Some(detail.to_owned()),
    )
}

/// The device that a room name or a device id stands for.
pub open spec fn aliased(aliases: Map<Seq<char>, String>, node: Seq<char>) -> Seq<char> {
    if aliases.dom().contains(node) {
        aliases[node]@
    } else {
        node
    }
}

/// The place of the first device with an identifier.
pub open spec fn listed_at(devices: Seq<DisplayDevice>, id: Seq<char>) -> Option<int>
    decreases devices.len(),
{
    if devices.len() == 0 {
        None
    } else {
        match listed_at(devices.drop_last(), id) {
            Some(i) => Some(i),
            None => if devices.last().device.id@ == id {
                Some(devices.len() - 1)
            } else {
                None
            },
        }
    }
}

/// The device that a node name resolves to, or what is answered. A device that
/// is not paired and one that was revoked are answered alike.
pub open spec fn node_resolution(nodes: Option<NodeTargets>, node: Seq<char>) -> Result<
    Seq<char>,
    problem::ProblemView,
> {
    match nodes {
        None => Err(node_unavailable_view("this deployment has no paired display nodes"@)),
        Some(n) => {
            let id = aliased(n.aliases@, node);
            if !ids::is_ulid(id) {
                Err(node_unavailable_view("no such room or device"@))
            } else {
                match n.devices {
                    Err(_) => Err(crate::devices::store_unavailable_view()),
                    Ok(devices) => match listed_at(devices@, id) {
                        None => Err(node_unavailable_view("no such room or device"@)),
                        Some(i) => if devices@[i].device.revoked_at is Some {
                            Err(node_unavailable_view("no such room or device"@))
                        } else if !devices@[i].presents {
                            Err(node_unavailable_view("that device cannot present a surface"@))
                        } else if n.connected@.count(id) == 0 {
                            Err(node_unavailable_view("that device is not connected"@))
                        } else {
                            Ok(id)
                        },
                    },
                }
            }
        },
    }
}

proof fn lemma_listed(devices: Seq<DisplayDevice>, id: Seq<char>, i: int)
    requires
        0 <= i < devices.len(),
        listed_at(devices.take(i), id) is None,
        devices[i].device.id@ == id,
    ensures
        listed_at(devices, id) == Some(i),
    decreases devices.len(),
{
    if i == devices.len() - 1 {
        assert(devices.drop_last() =~= devices.take(i));
    } else {
        assert(devices.drop_last().take(i) =~= devices.take(i));
        lemma_listed(devices.drop_last(), id, i);
    }
}

fn find_listed(devices: &Vec<DisplayDevice>, id: &str) -> (r: Option<usize>)
    ensures
        match r {
            Some(i) => i < devices@.len() && listed_at(devices@, id@) == Some(i as int),
            None => listed_at(devices@, id@) is None,
        },
{
    let mut i: usize = 0;
    assert(devices@.take(0) =~= seq![]);
    while i < devices.len()
        invariant
            i <= devices@.len(),
            listed_at(devices@.take(i as int), id@) is None,
        decreases devices@.len() - i,
    {
        assert(devices@.take(i + 1).drop_last() =~= devices@.take(i as int));
        if text::same(devices[i].device.id.as_str(), id) {
            proof {
                lemma_listed(devices@, id@, i as int);
            }
            return Some(i);
        }
        i = i + 1;
    }
    assert(devices@.take(devices@.len() as int) =~= devices@);
    None
}

/// Turn what the owner said, a room name or a device id, into a device that can
/// actually present, or a refusal.
pub fn resolve_node(nodes: Option<&NodeTargets>, node: &str) -> (r: Result<String, ProblemDetails>)
    ensures
        match (
            r,
            node_resolution(
                match nodes {
                    Some(n) => Some(*n),
                    None => None,
                },
                node@,
            ),
        ) {
            (Ok(id), Ok(v)) => id@ == v,
            (Err(e), Err(p)) => e@ == p,
            _ => false,
        },
{
    let targets = match nodes {
        Some(n) => n,
        None => {
            return Err(node_unavailable("this deployment has no paired display nodes"));
        },
    };
    let id = match targets.aliases.get(node) {
        Some(alias) => alias.clone(),
        None => node.to_owned(),
    };
    if !ids::is_id(id.as_str()) {
        return Err(node_unavailable("no such room or device"));
    }
    let devices = match &targets.devices {
        Ok(devices) => devices,
        Err(_) => {
            return Err(problem::unavailable("identity store unavailable"));
        },
    };
    let i: usize = match find_listed(devices, id.as_str()) {
        Some(i) => i,
        None => {
            return Err(node_unavailable("no such room or device"));
        },
    };
    if !devices[i].device.is_active() {
        return Err(node_unavailable("no such room or device"));
    }
    if !devices[i].presents {
        return Err(node_unavailable("that device cannot present a surface"));
    }
    if !targets.connected.is_connected(id.as_str()) {
        return Err(node_unavailable("that device is not connected"));
    }
    Ok(id)
}

/// A placement only ever goes to a device that is paired, not revoked, able to
/// present, and connected.
pub proof fn law_placement_reaches_a_live_screen(n: NodeTargets, node: Seq<char>)
    requires
        node_resolution(Some(n), node) is Ok,
    ensures
        ({
            let id = node_resolution(Some(n), node)->Ok_0;
            &&& n.connected@.count(id) > 0
            &&& n.devices matches Ok(devices) && (listed_at(devices@, id) matches Some(i)
                && devices@[i].device.revoked_at is None && devices@[i].presents)
        }),
{
}

// ---------------------------------------------------------------------------
// Placing
// ---------------------------------------------------------------------------

/// A request to put an artifact on a screen.
pub struct OpenArtifactRequest {
    pub display: Option<String>,
    pub node: Option<String>,
}

/// An admitted placement. Its record is all that can be read of it: what is
/// dispatched, and to whom, is had from [`after_record`] alone.
pub struct Placement {
    placement: SurfacePlacement,
    target_device_id: Option<String>,
    audit: AuditEvent,
}

impl Placement {
    /// What is to be shown.
    pub closed spec fn shown(self) -> SurfacePlacement {
        self.placement
    }

    /// The device that it is for, where one was named.
    pub closed spec fn target(self) -> Option<String> {
        self.target_device_id
    }

    /// The record that is written first.
    pub closed spec fn event(self) -> AuditEvent {
        self.audit
    }

    /// The record that is written first.
    pub fn audit(&self) -> (e: &AuditEvent)
        ensures
            *e == self.event(),
    {
        &self.audit
    }
}

/// A placement that is on record, so that it may be dispatched.
pub struct RecordedPlacement {
    placement: SurfacePlacement,
    target_device_id: Option<String>,
}

impl RecordedPlacement {
    /// What is to be shown.
    pub closed spec fn shown(self) -> SurfacePlacement {
        self.placement
    }

    /// The device that it is for, where one was named.
    pub closed spec fn target(self) -> Option<String> {
        self.target_device_id
    }

    pub fn placement(&self) -> (p: &SurfacePlacement)
        ensures
            *p == self.shown(),
    {
        &self.placement
    }

    pub fn target_device_id(&self) -> (t: &Option<String>)
        ensures
            *t == self.target(),
    {
        &self.target_device_id
    }
}

/// The record of a placement: surface and monitor, no artifact content.
pub open spec fn placed_event(
    caller: DeviceContext,
    id: Seq<char>,
    monitor: Seq<char>,
    target: Option<Seq<char>>,
    now: Timestamp,
) -> audit::AuditView {
    audit::event_of(
        now,
        audit::device_actor(caller.device_id@),
        "display.surface_placed"@,
        "artifact:"@ + id,
        seq![
            ("surface"@, audit::ValueView::Text("artifact_canvas"@)),
            ("monitor"@, audit::ValueView::Text(monitor)),
            (
                "targetDeviceId"@,
                match target {
                    Some(t) => audit::ValueView::Text(t),
                    None => audit::ValueView::Null,
                },
            ),
        ],
    )
}

/// What a request to place an artifact comes to: the monitor and the device, or
/// what is answered.
pub open spec fn placement_of(
    id: Seq<char>,
    request: OpenArtifactRequest,
    exists_now: Result<bool, RepositoryError>,
    nodes: Option<NodeTargets>,
    profile: DisplayProfile,
) -> Result<(Seq<char>, Option<Seq<char>>), problem::ProblemView> {
    if !ids::is_ulid(id) {
        Err(no_such_artifact_view())
    } else if exists_now is Err {
        Err(
            problem::merged_problem(
                exists_now->Err_0,
                "display placement conflict"@,
                "storage unavailable"@,
            ),
        )
    } else if exists_now == Ok::<bool, RepositoryError>(false) {
        Err(no_such_artifact_view())
    } else if request.display matches Some(d) && !is_monitor_id(d@) {
        Err(
            problem::problem_of(
                400,
                ErrorCode::ValidationFailed,
                "display is not a valid monitor id"@,
                None,
            ),
        )
    } else if request.node matches Some(n) && node_resolution(nodes, n@) is Err {
        Err(node_resolution(nodes, request.node->0@)->Err_0)
    } else {
        let target = match request.node {
            Some(n) => Some(node_resolution(nodes, n@)->Ok_0),
            None => None,
        };
        match request.display {
            Some(d) => Ok((d@, target)),
            None => match assigned(profile.assignments@, Surface::ArtifactCanvas) {
                Some(monitor) => Ok((monitor, target)),
                None => Err(
                    problem::problem_of(
                        409,
                        ErrorCode::ResourceVersionConflict,
                        "no monitor for the artifact canvas: name one via `display` or configure [display].profile.artifact_canvas"@,
                        None,
                    ),
                ),
            },
        }
    }
}

pub open spec fn no_such_artifact_view() -> problem::ProblemView {
    problem::problem_of(404, ErrorCode::ResourceNotFound, "no such artifact"@, None)
}

/// Decide where an artifact goes. `exists_now` is whether the store has the
/// artifact.
pub fn open_artifact(
    id: &str,
    request: &OpenArtifactRequest,
    exists_now: Result<bool, RepositoryError>,
    nodes: Option<&NodeTargets>,
    profile: &DisplayProfile,
    caller: &DeviceContext,
    now: Timestamp,
) -> (r: Result<Placement, ProblemDetails>)
    ensures
        match (
            r,
            placement_of(
                id@,
                *request,
                exists_now,
                match nodes {
                    Some(n) => Some(*n),
                    None => None,
                },
                *profile,
            ),
        ) {
            (Ok(p), Ok((monitor, target))) => p.shown().surface == Surface::ArtifactCanvas
                && p.shown().monitor@ == monitor && text::opt_view(p.target()) == target
                && p.event()@ == placed_event(*caller, id@, monitor, target, now),
            (Err(e), Err(v)) => e@ == v,
            _ => false,
        },
{
    if !ids::is_id(id) {
        return Err(problem::not_found("no such artifact"));
    }
    match exists_now {
        Ok(found) => if !found {
            return Err(problem::not_found("no such artifact"));
        },
        Err(e) => {
            return Err(repository_problem(e));
        },
    }
    if let Some(d) = &request.display {
        if !monitor_id_ok(d.as_str()) {
            return Err(problem::bad_request("display is not a valid monitor id"));
        }
    }
    let target_device_id: Option<String> = match &request.node {
        Some(node) => match resolve_node(nodes, node.as_str()) {
            Ok(device) => Some(device),
            Err(e) => {
                return Err(e);
            },
        },
        None => None,
    };
    let monitor = match &request.display {
        Some(d) => d.clone(),
        None => match profile.monitor_for(Surface::ArtifactCanvas) {
            Some(m) => m,
            None => {
                return Err(
                    problem::problem(
                        409,
                        ErrorCode::ResourceVersionConflict,
                        "no monitor for the artifact canvas: name one via `display` or configure [display].profile.artifact_canvas",
                        None,
                    ),
                );
            },
        },
    };
    let target_value = match &target_device_id {
        Some(t) => AuditValue::Text(t.clone()),
        None => AuditValue::Null,
    };
    let mut payload = audit::with_field(
        audit::no_fields(),
        "surface",
        AuditValue::Text("artifact_canvas".to_owned()),
    );
    payload = audit::with_field(payload, "monitor", AuditValue::Text(monitor.clone()));
    payload = audit::with_field(payload, "targetDeviceId", target_value);
    let event = AuditEvent {
        occurred_at: now,
        actor: audit::actor_of(caller.device_id.as_str()),
        event_type: "display.surface_placed".to_owned(),
        target: text::concat2("artifact:", id),
        correlation_id: None,
        payload,
    };
    assert(event@ =~= placed_event(
        *caller,
        id@,
        monitor@,
        text::opt_view(target_device_id),
        now,
    ));
    Ok(
        Placement {
            placement: SurfacePlacement { surface: Surface::ArtifactCanvas, monitor },
            target_device_id,
            audit: event,
        },
    )
}

/// What follows from recording a placement: it may be dispatched, or, where it
/// could not be recorded, it is not issued.
pub fn after_record(p: Placement, recorded: Result<(), RepositoryError>) -> (r: Result<
    RecordedPlacement,
    ProblemDetails,
>)
    ensures
        match recorded {
            Ok(()) => r matches Ok(q) && q.shown() == p.shown() && q.target() == p.target(),
            Err(e) => r matches Err(v) && v@ == problem::merged_problem(
                e,
                "display placement conflict"@,
                "storage unavailable"@,
            ),
        },
{
    match recorded {
        Ok(()) => Ok(
            RecordedPlacement { placement: p.placement, target_device_id: p.target_device_id },
        ),
        Err(e) => Err(repository_problem(e)),
    }
}

/// What a placement is answered with.
pub struct OpenArtifactResponse {
    pub artifact_id: String,
    pub surface: Surface,
    pub monitor: String,
    pub target_device_id: Option<String>,
    /// Whether anyone took the directive.
    pub dispatched: bool,
}

/// Conclude a dispatched placement: what the target should be showing from now
/// on, and the answer.
pub fn conclude(
    p: RecordedPlacement,
    id: &str,
    surfaces: &mut SurfaceState,
    dispatched: bool,
) -> (r: OpenArtifactResponse)
    ensures
        final(surfaces)@ == remembered(old(surfaces)@, p.target(), p.shown()),
        r.artifact_id@ == id@,
        r.surface == p.shown().surface,
        r.monitor@ == p.shown().monitor@,
        r.target_device_id == p.target(),
        r.dispatched == dispatched,
        final(surfaces)@ == (match p.target() {
            Some(t) => old(surfaces)@.insert(t@, p.shown()),
            None => old(surfaces)@,
        }),
{
    let monitor = p.placement.monitor.clone();
    let surface = p.placement.surface;
    if let Some(target) = &p.target_device_id {
        surfaces.remember(target.as_str(), p.placement);
    }
    OpenArtifactResponse {
        artifact_id: id.to_owned(),
        surface,
        monitor,
        target_device_id: p.target_device_id,
        dispatched,
    }
}

/// What a failing store is answered with.
pub fn repository_problem(error: RepositoryError) -> (p: ProblemDetails)
    ensures
        p@ == problem::merged_problem(
            error,
            "display placement conflict"@,
            "storage unavailable"@,
        ),
{
    problem::repository_problem_merged_idempotency(
        error,
        "display placement",
        "display placement conflict",
        "storage unavailable",
    )
}

/// Each surface has one name, and no other text names one.
pub proof fn law_surfaces_have_their_names(name: Seq<char>, other: Seq<char>)
    ensures
        surface_named("conversation"@) == Some(Surface::Conversation),
        surface_named("run_timeline"@) == Some(Surface::RunTimeline),
        surface_named("approval_tray"@) == Some(Surface::ApprovalTray),
        surface_named("artifact_canvas"@) == Some(Surface::ArtifactCanvas),
        surface_named("ambient_status"@) == Some(Surface::AmbientStatus),
        surface_named("diagnostics"@) == Some(Surface::Diagnostics),
        surface_named("media_window"@) == Some(Surface::MediaWindow),
        surface_named(name) is Some && surface_named(name) == surface_named(other) ==> name == other,
{
    reveal_strlit("conversation");
    reveal_strlit("run_timeline");
    reveal_strlit("approval_tray");
    reveal_strlit("artifact_canvas");
    reveal_strlit("ambient_status");
    reveal_strlit("diagnostics");
    reveal_strlit("media_window");
    assert("conversation"@[0] == 'c');
    assert("run_timeline"@[0] == 'r');
    assert("approval_tray"@[1] == 'p' && "approval_tray"@[0] == 'a');
    assert("artifact_canvas"@[1] == 'r' && "artifact_canvas"@[0] == 'a');
    assert("ambient_status"@[1] == 'm' && "ambient_status"@[0] == 'a');
    assert("diagnostics"@[0] == 'd');
    assert("media_window"@[0] == 'm');
}

/// A surface stands on the monitor that it was first assigned to; without an
/// assignment it stands on none.
pub proof fn law_the_first_assignment_holds(assignments: Seq<(Surface, String)>, surface: Surface)
    ensures
        match assigned(assignments, surface) {
            Some(monitor) => exists|i: int|
                0 <= i < assignments.len() && (#[trigger] assignments[i]).0 == surface
                    && assignments[i].1@ == monitor && forall|k: int|
                    0 <= k < i ==> (#[trigger] assignments[k]).0 != surface,
            None => forall|k: int|
                0 <= k < assignments.len() ==> (#[trigger] assignments[k]).0 != surface,
        },
    decreases assignments.len(),
{
    if assignments.len() > 0 {
        let rest = assignments.drop_first();
        if assignments[0].0 != surface {
            law_the_first_assignment_holds(rest, surface);
            assert forall|k: int| 1 <= k < assignments.len() implies #[trigger] assignments[k]
                == rest[k - 1] by {}
            match assigned(rest, surface) {
                Some(monitor) => {
                    let i = choose|i: int|
                        0 <= i < rest.len() && (#[trigger] rest[i]).0 == surface && rest[i].1@
                            == monitor && forall|k: int|
                            0 <= k < i ==> (#[trigger] rest[k]).0 != surface;
                    assert(assignments[i + 1] == rest[i]);
                    assert forall|k: int| 0 <= k < i + 1 implies (#[trigger] assignments[k]).0
                        != surface by {
                        if k > 0 {
                            assert(rest[k - 1].0 != surface);
                        }
                    }
                },
                None => {
                    assert forall|k: int| 0 <= k < assignments.len() implies (
                    #[trigger] assignments[k]).0 != surface by {
                        if k > 0 {
                            assert(rest[k - 1].0 != surface);
                        }
                    }
                },
            }
        }
    }
}

/// A display is found at its first place among those listed, and only where it
/// is listed.
pub proof fn law_a_listed_display_is_found(devices: Seq<DisplayDevice>, id: Seq<char>)
    ensures
        match listed_at(devices, id) {
            Some(i) => 0 <= i < devices.len() && devices[i].device.id@ == id && forall|k: int|
                0 <= k < i ==> (#[trigger] devices[k]).device.id@ != id,
            None => forall|k: int| 0 <= k < devices.len() ==> (#[trigger] devices[k]).device.id@ != id,
        },
    decreases devices.len(),
{
    if devices.len() > 0 {
        let shorter = devices.drop_last();
        law_a_listed_display_is_found(shorter, id);
        assert forall|k: int| 0 <= k < shorter.len() implies shorter[k] == devices[k] by {}
        match listed_at(shorter, id) {
            Some(i) => {
                assert(devices[i] == shorter[i]);
                assert forall|k: int| 0 <= k < i implies (#[trigger] devices[k]).device.id@ != id by {
                    assert(shorter[k].device.id@ != id);
                }
            },
            None => {
                assert forall|k: int| 0 <= k < devices.len() - 1 implies (
                #[trigger] devices[k]).device.id@ != id by {
                    assert(shorter[k].device.id@ != id);
                }
            },
        }
    }
}

/// A node that is named is reached exactly where the name, or what the owner's
/// room name stands for, is the id of a listed device that was not revoked, can
/// present a surface and is connected; and it is that device that is reached.
pub proof fn law_a_node_is_reached_by_its_name(n: NodeTargets, node: Seq<char>)
    ensures
        ({
            let id = if n.aliases@.dom().contains(node) {
                n.aliases@[node]@
            } else {
                node
            };
            &&& node_resolution(Some(n), node) is Ok <==> {
                &&& ids::is_ulid(id)
                &&& n.devices is Ok
                &&& listed_at(n.devices->Ok_0@, id) is Some
                &&& n.devices->Ok_0@[listed_at(n.devices->Ok_0@, id)->0].device.revoked_at is None
                &&& n.devices->Ok_0@[listed_at(n.devices->Ok_0@, id)->0].presents
                &&& n.connected@.count(id) > 0
            }
            &&& node_resolution(Some(n), node) is Ok ==> node_resolution(Some(n), node)->Ok_0 == id
            &&& node_resolution(Some(n), node) is Err ==> (node_resolution(
                Some(n),
                node,
            )->Err_0.status == 503 <==> ids::is_ulid(id) && n.devices is Err)
            &&& node_resolution(None, node) is Err
        }),
{
}

/// An artifact is placed exactly where it exists, on a monitor that the request
/// named or, for want of one, on the canvas's own, and on a node where one was
/// named that can be reached.
pub proof fn law_a_placement_goes_where_it_was_sent(
    id: Seq<char>,
    request: OpenArtifactRequest,
    exists_now: Result<bool, RepositoryError>,
    nodes: Option<NodeTargets>,
    profile: DisplayProfile,
)
    ensures
        placement_of(id, request, exists_now, nodes, profile) is Ok <==> {
            &&& ids::is_ulid(id)
            &&& exists_now == Ok::<bool, RepositoryError>(true)
            &&& request.display matches Some(d) ==> d@.len() > 0 && forall|k: int|
                0 <= k < d@.len() ==> !text::is_control(#[trigger] d@[k])
            &&& request.node matches Some(n) ==> node_resolution(nodes, n@) is Ok
            &&& request.display is None ==> assigned(
                profile.assignments@,
                Surface::ArtifactCanvas,
            ) is Some
        },
        placement_of(id, request, exists_now, nodes, profile) matches Ok((monitor, target)) ==> {
            &&& request.display matches Some(d) ==> monitor == d@
            &&& request.display is None ==> assigned(profile.assignments@, Surface::ArtifactCanvas)
                == Some(monitor)
            &&& request.node is None ==> target is None
            &&& request.node matches Some(n) ==> target is Some && node_resolution(nodes, n@)->Ok_0
                == target->0
        },
        placement_of(id, request, exists_now, nodes, profile) matches Err(p) ==> (!ids::is_ulid(id)
            || exists_now == Ok::<bool, RepositoryError>(false) ==> p.status == 404),
{
    if let Some(d) = request.display {
        assert(is_monitor_id(d@) <==> d@.len() > 0 && forall|k: int|
            0 <= k < d@.len() ==> !text::is_control(#[trigger] d@[k]));
    }
    if let Ok(there) = exists_now {
        if there {
            assert(exists_now == Ok::<bool, RepositoryError>(true));
        } else {
            assert(exists_now == Ok::<bool, RepositoryError>(false));
        }
    }
}

/// The record of a placement says who placed which artifact, on what monitor,
/// and on whose.
pub proof fn law_placements_are_recorded(
    caller: DeviceContext,
    id: Seq<char>,
    monitor: Seq<char>,
    target: Option<Seq<char>>,
    now: Timestamp,
)
    ensures
        ({
            let r = placed_event(caller, id, monitor, target, now);
            &&& r.occurred_at == now
            &&& r.event_type == "display.surface_placed"@
            &&& text::stripped(r.actor, "device:"@) == Some(caller.device_id@)
            &&& text::stripped(r.target, "artifact:"@) == Some(id)
            &&& r.payload.len() == 3
            &&& r.payload[0] == ("surface"@, audit::ValueView::Text("artifact_canvas"@))
            &&& r.payload[1] == ("monitor"@, audit::ValueView::Text(monitor))
            &&& r.payload[2].0 == "targetDeviceId"@
            &&& target matches Some(t) ==> r.payload[2].1 == audit::ValueView::Text(t)
            &&& target is None ==> r.payload[2].1 is Null
        }),
{
    text::law_a_prefix_is_taken_off(seq![], "device:"@, caller.device_id@);
    text::law_a_prefix_is_taken_off(seq![], "artifact:"@, id);
}

/// What the screens should be showing after a placement.
pub open spec fn remembered(
    surfaces: Map<Seq<char>, SurfacePlacement>,
    target: Option<String>,
    shown: SurfacePlacement,
) -> Map<Seq<char>, SurfacePlacement> {
    match target {
        Some(t) => surfaces.insert(t@, shown),
        None => surfaces,
    }
}

/// A placement on a node is remembered for that node and for no other, and one
/// without a node for none.
pub proof fn law_placements_are_remembered_for_their_node(
    surfaces: Map<Seq<char>, SurfacePlacement>,
    target: Option<String>,
    shown: SurfacePlacement,
    other: Seq<char>,
)
    ensures
        target matches Some(t) ==> remembered(surfaces, target, shown).dom().contains(t@)
            && remembered(surfaces, target, shown)[t@] == shown,
        target is None || target->0@ != other ==> (remembered(
            surfaces,
            target,
            shown,
        ).dom().contains(other) <==> surfaces.dom().contains(other)),
        (target is None || target->0@ != other) && surfaces.dom().contains(other) ==> remembered(
            surfaces,
            target,
            shown,
        )[other] == surfaces[other],
{
}

/// A profile's entry assigns the surface of its name to its monitor, and is
/// accepted exactly where the name is a surface's and the monitor's id can be
/// written; a refused one is told by its name.
pub proof fn law_profile_entries_assign_their_surface(
    a: (Surface, String),
    surface_name: Seq<char>,
    monitor: Seq<char>,
    name: String,
)
    ensures
        assigns(a, surface_name, monitor) ==> surface_named(surface_name) == Some(a.0) && a.1@
            == monitor,
        entry_ok(surface_name, monitor) <==> surface_named(surface_name) is Some && monitor.len() > 0
            && forall|i: int| 0 <= i < monitor.len() ==> !text::is_control(#[trigger] monitor[i]),
        fault_text(ProfileFault::BadMonitor(name)) == "[display].profile."@ + name@
            + ": not a valid monitor id"@,
        text::has_part(fault_text(ProfileFault::UnknownSurface(name)), text::debug_text(name@)),
{
    text::law_parts_stand_between_others(
        seq![],
        text::debug_text(name@),
        "[display].profile: unknown surface "@,
        seq![],
    );
    assert(fault_text(ProfileFault::UnknownSurface(name)) =~= "[display].profile: unknown surface "@
        + text::debug_text(name@) + seq![]);
}

/// The codes that a client of the display branches on; what stands in a node's
/// way is said.
pub proof fn law_display_problems_have_their_codes(why: Seq<char>)
    ensures
        no_such_artifact_view().status == 404 && no_such_artifact_view().code is ResourceNotFound,
        node_unavailable_view(why).status == 409 && node_unavailable_view(why).code is DisplayNodeUnavailable,
{
}

} // verus!
