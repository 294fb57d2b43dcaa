//! The HTTP surface: the health page, and which routes there are for whom.
//!
//! A surface that was not deliberately wired serves no routes. What the owner's
//! clients alone may reach is the rule, and what a paired node may reach is the
//! exception.

use vstd::prelude::*;

use crate::ordered;
use crate::problem;
use crate::problem::{ErrorCode, ProblemDetails};
use crate::text;

verus! {

// ---------------------------------------------------------------------------
// Health
// ---------------------------------------------------------------------------

#[derive(Debug, Clone, Copy, PartialEq, Eq, Structural)]
pub enum AdapterState {
    Up,
    Down,
    Disabled,
}

/// The readiness of an adapter. The detail is a stable reason and never what a
/// driver said.
#[derive(Debug)]
pub struct AdapterHealth {
    pub state: AdapterState,
    pub detail: Option<String>,
}

#[derive(Debug, Clone, Copy, PartialEq, Eq, Structural)]
pub enum ServiceStatus {
    Healthy,
    Degraded,
}

/// The adapters that registered, in the order of their names.
pub struct AppState {
    adapters: Vec<(String, AdapterHealth)>,
}

impl View for AppState {
    type V = Seq<(String, AdapterHealth)>;

    closed spec fn view(&self) -> Seq<(String, AdapterHealth)> {
        self.adapters@
    }
}

/// Whether an adapter among these is down.
pub open spec fn any_down(adapters: Seq<(String, AdapterHealth)>) -> bool {
    exists|i: int|
        0 <= i < adapters.len() && (#[trigger] adapters[i]).1.state == AdapterState::Down
}

impl AppState {
    #[verifier::type_invariant]
    spec fn ordered(self) -> bool {
        ordered::rising(self.adapters@)
    }

    pub fn new() -> (s: Self)
        ensures
            s@ == Seq::<(String, AdapterHealth)>::empty(),
    {
        AppState { adapters: Vec::new() }
    }

    /// Record the readiness of an adapter.
    pub fn set_adapter(&mut self, name: &str, state: AdapterState, detail: Option<String>)
        ensures
            ordered::rising(final(self)@),
            ordered::value_of(final(self)@, name@) == Some((AdapterHealth { state, detail })),
            forall|other: Seq<char>|
                other != name@ ==> #[trigger] ordered::value_of(final(self)@, other)
                    == ordered::value_of(old(self)@, other),
    {
        proof {
            use_type_invariant(&*self);
        }
        let mut adapters: Vec<(String, AdapterHealth)> = Vec::new();
        std::mem::swap(&mut adapters, &mut self.adapters);
        ordered::put(&mut adapters, name.to_owned(), AdapterHealth { state, detail });
        self.adapters = adapters;
    }

    /// The adapters, in the order of their names.
    pub fn adapters(&self) -> (v: &Vec<(String, AdapterHealth)>)
        ensures
            v@ == self@,
            ordered::rising(v@),
    {
        proof {
            use_type_invariant(self);
        }
        &self.adapters
    }

    /// Whether the service is degraded: one that can answer is up, and any
    /// adapter that is down degrades it. One that is switched off does not.
    pub fn status(&self) -> (s: ServiceStatus)
        ensures
            s == status_of(self@),
            s == (if any_down(self@) {
                ServiceStatus::Degraded
            } else {
                ServiceStatus::Healthy
            }),
    {
        let mut i: usize = 0;
        while i < self.adapters.len()
            invariant
                i <= self.adapters@.len(),
                self@ == self.adapters@,
                forall|k: int|
                    0 <= k < i ==> (#[trigger] self.adapters@[k]).1.state != AdapterState::Down,
            decreases self.adapters@.len() - i,
        {
            match self.adapters[i].1.state {
                AdapterState::Down => {
                    assert(self@[i as int].1.state == AdapterState::Down);
                    return ServiceStatus::Degraded;
                },
                AdapterState::Up | AdapterState::Disabled => {},
            }
            i = i + 1;
        }
        ServiceStatus::Healthy
    }

    /// Note what a probe of the database found, where there is one.
    pub fn note_database(&mut self, probe: Option<Result<(), &'static str>>)
        ensures
            probe is None ==> final(self)@ == old(self)@,
            probe matches Some(found) ==> ordered::rising(final(self)@) && (ordered::value_of(
                final(self)@,
                "database"@,
            ) matches Some(h) && match found {
                Ok(_) => h.state == AdapterState::Up && h.detail is None,
                Err(reason) => h.state == AdapterState::Down && text::opt_view(h.detail) == Some(
                    reason@,
                ),
            }),
            forall|other: Seq<char>|
                other != "database"@ ==> #[trigger] ordered::value_of(final(self)@, other)
                    == ordered::value_of(old(self)@, other),
    {
        match probe {
            None => {},
            Some(Ok(_)) => {
                self.set_adapter("database", AdapterState::Up, None);
            },
            Some(Err(reason)) => {
                self.set_adapter("database", AdapterState::Down, Some(reason.to_owned()));
            },
        }
    }
}

/// The health page. `ui` is the presentation profile, where one is configured.
#[derive(Debug)]
pub struct HealthResponse<U> {
    pub status: ServiceStatus,
    pub version: String,
    /// The adapters, in the order of their names.
    pub adapters: Vec<(String, AdapterHealth)>,
    /// The bootstrap code, while its window is open.
    pub pairing_code: Option<String>,
    pub ui: Option<U>,
}

/// Whether a list of adapters says what another does.
pub open spec fn same_adapters(
    a: Seq<(String, AdapterHealth)>,
    b: Seq<(String, AdapterHealth)>,
) -> bool {
    &&& a.len() == b.len()
    &&& forall|i: int|
        0 <= i < a.len() ==> (#[trigger] a[i]).0@ == b[i].0@ && a[i].1.state == b[i].1.state
            && text::opt_view(a[i].1.detail) == text::opt_view(b[i].1.detail)
}

fn copy_adapters(adapters: &Vec<(String, AdapterHealth)>) -> (r: Vec<(String, AdapterHealth)>)
    ensures
        same_adapters(r@, adapters@),
{
    let mut r: Vec<(String, AdapterHealth)> = Vec::new();
    let mut i: usize = 0;
    while i < adapters.len()
        invariant
            i <= adapters@.len(),
            same_adapters(r@, adapters@.take(i as int)),
        decreases adapters@.len() - i,
    {
        let health = AdapterHealth {
            state: adapters[i].1.state,
            detail: text::copy_opt(&adapters[i].1.detail),
        };
        r.push((adapters[i].0.clone(), health));
        i = i + 1;
    }
    assert(adapters@.take(adapters@.len() as int) =~= adapters@);
    r
}

/// Answer for the health of the service: probe first, then judge.
pub fn health<U>(
    state: &mut AppState,
    probe: Option<Result<(), &'static str>>,
    version: &str,
    pairing_code: Option<String>,
    ui: Option<U>,
) -> (h: HealthResponse<U>)
    ensures
        h.status == status_of(final(state)@),
        probe is None ==> final(state)@ == old(state)@,
        probe matches Some(found) ==> (ordered::value_of(final(state)@, "database"@) matches Some(d)
            && match found {
            Ok(_) => d.state == AdapterState::Up && d.detail is None,
            Err(reason) => d.state == AdapterState::Down && text::opt_view(d.detail) == Some(
                reason@,
            ),
        }),
        forall|other: Seq<char>|
            other != "database"@ ==> #[trigger] ordered::value_of(final(state)@, other)
                == ordered::value_of(old(state)@, other),
        h.status == (if any_down(final(state)@) {
            ServiceStatus::Degraded
        } else {
            ServiceStatus::Healthy
        }),
        h.version@ == version@,
        same_adapters(h.adapters@, final(state)@),
        h.pairing_code == pairing_code,
        h.ui == ui,
{
    state.note_database(probe);
    HealthResponse {
        status: state.status(),
        version: version.to_owned(),
        adapters: copy_adapters(state.adapters()),
        pairing_code,
        ui,
    }
}

/// A probe of the database is what the health page shows: down degrades.
pub proof fn law_a_lost_database_degrades(adapters: Seq<(String, AdapterHealth)>, h: AdapterHealth)
    requires
        ordered::value_of(adapters, "database"@) == Some(h),
        h.state == AdapterState::Down,
    ensures
        any_down(adapters),
{
    let i = choose|i: int|
        0 <= i < adapters.len() && (#[trigger] adapters[i]).0@ == "database"@;
    assert(adapters[i].1.state == AdapterState::Down);
}

// ---------------------------------------------------------------------------
// Routes
// ---------------------------------------------------------------------------

/// The run surface and the socket that goes with it, so that neither is mounted
/// without the other.
pub struct RunWiring<R, W> {
    pub runs: R,
    pub ws: W,
}

/// Which optional surfaces are mounted.
#[derive(Debug, Clone, Copy, PartialEq, Eq, Structural)]
pub struct Wiring {
    pub sessions: bool,
    pub runs: bool,
    pub artifacts: bool,
    /// Without a registry there is nothing that an app could be evaluated
    /// against, so no bridge.
    pub appbridge: bool,
    pub display: bool,
    pub media: bool,
    pub maps: bool,
    pub timers: bool,
    pub lists: bool,
    pub deepdive: bool,
    pub memories: bool,
    pub web_assets: bool,
    /// Whether health is served to whoever asks. Off loopback it would show the
    /// pairing code to the network, so it moves behind authentication there.
    pub public_health: bool,
}

impl Wiring {
    /// Nothing is wired, and health is public, as on loopback.
    pub open spec fn spec_default() -> Wiring {
        Wiring {
            sessions: false,
            runs: false,
            artifacts: false,
            appbridge: false,
            display: false,
            media: false,
            maps: false,
            timers: false,
            lists: false,
            deepdive: false,
            memories: false,
            web_assets: false,
            public_health: true,
        }
    }
}

impl Default for Wiring {
    fn default() -> (w: Wiring)
        ensures
            w == Wiring::spec_default(),
    {
        Wiring {
            sessions: false,
            runs: false,
            artifacts: false,
            appbridge: false,
            display: false,
            media: false,
            maps: false,
            timers: false,
            lists: false,
            deepdive: false,
            memories: false,
            web_assets: false,
            public_health: true,
        }
    }
}

#[derive(Debug, Clone, Copy, PartialEq, Eq, Structural)]
pub enum Method {
    Get,
    Post,
    Patch,
    Delete,
    Any,
}

/// Who may reach a route.
#[derive(Debug, Clone, Copy, PartialEq, Eq, Structural)]
pub enum Access {
    /// Whoever can reach the listener.
    Open,
    /// A paired device that holds the owner's scope.
    Owner,
    /// Any paired device.
    Paired,
}

#[derive(Debug, Clone, Copy)]
pub struct Route {
    pub method: Method,
    pub path: &'static str,
    pub access: Access,
}

/// What a route is.
#[verifier::ext_equal]
pub struct RouteView {
    pub method: Method,
    pub path: Seq<char>,
    pub access: Access,
}

impl View for Route {
    type V = RouteView;

    open spec fn view(&self) -> RouteView {
        RouteView { method: self.method, path: self.path@, access: self.access }
    }
}

pub open spec fn table(routes: Seq<Route>) -> Seq<RouteView> {
    routes.map_values(|r: Route| r@)
}

pub open spec fn route(method: Method, path: Seq<char>, access: Access) -> RouteView {
    RouteView { method, path, access }
}

pub open spec fn owner(method: Method, path: Seq<char>) -> RouteView {
    route(method, path, Access::Owner)
}

fn add_route(routes: &mut Vec<Route>, method: Method, path: &'static str, access: Access)
    ensures
        table(final(routes)@) == table(old(routes)@).push(route(method, path@, access)),
{
    routes.push(Route { method, path, access });
    assert(table(routes@) =~= table(old(routes)@).push(route(method, path@, access)));
}

/// The routes of the surfaces, each with its own.
pub open spec fn pairing_routes() -> Seq<RouteView> {
    seq![
        route(Method::Post, "/api/v1/auth/pair"@, Access::Open),
        route(Method::Post, "/api/v1/devices/pair"@, Access::Open),
        route(Method::Post, "/api/v1/devices/pair/complete"@, Access::Open),
    ]
}

pub open spec fn device_routes() -> Seq<RouteView> {
    seq![
        owner(Method::Post, "/api/v1/devices/pairing-window"@),
        owner(Method::Get, "/api/v1/devices"@),
        owner(Method::Post, "/api/v1/devices/{id}/revoke"@),
    ]
}

pub open spec fn session_routes() -> Seq<RouteView> {
    seq![
        owner(Method::Post, "/api/v1/sessions"@),
        owner(Method::Get, "/api/v1/sessions"@),
        owner(Method::Get, "/api/v1/sessions/{id}"@),
    ]
}

pub open spec fn run_routes() -> Seq<RouteView> {
    seq![
        owner(Method::Post, "/api/v1/sessions/{id}/messages"@),
        owner(Method::Get, "/api/v1/sessions/{id}/timeline"@),
        owner(Method::Get, "/api/v1/runs/{id}"@),
        owner(Method::Post, "/api/v1/runs/{id}/cancel"@),
        owner(Method::Post, "/api/v1/runs/{id}/approvals/{approval_id}"@),
        owner(Method::Get, "/api/v1/providers"@),
        route(Method::Get, "/ws/v1"@, Access::Paired),
    ]
}

pub open spec fn artifact_routes() -> Seq<RouteView> {
    seq![
        owner(Method::Get, "/api/v1/artifacts/{id}/versions"@),
        owner(Method::Get, "/api/v1/artifacts/{id}/versions/{version}/blob"@),
        owner(Method::Get, "/api/v1/apps/{id}/versions/{version}/document"@),
    ]
}

pub open spec fn appbridge_routes() -> Seq<RouteView> {
    seq![
        owner(Method::Post, "/api/v1/apps/{id}/versions/{version}/capability-tokens"@),
        owner(Method::Post, "/api/v1/apps/{id}/versions/{version}/invoke"@),
    ]
}

pub open spec fn display_routes() -> Seq<RouteView> {
    seq![owner(Method::Post, "/api/v1/artifacts/{id}/open"@)]
}

pub open spec fn timer_routes() -> Seq<RouteView> {
    seq![
        owner(Method::Get, "/api/v1/timers"@),
        owner(Method::Post, "/api/v1/timers"@),
        owner(Method::Post, "/api/v1/timers/{id}/action"@),
    ]
}

pub open spec fn list_routes() -> Seq<RouteView> {
    seq![
        owner(Method::Get, "/api/v1/lists"@),
        owner(Method::Post, "/api/v1/lists"@),
        owner(Method::Get, "/api/v1/lists/{id}"@),
        owner(Method::Post, "/api/v1/lists/{id}/items"@),
        owner(Method::Patch, "/api/v1/lists/{id}/items/{item_id}"@),
        owner(Method::Delete, "/api/v1/lists/{id}/items/{item_id}"@),
        owner(Method::Post, "/api/v1/lists/command"@),
        owner(Method::Post, "/api/v1/lists/{id}/promote"@),
    ]
}

pub open spec fn deepdive_routes() -> Seq<RouteView> {
    seq![
        owner(Method::Post, "/api/v1/sessions/{id}/deepdive/findings"@),
        owner(Method::Post, "/api/v1/sessions/{id}/deepdive/promote"@),
    ]
}

pub open spec fn memory_routes() -> Seq<RouteView> {
    seq![
        owner(Method::Get, "/api/v1/memories"@),
        owner(Method::Patch, "/api/v1/memories/{id}"@),
        owner(Method::Delete, "/api/v1/memories/{id}"@),
    ]
}

pub open spec fn media_routes() -> Seq<RouteView> {
    seq![
        owner(Method::Get, "/api/v1/media/state"@),
        owner(Method::Post, "/api/v1/media/command"@),
    ]
}

pub open spec fn map_routes() -> Seq<RouteView> {
    seq![
        owner(Method::Get, "/api/v1/map/coverage"@),
        owner(Method::Get, "/api/v1/map/tiles/{z}/{x}/{y}"@),
    ]
}

/// Routes that are there only where something is wired.
pub open spec fn only_if(wired: bool, routes: Seq<RouteView>) -> Seq<RouteView> {
    if wired {
        routes
    } else {
        seq![]
    }
}

/// Health, for whoever asks or for a device that authenticates.
pub open spec fn health_routes(access: Access) -> Seq<RouteView> {
    seq![route(Method::Get, "/api/v1/diagnostics/health"@, access)]
}

/// What is served behind authentication.
pub open spec fn authenticated_routes(w: Wiring) -> Seq<RouteView> {
    only_if(!w.public_health, health_routes(Access::Owner)) + device_routes() + only_if(
        w.sessions,
        session_routes(),
    ) + only_if(w.runs, run_routes()) + only_if(w.artifacts, artifact_routes()) + only_if(
        w.appbridge,
        appbridge_routes(),
    ) + only_if(w.display, display_routes()) + only_if(w.timers, timer_routes()) + only_if(
        w.lists,
        list_routes(),
    ) + only_if(w.deepdive, deepdive_routes()) + only_if(w.memories, memory_routes()) + only_if(
        w.media,
        media_routes(),
    ) + only_if(w.maps, map_routes())
}

/// All routes. Without an identity store nothing can be authenticated, so
/// nothing that needs it is there. Unknown API paths stay problems where the
/// rest falls through to the web assets.
pub open spec fn route_table(auth: bool, w: Wiring) -> Seq<RouteView> {
    only_if(w.public_health, health_routes(Access::Open)) + only_if(auth, pairing_routes())
        + only_if(auth, authenticated_routes(w)) + only_if(
        w.web_assets,
        seq![route(Method::Any, "/api/{*rest}"@, Access::Open)],
    )
}

fn add_owner(routes: &mut Vec<Route>, method: Method, path: &'static str)
    ensures
        table(final(routes)@) == table(old(routes)@).push(owner(method, path@)),
{
    add_route(routes, method, path, Access::Owner);
}

fn add_pairing(routes: &mut Vec<Route>)
    ensures
        table(final(routes)@) == table(old(routes)@) + pairing_routes(),
{
    let ghost before = table(routes@);
    add_route(routes, Method::Post, "/api/v1/auth/pair", Access::Open);
    add_route(routes, Method::Post, "/api/v1/devices/pair", Access::Open);
    add_route(routes, Method::Post, "/api/v1/devices/pair/complete", Access::Open);
    assert(table(routes@) =~= before + pairing_routes());
}

fn add_devices(routes: &mut Vec<Route>)
    ensures
        table(final(routes)@) == table(old(routes)@) + device_routes(),
{
    let ghost before = table(routes@);
    add_owner(routes, Method::Post, "/api/v1/devices/pairing-window");
    add_owner(routes, Method::Get, "/api/v1/devices");
    add_owner(routes, Method::Post, "/api/v1/devices/{id}/revoke");
    assert(table(routes@) =~= before + device_routes());
}

fn add_sessions(routes: &mut Vec<Route>, wired: bool)
    ensures
        table(final(routes)@) == table(old(routes)@) + only_if(wired, session_routes()),
{
    let ghost before = table(routes@);
    if wired {
        add_owner(routes, Method::Post, "/api/v1/sessions");
        add_owner(routes, Method::Get, "/api/v1/sessions");
        add_owner(routes, Method::Get, "/api/v1/sessions/{id}");
    }
    assert(table(routes@) =~= before + only_if(wired, session_routes()));
}

fn add_runs(routes: &mut Vec<Route>, wired: bool)
    ensures
        table(final(routes)@) == table(old(routes)@) + only_if(wired, run_routes()),
{
    let ghost before = table(routes@);
    if wired {
        add_owner(routes, Method::Post, "/api/v1/sessions/{id}/messages");
        add_owner(routes, Method::Get, "/api/v1/sessions/{id}/timeline");
        add_owner(routes, Method::Get, "/api/v1/runs/{id}");
        add_owner(routes, Method::Post, "/api/v1/runs/{id}/cancel");
        add_owner(routes, Method::Post, "/api/v1/runs/{id}/approvals/{approval_id}");
        add_owner(routes, Method::Get, "/api/v1/providers");
        add_route(routes, Method::Get, "/ws/v1", Access::Paired);
    }
    assert(table(routes@) =~= before + only_if(wired, run_routes()));
}

fn add_artifacts(routes: &mut Vec<Route>, wired: bool)
    ensures
        table(final(routes)@) == table(old(routes)@) + only_if(wired, artifact_routes()),
{
    let ghost before = table(routes@);
    if wired {
        add_owner(routes, Method::Get, "/api/v1/artifacts/{id}/versions");
        add_owner(routes, Method::Get, "/api/v1/artifacts/{id}/versions/{version}/blob");
        add_owner(routes, Method::Get, "/api/v1/apps/{id}/versions/{version}/document");
    }
    assert(table(routes@) =~= before + only_if(wired, artifact_routes()));
}

fn add_appbridge(routes: &mut Vec<Route>, wired: bool)
    ensures
        table(final(routes)@) == table(old(routes)@) + only_if(wired, appbridge_routes()),
{
    let ghost before = table(routes@);
    if wired {
        add_owner(routes, Method::Post, "/api/v1/apps/{id}/versions/{version}/capability-tokens");
        add_owner(routes, Method::Post, "/api/v1/apps/{id}/versions/{version}/invoke");
    }
    assert(table(routes@) =~= before + only_if(wired, appbridge_routes()));
}

fn add_display(routes: &mut Vec<Route>, wired: bool)
    ensures
        table(final(routes)@) == table(old(routes)@) + only_if(wired, display_routes()),
{
    let ghost before = table(routes@);
    if wired {
        add_owner(routes, Method::Post, "/api/v1/artifacts/{id}/open");
    }
    assert(table(routes@) =~= before + only_if(wired, display_routes()));
}

fn add_timers(routes: &mut Vec<Route>, wired: bool)
    ensures
        table(final(routes)@) == table(old(routes)@) + only_if(wired, timer_routes()),
{
    let ghost before = table(routes@);
    if wired {
        add_owner(routes, Method::Get, "/api/v1/timers");
        add_owner(routes, Method::Post, "/api/v1/timers");
        add_owner(routes, Method::Post, "/api/v1/timers/{id}/action");
    }
    assert(table(routes@) =~= before + only_if(wired, timer_routes()));
}

fn add_lists(routes: &mut Vec<Route>, wired: bool)
    ensures
        table(final(routes)@) == table(old(routes)@) + only_if(wired, list_routes()),
{
    let ghost before = table(routes@);
    if wired {
        add_owner(routes, Method::Get, "/api/v1/lists");
        add_owner(routes, Method::Post, "/api/v1/lists");
        add_owner(routes, Method::Get, "/api/v1/lists/{id}");
        add_owner(routes, Method::Post, "/api/v1/lists/{id}/items");
        add_owner(routes, Method::Patch, "/api/v1/lists/{id}/items/{item_id}");
        add_owner(routes, Method::Delete, "/api/v1/lists/{id}/items/{item_id}");
        add_owner(routes, Method::Post, "/api/v1/lists/command");
        add_owner(routes, Method::Post, "/api/v1/lists/{id}/promote");
    }
    assert(table(routes@) =~= before + only_if(wired, list_routes()));
}

fn add_deepdive(routes: &mut Vec<Route>, wired: bool)
    ensures
        table(final(routes)@) == table(old(routes)@) + only_if(wired, deepdive_routes()),
{
    let ghost before = table(routes@);
    if wired {
        add_owner(routes, Method::Post, "/api/v1/sessions/{id}/deepdive/findings");
        add_owner(routes, Method::Post, "/api/v1/sessions/{id}/deepdive/promote");
    }
    assert(table(routes@) =~= before + only_if(wired, deepdive_routes()));
}

fn add_memories(routes: &mut Vec<Route>, wired: bool)
    ensures
        table(final(routes)@) == table(old(routes)@) + only_if(wired, memory_routes()),
{
    let ghost before = table(routes@);
    if wired {
        add_owner(routes, Method::Get, "/api/v1/memories");
        add_owner(routes, Method::Patch, "/api/v1/memories/{id}");
        add_owner(routes, Method::Delete, "/api/v1/memories/{id}");
    }
    assert(table(routes@) =~= before + only_if(wired, memory_routes()));
}

fn add_media(routes: &mut Vec<Route>, wired: bool)
    ensures
        table(final(routes)@) == table(old(routes)@) + only_if(wired, media_routes()),
{
    let ghost before = table(routes@);
    if wired {
        add_owner(routes, Method::Get, "/api/v1/media/state");
        add_owner(routes, Method::Post, "/api/v1/media/command");
    }
    assert(table(routes@) =~= before + only_if(wired, media_routes()));
}

fn add_maps(routes: &mut Vec<Route>, wired: bool)
    ensures
        table(final(routes)@) == table(old(routes)@) + only_if(wired, map_routes()),
{
    let ghost before = table(routes@);
    if wired {
        add_owner(routes, Method::Get, "/api/v1/map/coverage");
        add_owner(routes, Method::Get, "/api/v1/map/tiles/{z}/{x}/{y}");
    }
    assert(table(routes@) =~= before + only_if(wired, map_routes()));
}

fn authenticated(w: Wiring) -> (routes: Vec<Route>)
    ensures
        table(routes@) == authenticated_routes(w),
{
    let mut routes: Vec<Route> = Vec::new();
    if !w.public_health {
        add_owner(&mut routes, Method::Get, "/api/v1/diagnostics/health");
    }
    assert(table(routes@) =~= only_if(!w.public_health, health_routes(Access::Owner)));
    add_devices(&mut routes);
    add_sessions(&mut routes, w.sessions);
    add_runs(&mut routes, w.runs);
    add_artifacts(&mut routes, w.artifacts);
    add_appbridge(&mut routes, w.appbridge);
    add_display(&mut routes, w.display);
    add_timers(&mut routes, w.timers);
    add_lists(&mut routes, w.lists);
    add_deepdive(&mut routes, w.deepdive);
    add_memories(&mut routes, w.memories);
    add_media(&mut routes, w.media);
    add_maps(&mut routes, w.maps);
    routes
}

/// The routes to serve. `auth` says whether there is an identity store.
pub fn router_with(auth: bool, w: Wiring) -> (routes: Vec<Route>)
    ensures
        table(routes@) == route_table(auth, w),
{
    let mut routes: Vec<Route> = Vec::new();
    assert(table(routes@) =~= seq![]);
    if w.public_health {
        add_route(&mut routes, Method::Get, "/api/v1/diagnostics/health", Access::Open);
    }
    assert(table(routes@) =~= only_if(w.public_health, health_routes(Access::Open)));
    let ghost health = table(routes@);
    if auth {
        add_pairing(&mut routes);
        let mut behind = authenticated(w);
        let ghost before = routes@;
        let ghost added = behind@;
        routes.append(&mut behind);
        assert(table(routes@) =~= table(before) + table(added));
    }
    assert(table(routes@) =~= health + only_if(auth, pairing_routes()) + only_if(
        auth,
        authenticated_routes(w),
    ));
    let ghost before = table(routes@);
    if w.web_assets {
        add_route(&mut routes, Method::Any, "/api/{*rest}", Access::Open);
    }
    assert(table(routes@) =~= before + only_if(
        w.web_assets,
        seq![route(Method::Any, "/api/{*rest}"@, Access::Open)],
    ));
    routes
}

/// The routes where nothing is wired.
pub fn router(auth: bool) -> (routes: Vec<Route>)
    ensures
        table(routes@) == route_table(auth, Wiring::spec_default()),
{
    router_with(auth, Wiring::default())
}

pub open spec fn unknown_route_view() -> problem::ProblemView {
    problem::problem_of(404, ErrorCode::ResourceNotFound, "unknown API route"@, None)
}

/// What an unknown API path is answered with.
pub fn api_not_found() -> (p: ProblemDetails)
    ensures
        p@ == unknown_route_view(),
{
    problem::not_found("unknown API route")
}

/// Whether a route is one of these.
pub open spec fn serves(routes: Seq<RouteView>, r: RouteView) -> bool {
    routes.contains(r)
}

/// The one route behind authentication that a node may reach is its socket.
pub proof fn law_nodes_reach_their_socket_only(w: Wiring, i: int)
    requires
        0 <= i < authenticated_routes(w).len(),
    ensures
        authenticated_routes(w)[i].access == Access::Owner || authenticated_routes(w)[i] == route(
            Method::Get,
            "/ws/v1"@,
            Access::Paired,
        ),
{
    lemma_paired_only_socket(w);
}

spec fn fits(routes: Seq<RouteView>) -> bool {
    forall|i: int|
        0 <= i < routes.len() ==> (#[trigger] routes[i]).access == Access::Owner || routes[i]
            == route(Method::Get, "/ws/v1"@, Access::Paired)
}

proof fn lemma_fits_concat(a: Seq<RouteView>, b: Seq<RouteView>)
    requires
        fits(a),
        fits(b),
    ensures
        fits(a + b),
{
    assert forall|i: int| 0 <= i < (a + b).len() implies (#[trigger] (a + b)[i]).access
        == Access::Owner || (a + b)[i] == route(Method::Get, "/ws/v1"@, Access::Paired) by {
        if i < a.len() {
            assert((a + b)[i] == a[i]);
        } else {
            assert((a + b)[i] == b[i - a.len()]);
        }
    }
}

proof fn lemma_surfaces_fit()
    ensures
        fits(health_routes(Access::Owner)),
        fits(device_routes()),
        fits(session_routes()),
        fits(run_routes()),
        fits(artifact_routes()),
        fits(appbridge_routes()),
        fits(display_routes()),
        fits(timer_routes()),
        fits(list_routes()),
        fits(deepdive_routes()),
        fits(memory_routes()),
        fits(media_routes()),
        fits(map_routes()),
{
}

proof fn lemma_fits_if(wired: bool, routes: Seq<RouteView>)
    requires
        fits(routes),
    ensures
        fits(only_if(wired, routes)),
{
}

proof fn lemma_parts_fit(
    a: Seq<RouteView>,
    b: Seq<RouteView>,
    c: Seq<RouteView>,
    d: Seq<RouteView>,
    e: Seq<RouteView>,
    f: Seq<RouteView>,
    g: Seq<RouteView>,
    h: Seq<RouteView>,
    i: Seq<RouteView>,
    j: Seq<RouteView>,
    k: Seq<RouteView>,
    l: Seq<RouteView>,
    m: Seq<RouteView>,
)
    requires
        fits(a),
        fits(b),
        fits(c),
        fits(d),
        fits(e),
        fits(f),
        fits(g),
        fits(h),
        fits(i),
        fits(j),
        fits(k),
        fits(l),
        fits(m),
    ensures
        fits(a + b + c + d + e + f + g + h + i + j + k + l + m),
{
    lemma_fits_concat(a, b);
    lemma_fits_concat(a + b, c);
    lemma_fits_concat(a + b + c, d);
    lemma_fits_concat(a + b + c + d, e);
    lemma_fits_concat(a + b + c + d + e, f);
    lemma_fits_concat(a + b + c + d + e + f, g);
    lemma_fits_concat(a + b + c + d + e + f + g, h);
    lemma_fits_concat(a + b + c + d + e + f + g + h, i);
    lemma_fits_concat(a + b + c + d + e + f + g + h + i, j);
    lemma_fits_concat(a + b + c + d + e + f + g + h + i + j, k);
    lemma_fits_concat(a + b + c + d + e + f + g + h + i + j + k, l);
    lemma_fits_concat(a + b + c + d + e + f + g + h + i + j + k + l, m);
}

proof fn lemma_paired_only_socket(w: Wiring)
    ensures
        fits(authenticated_routes(w)),
{
    lemma_surfaces_fit();
    lemma_fits_if(!w.public_health, health_routes(Access::Owner));
    lemma_fits_if(w.sessions, session_routes());
    lemma_fits_if(w.runs, run_routes());
    lemma_fits_if(w.artifacts, artifact_routes());
    lemma_fits_if(w.appbridge, appbridge_routes());
    lemma_fits_if(w.display, display_routes());
    lemma_fits_if(w.timers, timer_routes());
    lemma_fits_if(w.lists, list_routes());
    lemma_fits_if(w.deepdive, deepdive_routes());
    lemma_fits_if(w.memories, memory_routes());
    lemma_fits_if(w.media, media_routes());
    lemma_fits_if(w.maps, map_routes());
    lemma_parts_fit(
        only_if(!w.public_health, health_routes(Access::Owner)),
        device_routes(),
        only_if(w.sessions, session_routes()),
        only_if(w.runs, run_routes()),
        only_if(w.artifacts, artifact_routes()),
        only_if(w.appbridge, appbridge_routes()),
        only_if(w.display, display_routes()),
        only_if(w.timers, timer_routes()),
        only_if(w.lists, list_routes()),
        only_if(w.deepdive, deepdive_routes()),
        only_if(w.memories, memory_routes()),
        only_if(w.media, media_routes()),
        only_if(w.maps, map_routes()),
    );
}

/// Without an identity store the only things served are health, where it is
/// public, and the answer to unknown API paths.
pub proof fn law_nothing_is_served_unauthenticated(w: Wiring, i: int)
    requires
        0 <= i < route_table(false, w).len(),
    ensures
        route_table(false, w)[i] == route(
            Method::Get,
            "/api/v1/diagnostics/health"@,
            Access::Open,
        ) || route_table(false, w)[i] == route(Method::Any, "/api/{*rest}"@, Access::Open),
{
}

/// Off loopback health is not served to whoever asks.
pub proof fn law_health_hides_off_loopback(auth: bool, w: Wiring)
    requires
        !w.public_health,
    ensures
        !serves(
            route_table(auth, w),
            route(Method::Get, "/api/v1/diagnostics/health"@, Access::Open),
        ),
{
    let health = route(Method::Get, "/api/v1/diagnostics/health"@, Access::Open);
    let rest = route(Method::Any, "/api/{*rest}"@, Access::Open);
    let t = route_table(auth, w);
    lemma_paired_only_socket(w);
    reveal_strlit("/api/v1/diagnostics/health");
    reveal_strlit("/api/v1/auth/pair");
    reveal_strlit("/api/v1/devices/pair");
    reveal_strlit("/api/v1/devices/pair/complete");
    assert("/api/v1/diagnostics/health"@.len() == 26);
    assert("/api/v1/auth/pair"@.len() == 17);
    assert("/api/v1/devices/pair"@.len() == 20);
    assert("/api/v1/devices/pair/complete"@.len() == 29);
    if serves(t, health) {
        let i = choose|i: int| 0 <= i < t.len() && t[i] == health;
        let p = only_if(auth, pairing_routes());
        let a = only_if(auth, authenticated_routes(w));
        if i < p.len() {
            assert(t[i] == pairing_routes()[i]);
        } else if i < p.len() + a.len() {
            assert(t[i] == authenticated_routes(w)[i - p.len()]);
        } else {
            assert(t[i] == rest);
        }
    }
}

proof fn lemma_wired_routes_are_served(w: Wiring, r: RouteView)
    ensures
        pairing_routes().contains(r) ==> serves(route_table(true, w), r),
        device_routes().contains(r) ==> serves(route_table(true, w), r),
        w.sessions && session_routes().contains(r) ==> serves(route_table(true, w), r),
        w.runs && run_routes().contains(r) ==> serves(route_table(true, w), r),
        w.artifacts && artifact_routes().contains(r) ==> serves(route_table(true, w), r),
        w.appbridge && appbridge_routes().contains(r) ==> serves(route_table(true, w), r),
        w.display && display_routes().contains(r) ==> serves(route_table(true, w), r),
        w.timers && timer_routes().contains(r) ==> serves(route_table(true, w), r),
        w.lists && list_routes().contains(r) ==> serves(route_table(true, w), r),
        w.deepdive && deepdive_routes().contains(r) ==> serves(route_table(true, w), r),
        w.memories && memory_routes().contains(r) ==> serves(route_table(true, w), r),
        w.media && media_routes().contains(r) ==> serves(route_table(true, w), r),
        w.maps && map_routes().contains(r) ==> serves(route_table(true, w), r),
{
    broadcast use vstd::seq_lib::lemma_seq_concat_contains_all_elements;

}

/// A router with a store serves pairing to anyone and the devices to their owner.
pub proof fn law_pairing_is_served_to_anyone_and_devices_to_their_owner(w: Wiring)
    ensures
        serves(
            route_table(true, w),
            (RouteView { method: Method::Post, path: "/api/v1/auth/pair"@, access: Access::Open }),
        ),
        serves(
            route_table(true, w),
            (RouteView { method: Method::Post, path: "/api/v1/devices/pair"@, access: Access::Open }),
        ),
        serves(
            route_table(true, w),
            (RouteView { method: Method::Post, path: "/api/v1/devices/pair/complete"@, access: Access::Open }),
        ),
        serves(
            route_table(true, w),
            (RouteView { method: Method::Post, path: "/api/v1/devices/pairing-window"@, access: Access::Owner }),
        ),
        serves(
            route_table(true, w),
            (RouteView { method: Method::Get, path: "/api/v1/devices"@, access: Access::Owner }),
        ),
        serves(
            route_table(true, w),
            (RouteView { method: Method::Post, path: "/api/v1/devices/{id}/revoke"@, access: Access::Owner }),
        ),
{
    assert(serves(route_table(true, w), (RouteView { method: Method::Post, path: "/api/v1/auth/pair"@, access: Access::Open }))) by {
        assert(pairing_routes()[0] == (RouteView { method: Method::Post, path: "/api/v1/auth/pair"@, access: Access::Open }));
        lemma_wired_routes_are_served(w, pairing_routes()[0]);
    }
    assert(serves(route_table(true, w), (RouteView { method: Method::Post, path: "/api/v1/devices/pair"@, access: Access::Open }))) by {
        assert(pairing_routes()[1] == (RouteView { method: Method::Post, path: "/api/v1/devices/pair"@, access: Access::Open }));
        lemma_wired_routes_are_served(w, pairing_routes()[1]);
    }
    assert(serves(route_table(true, w), (RouteView { method: Method::Post, path: "/api/v1/devices/pair/complete"@, access: Access::Open }))) by {
        assert(pairing_routes()[2] == (RouteView { method: Method::Post, path: "/api/v1/devices/pair/complete"@, access: Access::Open }));
        lemma_wired_routes_are_served(w, pairing_routes()[2]);
    }
    assert(serves(route_table(true, w), (RouteView { method: Method::Post, path: "/api/v1/devices/pairing-window"@, access: Access::Owner }))) by {
        assert(device_routes()[0] == (RouteView { method: Method::Post, path: "/api/v1/devices/pairing-window"@, access: Access::Owner }));
        lemma_wired_routes_are_served(w, device_routes()[0]);
    }
    assert(serves(route_table(true, w), (RouteView { method: Method::Get, path: "/api/v1/devices"@, access: Access::Owner }))) by {
        assert(device_routes()[1] == (RouteView { method: Method::Get, path: "/api/v1/devices"@, access: Access::Owner }));
        lemma_wired_routes_are_served(w, device_routes()[1]);
    }
    assert(serves(route_table(true, w), (RouteView { method: Method::Post, path: "/api/v1/devices/{id}/revoke"@, access: Access::Owner }))) by {
        assert(device_routes()[2] == (RouteView { method: Method::Post, path: "/api/v1/devices/{id}/revoke"@, access: Access::Owner }));
        lemma_wired_routes_are_served(w, device_routes()[2]);
    }
}

/// Sessions and runs are served to the owner where they are wired, and the socket
/// to every paired device.
pub proof fn law_conversations_are_served_where_they_are_wired(w: Wiring)
    ensures
        w.sessions ==> serves(
            route_table(true, w),
            (RouteView { method: Method::Post, path: "/api/v1/sessions"@, access: Access::Owner }),
        ),
        w.sessions ==> serves(
            route_table(true, w),
            (RouteView { method: Method::Get, path: "/api/v1/sessions"@, access: Access::Owner }),
        ),
        w.sessions ==> serves(
            route_table(true, w),
            (RouteView { method: Method::Get, path: "/api/v1/sessions/{id}"@, access: Access::Owner }),
        ),
        w.runs ==> serves(
            route_table(true, w),
            (RouteView { method: Method::Post, path: "/api/v1/sessions/{id}/messages"@, access: Access::Owner }),
        ),
        w.runs ==> serves(
            route_table(true, w),
            (RouteView { method: Method::Get, path: "/api/v1/sessions/{id}/timeline"@, access: Access::Owner }),
        ),
        w.runs ==> serves(
            route_table(true, w),
            (RouteView { method: Method::Get, path: "/api/v1/runs/{id}"@, access: Access::Owner }),
        ),
        w.runs ==> serves(
            route_table(true, w),
            (RouteView { method: Method::Post, path: "/api/v1/runs/{id}/cancel"@, access: Access::Owner }),
        ),
        w.runs ==> serves(
            route_table(true, w),
            (RouteView { method: Method::Post, path: "/api/v1/runs/{id}/approvals/{approval_id}"@, access: Access::Owner }),
        ),
        w.runs ==> serves(
            route_table(true, w),
            (RouteView { method: Method::Get, path: "/api/v1/providers"@, access: Access::Owner }),
        ),
        w.runs ==> serves(
            route_table(true, w),
            (RouteView { method: Method::Get, path: "/ws/v1"@, access: Access::Paired }),
        ),
{
    assert(w.sessions ==> serves(route_table(true, w), (RouteView { method: Method::Post, path: "/api/v1/sessions"@, access: Access::Owner }))) by {
        assert(session_routes()[0] == (RouteView { method: Method::Post, path: "/api/v1/sessions"@, access: Access::Owner }));
        lemma_wired_routes_are_served(w, session_routes()[0]);
    }
    assert(w.sessions ==> serves(route_table(true, w), (RouteView { method: Method::Get, path: "/api/v1/sessions"@, access: Access::Owner }))) by {
        assert(session_routes()[1] == (RouteView { method: Method::Get, path: "/api/v1/sessions"@, access: Access::Owner }));
        lemma_wired_routes_are_served(w, session_routes()[1]);
    }
    assert(w.sessions ==> serves(route_table(true, w), (RouteView { method: Method::Get, path: "/api/v1/sessions/{id}"@, access: Access::Owner }))) by {
        assert(session_routes()[2] == (RouteView { method: Method::Get, path: "/api/v1/sessions/{id}"@, access: Access::Owner }));
        lemma_wired_routes_are_served(w, session_routes()[2]);
    }
    assert(w.runs ==> serves(route_table(true, w), (RouteView { method: Method::Post, path: "/api/v1/sessions/{id}/messages"@, access: Access::Owner }))) by {
        assert(run_routes()[0] == (RouteView { method: Method::Post, path: "/api/v1/sessions/{id}/messages"@, access: Access::Owner }));
        lemma_wired_routes_are_served(w, run_routes()[0]);
    }
    assert(w.runs ==> serves(route_table(true, w), (RouteView { method: Method::Get, path: "/api/v1/sessions/{id}/timeline"@, access: Access::Owner }))) by {
        assert(run_routes()[1] == (RouteView { method: Method::Get, path: "/api/v1/sessions/{id}/timeline"@, access: Access::Owner }));
        lemma_wired_routes_are_served(w, run_routes()[1]);
    }
    assert(w.runs ==> serves(route_table(true, w), (RouteView { method: Method::Get, path: "/api/v1/runs/{id}"@, access: Access::Owner }))) by {
        assert(run_routes()[2] == (RouteView { method: Method::Get, path: "/api/v1/runs/{id}"@, access: Access::Owner }));
        lemma_wired_routes_are_served(w, run_routes()[2]);
    }
    assert(w.runs ==> serves(route_table(true, w), (RouteView { method: Method::Post, path: "/api/v1/runs/{id}/cancel"@, access: Access::Owner }))) by {
        assert(run_routes()[3] == (RouteView { method: Method::Post, path: "/api/v1/runs/{id}/cancel"@, access: Access::Owner }));
        lemma_wired_routes_are_served(w, run_routes()[3]);
    }
    assert(w.runs ==> serves(route_table(true, w), (RouteView { method: Method::Post, path: "/api/v1/runs/{id}/approvals/{approval_id}"@, access: Access::Owner }))) by {
        assert(run_routes()[4] == (RouteView { method: Method::Post, path: "/api/v1/runs/{id}/approvals/{approval_id}"@, access: Access::Owner }));
        lemma_wired_routes_are_served(w, run_routes()[4]);
    }
    assert(w.runs ==> serves(route_table(true, w), (RouteView { method: Method::Get, path: "/api/v1/providers"@, access: Access::Owner }))) by {
        assert(run_routes()[5] == (RouteView { method: Method::Get, path: "/api/v1/providers"@, access: Access::Owner }));
        lemma_wired_routes_are_served(w, run_routes()[5]);
    }
    assert(w.runs ==> serves(route_table(true, w), (RouteView { method: Method::Get, path: "/ws/v1"@, access: Access::Paired }))) by {
        assert(run_routes()[6] == (RouteView { method: Method::Get, path: "/ws/v1"@, access: Access::Paired }));
        lemma_wired_routes_are_served(w, run_routes()[6]);
    }
}

/// Artifacts, apps and the display are served where they are wired.
pub proof fn law_artifacts_are_served_where_they_are_wired(w: Wiring)
    ensures
        w.artifacts ==> serves(
            route_table(true, w),
            (RouteView { method: Method::Get, path: "/api/v1/artifacts/{id}/versions"@, access: Access::Owner }),
        ),
        w.artifacts ==> serves(
            route_table(true, w),
            (RouteView { method: Method::Get, path: "/api/v1/artifacts/{id}/versions/{version}/blob"@, access: Access::Owner }),
        ),
        w.artifacts ==> serves(
            route_table(true, w),
            (RouteView { method: Method::Get, path: "/api/v1/apps/{id}/versions/{version}/document"@, access: Access::Owner }),
        ),
        w.appbridge ==> serves(
            route_table(true, w),
            (RouteView { method: Method::Post, path: "/api/v1/apps/{id}/versions/{version}/capability-tokens"@, access: Access::Owner }),
        ),
        w.appbridge ==> serves(
            route_table(true, w),
            (RouteView { method: Method::Post, path: "/api/v1/apps/{id}/versions/{version}/invoke"@, access: Access::Owner }),
        ),
        w.display ==> serves(
            route_table(true, w),
            (RouteView { method: Method::Post, path: "/api/v1/artifacts/{id}/open"@, access: Access::Owner }),
        ),
{
    assert(w.artifacts ==> serves(route_table(true, w), (RouteView { method: Method::Get, path: "/api/v1/artifacts/{id}/versions"@, access: Access::Owner }))) by {
        assert(artifact_routes()[0] == (RouteView { method: Method::Get, path: "/api/v1/artifacts/{id}/versions"@, access: Access::Owner }));
        lemma_wired_routes_are_served(w, artifact_routes()[0]);
    }
    assert(w.artifacts ==> serves(route_table(true, w), (RouteView { method: Method::Get, path: "/api/v1/artifacts/{id}/versions/{version}/blob"@, access: Access::Owner }))) by {
        assert(artifact_routes()[1] == (RouteView { method: Method::Get, path: "/api/v1/artifacts/{id}/versions/{version}/blob"@, access: Access::Owner }));
        lemma_wired_routes_are_served(w, artifact_routes()[1]);
    }
    assert(w.artifacts ==> serves(route_table(true, w), (RouteView { method: Method::Get, path: "/api/v1/apps/{id}/versions/{version}/document"@, access: Access::Owner }))) by {
        assert(artifact_routes()[2] == (RouteView { method: Method::Get, path: "/api/v1/apps/{id}/versions/{version}/document"@, access: Access::Owner }));
        lemma_wired_routes_are_served(w, artifact_routes()[2]);
    }
    assert(w.appbridge ==> serves(route_table(true, w), (RouteView { method: Method::Post, path: "/api/v1/apps/{id}/versions/{version}/capability-tokens"@, access: Access::Owner }))) by {
        assert(appbridge_routes()[0] == (RouteView { method: Method::Post, path: "/api/v1/apps/{id}/versions/{version}/capability-tokens"@, access: Access::Owner }));
        lemma_wired_routes_are_served(w, appbridge_routes()[0]);
    }
    assert(w.appbridge ==> serves(route_table(true, w), (RouteView { method: Method::Post, path: "/api/v1/apps/{id}/versions/{version}/invoke"@, access: Access::Owner }))) by {
        assert(appbridge_routes()[1] == (RouteView { method: Method::Post, path: "/api/v1/apps/{id}/versions/{version}/invoke"@, access: Access::Owner }));
        lemma_wired_routes_are_served(w, appbridge_routes()[1]);
    }
    assert(w.display ==> serves(route_table(true, w), (RouteView { method: Method::Post, path: "/api/v1/artifacts/{id}/open"@, access: Access::Owner }))) by {
        assert(display_routes()[0] == (RouteView { method: Method::Post, path: "/api/v1/artifacts/{id}/open"@, access: Access::Owner }));
        lemma_wired_routes_are_served(w, display_routes()[0]);
    }
}

/// Timers and lists are served where they are wired.
pub proof fn law_timers_and_lists_are_served_where_they_are_wired(w: Wiring)
    ensures
        w.timers ==> serves(
            route_table(true, w),
            (RouteView { method: Method::Get, path: "/api/v1/timers"@, access: Access::Owner }),
        ),
        w.timers ==> serves(
            route_table(true, w),
            (RouteView { method: Method::Post, path: "/api/v1/timers"@, access: Access::Owner }),
        ),
        w.timers ==> serves(
            route_table(true, w),
            (RouteView { method: Method::Post, path: "/api/v1/timers/{id}/action"@, access: Access::Owner }),
        ),
        w.lists ==> serves(
            route_table(true, w),
            (RouteView { method: Method::Get, path: "/api/v1/lists"@, access: Access::Owner }),
        ),
        w.lists ==> serves(
            route_table(true, w),
            (RouteView { method: Method::Post, path: "/api/v1/lists"@, access: Access::Owner }),
        ),
        w.lists ==> serves(
            route_table(true, w),
            (RouteView { method: Method::Get, path: "/api/v1/lists/{id}"@, access: Access::Owner }),
        ),
        w.lists ==> serves(
            route_table(true, w),
            (RouteView { method: Method::Post, path: "/api/v1/lists/{id}/items"@, access: Access::Owner }),
        ),
        w.lists ==> serves(
            route_table(true, w),
            (RouteView { method: Method::Patch, path: "/api/v1/lists/{id}/items/{item_id}"@, access: Access::Owner }),
        ),
        w.lists ==> serves(
            route_table(true, w),
            (RouteView { method: Method::Delete, path: "/api/v1/lists/{id}/items/{item_id}"@, access: Access::Owner }),
        ),
        w.lists ==> serves(
            route_table(true, w),
            (RouteView { method: Method::Post, path: "/api/v1/lists/command"@, access: Access::Owner }),
        ),
        w.lists ==> serves(
            route_table(true, w),
            (RouteView { method: Method::Post, path: "/api/v1/lists/{id}/promote"@, access: Access::Owner }),
        ),
{
    assert(w.timers ==> serves(route_table(true, w), (RouteView { method: Method::Get, path: "/api/v1/timers"@, access: Access::Owner }))) by {
        assert(timer_routes()[0] == (RouteView { method: Method::Get, path: "/api/v1/timers"@, access: Access::Owner }));
        lemma_wired_routes_are_served(w, timer_routes()[0]);
    }
    assert(w.timers ==> serves(route_table(true, w), (RouteView { method: Method::Post, path: "/api/v1/timers"@, access: Access::Owner }))) by {
        assert(timer_routes()[1] == (RouteView { method: Method::Post, path: "/api/v1/timers"@, access: Access::Owner }));
        lemma_wired_routes_are_served(w, timer_routes()[1]);
    }
    assert(w.timers ==> serves(route_table(true, w), (RouteView { method: Method::Post, path: "/api/v1/timers/{id}/action"@, access: Access::Owner }))) by {
        assert(timer_routes()[2] == (RouteView { method: Method::Post, path: "/api/v1/timers/{id}/action"@, access: Access::Owner }));
        lemma_wired_routes_are_served(w, timer_routes()[2]);
    }
    assert(w.lists ==> serves(route_table(true, w), (RouteView { method: Method::Get, path: "/api/v1/lists"@, access: Access::Owner }))) by {
        assert(list_routes()[0] == (RouteView { method: Method::Get, path: "/api/v1/lists"@, access: Access::Owner }));
        lemma_wired_routes_are_served(w, list_routes()[0]);
    }
    assert(w.lists ==> serves(route_table(true, w), (RouteView { method: Method::Post, path: "/api/v1/lists"@, access: Access::Owner }))) by {
        assert(list_routes()[1] == (RouteView { method: Method::Post, path: "/api/v1/lists"@, access: Access::Owner }));
        lemma_wired_routes_are_served(w, list_routes()[1]);
    }
    assert(w.lists ==> serves(route_table(true, w), (RouteView { method: Method::Get, path: "/api/v1/lists/{id}"@, access: Access::Owner }))) by {
        assert(list_routes()[2] == (RouteView { method: Method::Get, path: "/api/v1/lists/{id}"@, access: Access::Owner }));
        lemma_wired_routes_are_served(w, list_routes()[2]);
    }
    assert(w.lists ==> serves(route_table(true, w), (RouteView { method: Method::Post, path: "/api/v1/lists/{id}/items"@, access: Access::Owner }))) by {
        assert(list_routes()[3] == (RouteView { method: Method::Post, path: "/api/v1/lists/{id}/items"@, access: Access::Owner }));
        lemma_wired_routes_are_served(w, list_routes()[3]);
    }
    assert(w.lists ==> serves(route_table(true, w), (RouteView { method: Method::Patch, path: "/api/v1/lists/{id}/items/{item_id}"@, access: Access::Owner }))) by {
        assert(list_routes()[4] == (RouteView { method: Method::Patch, path: "/api/v1/lists/{id}/items/{item_id}"@, access: Access::Owner }));
        lemma_wired_routes_are_served(w, list_routes()[4]);
    }
    assert(w.lists ==> serves(route_table(true, w), (RouteView { method: Method::Delete, path: "/api/v1/lists/{id}/items/{item_id}"@, access: Access::Owner }))) by {
        assert(list_routes()[5] == (RouteView { method: Method::Delete, path: "/api/v1/lists/{id}/items/{item_id}"@, access: Access::Owner }));
        lemma_wired_routes_are_served(w, list_routes()[5]);
    }
    assert(w.lists ==> serves(route_table(true, w), (RouteView { method: Method::Post, path: "/api/v1/lists/command"@, access: Access::Owner }))) by {
        assert(list_routes()[6] == (RouteView { method: Method::Post, path: "/api/v1/lists/command"@, access: Access::Owner }));
        lemma_wired_routes_are_served(w, list_routes()[6]);
    }
    assert(w.lists ==> serves(route_table(true, w), (RouteView { method: Method::Post, path: "/api/v1/lists/{id}/promote"@, access: Access::Owner }))) by {
        assert(list_routes()[7] == (RouteView { method: Method::Post, path: "/api/v1/lists/{id}/promote"@, access: Access::Owner }));
        lemma_wired_routes_are_served(w, list_routes()[7]);
    }
}

/// Findings, memories, media and maps are served where they are wired.
pub proof fn law_the_other_surfaces_are_served_where_they_are_wired(w: Wiring)
    ensures
        w.deepdive ==> serves(
            route_table(true, w),
            (RouteView { method: Method::Post, path: "/api/v1/sessions/{id}/deepdive/findings"@, access: Access::Owner }),
        ),
        w.deepdive ==> serves(
            route_table(true, w),
            (RouteView { method: Method::Post, path: "/api/v1/sessions/{id}/deepdive/promote"@, access: Access::Owner }),
        ),
        w.memories ==> serves(
            route_table(true, w),
            (RouteView { method: Method::Get, path: "/api/v1/memories"@, access: Access::Owner }),
        ),
        w.memories ==> serves(
            route_table(true, w),
            (RouteView { method: Method::Patch, path: "/api/v1/memories/{id}"@, access: Access::Owner }),
        ),
        w.memories ==> serves(
            route_table(true, w),
            (RouteView { method: Method::Delete, path: "/api/v1/memories/{id}"@, access: Access::Owner }),
        ),
        w.media ==> serves(
            route_table(true, w),
            (RouteView { method: Method::Get, path: "/api/v1/media/state"@, access: Access::Owner }),
        ),
        w.media ==> serves(
            route_table(true, w),
            (RouteView { method: Method::Post, path: "/api/v1/media/command"@, access: Access::Owner }),
        ),
        w.maps ==> serves(
            route_table(true, w),
            (RouteView { method: Method::Get, path: "/api/v1/map/coverage"@, access: Access::Owner }),
        ),
        w.maps ==> serves(
            route_table(true, w),
            (RouteView { method: Method::Get, path: "/api/v1/map/tiles/{z}/{x}/{y}"@, access: Access::Owner }),
        ),
{
    assert(w.deepdive ==> serves(route_table(true, w), (RouteView { method: Method::Post, path: "/api/v1/sessions/{id}/deepdive/findings"@, access: Access::Owner }))) by {
        assert(deepdive_routes()[0] == (RouteView { method: Method::Post, path: "/api/v1/sessions/{id}/deepdive/findings"@, access: Access::Owner }));
        lemma_wired_routes_are_served(w, deepdive_routes()[0]);
    }
    assert(w.deepdive ==> serves(route_table(true, w), (RouteView { method: Method::Post, path: "/api/v1/sessions/{id}/deepdive/promote"@, access: Access::Owner }))) by {
        assert(deepdive_routes()[1] == (RouteView { method: Method::Post, path: "/api/v1/sessions/{id}/deepdive/promote"@, access: Access::Owner }));
        lemma_wired_routes_are_served(w, deepdive_routes()[1]);
    }
    assert(w.memories ==> serves(route_table(true, w), (RouteView { method: Method::Get, path: "/api/v1/memories"@, access: Access::Owner }))) by {
        assert(memory_routes()[0] == (RouteView { method: Method::Get, path: "/api/v1/memories"@, access: Access::Owner }));
        lemma_wired_routes_are_served(w, memory_routes()[0]);
    }
    assert(w.memories ==> serves(route_table(true, w), (RouteView { method: Method::Patch, path: "/api/v1/memories/{id}"@, access: Access::Owner }))) by {
        assert(memory_routes()[1] == (RouteView { method: Method::Patch, path: "/api/v1/memories/{id}"@, access: Access::Owner }));
        lemma_wired_routes_are_served(w, memory_routes()[1]);
    }
    assert(w.memories ==> serves(route_table(true, w), (RouteView { method: Method::Delete, path: "/api/v1/memories/{id}"@, access: Access::Owner }))) by {
        assert(memory_routes()[2] == (RouteView { method: Method::Delete, path: "/api/v1/memories/{id}"@, access: Access::Owner }));
        lemma_wired_routes_are_served(w, memory_routes()[2]);
    }
    assert(w.media ==> serves(route_table(true, w), (RouteView { method: Method::Get, path: "/api/v1/media/state"@, access: Access::Owner }))) by {
        assert(media_routes()[0] == (RouteView { method: Method::Get, path: "/api/v1/media/state"@, access: Access::Owner }));
        lemma_wired_routes_are_served(w, media_routes()[0]);
    }
    assert(w.media ==> serves(route_table(true, w), (RouteView { method: Method::Post, path: "/api/v1/media/command"@, access: Access::Owner }))) by {
        assert(media_routes()[1] == (RouteView { method: Method::Post, path: "/api/v1/media/command"@, access: Access::Owner }));
        lemma_wired_routes_are_served(w, media_routes()[1]);
    }
    assert(w.maps ==> serves(route_table(true, w), (RouteView { method: Method::Get, path: "/api/v1/map/coverage"@, access: Access::Owner }))) by {
        assert(map_routes()[0] == (RouteView { method: Method::Get, path: "/api/v1/map/coverage"@, access: Access::Owner }));
        lemma_wired_routes_are_served(w, map_routes()[0]);
    }
    assert(w.maps ==> serves(route_table(true, w), (RouteView { method: Method::Get, path: "/api/v1/map/tiles/{z}/{x}/{y}"@, access: Access::Owner }))) by {
        assert(map_routes()[1] == (RouteView { method: Method::Get, path: "/api/v1/map/tiles/{z}/{x}/{y}"@, access: Access::Owner }));
        lemma_wired_routes_are_served(w, map_routes()[1]);
    }
}

/// What is not wired adds no route, and what is adds its own; a path that nothing
/// serves is not found.
pub proof fn law_only_what_is_wired_adds_routes(routes: Seq<RouteView>)
    ensures
        only_if(false, routes).len() == 0,
        only_if(true, routes) == routes,
        unknown_route_view().status == 404,
{
}

/// How the service is, by how its adapters are.
pub open spec fn status_of(adapters: Seq<(String, AdapterHealth)>) -> ServiceStatus {
    if any_down(adapters) {
        ServiceStatus::Degraded
    } else {
        ServiceStatus::Healthy
    }
}

/// The service is degraded as soon as one adapter is down, wherever it stands,
/// and is healthy with every adapter up or switched off.
pub proof fn law_one_adapter_down_degrades(adapters: Seq<(String, AdapterHealth)>, i: int)
    ensures
        0 <= i < adapters.len() && adapters[i].1.state is Down ==> status_of(adapters) is Degraded,
        (forall|k: int|
            0 <= k < adapters.len() ==> (#[trigger] adapters[k]).1.state is Up
                || adapters[k].1.state is Disabled) ==> status_of(adapters) is Healthy,
        status_of(adapters) is Degraded <==> !(status_of(adapters) is Healthy),
{
}

/// Nothing is wired until it is wired, and health is public until it is hidden.
pub proof fn law_nothing_is_wired_by_default(i: int)
    requires
        0 <= i < route_table(false, Wiring::spec_default()).len(),
    ensures
        route_table(false, Wiring::spec_default()).len() == 1,
        route_table(false, Wiring::spec_default())[i] == (RouteView {
            method: Method::Get,
            path: "/api/v1/diagnostics/health"@,
            access: Access::Open,
        }),
{
}

/// The code of a path that nothing serves.
pub proof fn law_an_unknown_route_has_its_code()
    ensures
        unknown_route_view().status == 404 && unknown_route_view().code is ResourceNotFound,
{
}

} // verus!
