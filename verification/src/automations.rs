//! Automations: their triggers, their routes, and the loop that sweeps them.
//!
//! Who created an automation is taken from the authenticated device and never
//! from a request: a client that could name a creator could borrow another
//! device's authority at every future fire time.

use vstd::prelude::*;

use crate::appbridge;
use crate::audit;
use crate::audit::{AuditEvent, AuditValue};
use crate::canonical;
use crate::canonical::{CanonicalValue, JsonValue};
use crate::identity::DeviceContext;
use crate::ids;
use crate::problem;
use crate::problem::{ErrorCode, ProblemDetails};
use crate::text;
use crate::time;
use crate::time::{Timestamp, DAY_NANOS, MINUTE_NANOS};

verus! {

/// How often the clock sweep runs, in seconds: the resolution of a trigger.
pub const SWEEP_INTERVAL_SECS: u64 = 60;

/// How many executions a history shows.
pub const HISTORY_LIMIT: u32 = 50;

// ---------------------------------------------------------------------------
// Triggers
// ---------------------------------------------------------------------------

#[derive(Debug, PartialEq, Eq)]
pub enum Trigger {
    DailyAt { minutes_since_midnight: u16 },
    HomeAssistantState { entity_id: String, state: String },
}

#[derive(Debug, PartialEq, Eq)]
pub enum TriggerDto {
    DailyAt { minutes_since_midnight: u16 },
    HomeAssistantState { entity_id: String, state: String },
}

/// Why a trigger on the wire is not a trigger.
#[derive(Debug, Clone, Copy, PartialEq, Eq, Structural)]
pub enum TriggerFault {
    MinuteOutOfRange,
    EmptyEntityOrState,
}

impl TriggerFault {
    pub open spec fn spec_detail(self) -> &'static str {
        match self {
            TriggerFault::MinuteOutOfRange => "minutesSinceMidnight must be 0–1439",
            TriggerFault::EmptyEntityOrState => "entityId and state must be non-empty",
        }
    }

    pub fn detail(self) -> (s: &'static str)
        ensures
            s == self.spec_detail(),
    {
        match self {
            TriggerFault::MinuteOutOfRange => "minutesSinceMidnight must be 0–1439",
            TriggerFault::EmptyEntityOrState => "entityId and state must be non-empty",
        }
    }
}

/// Whether a trigger and its wire form say the same.
pub open spec fn same_trigger(trigger: Trigger, dto: TriggerDto) -> bool {
    match (trigger, dto) {
        (
            Trigger::DailyAt { minutes_since_midnight: a },
            TriggerDto::DailyAt { minutes_since_midnight: b },
        ) => a == b,
        (
            Trigger::HomeAssistantState { entity_id: e, state: s },
            TriggerDto::HomeAssistantState { entity_id: f, state: t },
        ) => e@ == f@ && s@ == t@,
        _ => false,
    }
}

pub open spec fn trigger_fault(dto: TriggerDto) -> Option<TriggerFault> {
    match dto {
        TriggerDto::DailyAt { minutes_since_midnight } => if minutes_since_midnight >= 1440 {
            Some(TriggerFault::MinuteOutOfRange)
        } else {
            None
        },
        TriggerDto::HomeAssistantState { entity_id, state } => if text::is_blank(entity_id@)
            || text::is_blank(state@) {
            Some(TriggerFault::EmptyEntityOrState)
        } else {
            None
        },
    }
}

pub fn trigger_dto(trigger: &Trigger) -> (dto: TriggerDto)
    ensures
        same_trigger(*trigger, dto),
{
    match trigger {
        Trigger::DailyAt { minutes_since_midnight } => TriggerDto::DailyAt {
            minutes_since_midnight: *minutes_since_midnight,
        },
        Trigger::HomeAssistantState { entity_id, state } => TriggerDto::HomeAssistantState {
            entity_id: entity_id.clone(),
            state: state.clone(),
        },
    }
}

/// Read a trigger off the wire. What is stored can fire.
pub fn trigger_from(dto: TriggerDto) -> (r: Result<Trigger, TriggerFault>)
    ensures
        match r {
            Ok(t) => trigger_fault(dto) is None && same_trigger(t, dto),
            Err(f) => trigger_fault(dto) == Some(f),
        },
{
    match dto {
        TriggerDto::DailyAt { minutes_since_midnight } => {
            if minutes_since_midnight >= 1440 {
                return Err(TriggerFault::MinuteOutOfRange);
            }
            Ok(Trigger::DailyAt { minutes_since_midnight })
        },
        TriggerDto::HomeAssistantState { entity_id, state } => {
            if text::blank(entity_id.as_str()) || text::blank(state.as_str()) {
                return Err(TriggerFault::EmptyEntityOrState);
            }
            Ok(Trigger::HomeAssistantState { entity_id, state })
        },
    }
}

// ---------------------------------------------------------------------------
// Automations
// ---------------------------------------------------------------------------

#[derive(Debug)]
pub struct Automation {
    pub id: String,
    pub name: String,
    pub trigger: Trigger,
    pub tool_id: String,
    pub arguments: CanonicalValue,
    pub enabled: bool,
    pub created_by: String,
    pub created_at: Timestamp,
    pub last_fired_at: Option<Timestamp>,
}

#[derive(Debug)]
pub struct AutomationDto {
    pub id: String,
    pub name: String,
    pub trigger: TriggerDto,
    pub tool_id: String,
    pub arguments: JsonValue,
    pub enabled: bool,
    pub created_by_device_id: String,
    pub created_at: String,
    pub last_fired_at: Option<String>,
}

/// The RFC 3339 form of a time that there may be.
pub open spec fn opt_rfc3339(t: Option<Timestamp>) -> Option<Seq<char>> {
    match t {
        Some(t) => Some(time::rfc3339_of(t)),
        None => None,
    }
}

/// Whether a shown automation says what the stored one does.
pub open spec fn shows(dto: AutomationDto, a: Automation) -> bool {
    &&& dto.id@ == a.id@
    &&& dto.name@ == a.name@
    &&& same_trigger(a.trigger, dto.trigger)
    &&& dto.tool_id@ == a.tool_id@
    &&& canonical::json_meaning(dto.arguments) == canonical::shown_meaning(a.arguments)
    &&& dto.enabled == a.enabled
    &&& dto.created_by_device_id@ == a.created_by@
    &&& dto.created_at@ == time::rfc3339_of(a.created_at)
    &&& text::opt_view(dto.last_fired_at) == opt_rfc3339(a.last_fired_at)
}

pub fn to_dto(a: &Automation) -> (dto: AutomationDto)
    ensures
        shows(dto, *a),
{
    AutomationDto {
        id: a.id.clone(),
        name: a.name.clone(),
        trigger: trigger_dto(&a.trigger),
        tool_id: a.tool_id.clone(),
        arguments: canonical::canonical_to_json(&a.arguments),
        enabled: a.enabled,
        created_by_device_id: a.created_by.clone(),
        created_at: time::rfc3339(a.created_at),
        last_fired_at: match a.last_fired_at {
            Some(t) => Some(time::rfc3339(t)),
            None => None,
        },
    }
}

/// What firing an automation came to.
#[derive(Debug)]
pub enum ExecutionOutcome {
    Executed,
    NeedsApproval { exact_effect: String },
    Denied { reason: String },
    Failed { reason: String },
}

/// A firing. `label` is the wire name of its outcome.
#[derive(Debug)]
pub struct AutomationExecution {
    pub occurred_at: Timestamp,
    pub outcome: ExecutionOutcome,
    pub label: String,
}

#[derive(Debug)]
pub struct AutomationExecutionDto {
    pub occurred_at: String,
    pub outcome: String,
    pub detail: Option<String>,
}

/// What is told of an outcome besides its name.
pub open spec fn detail_of(outcome: ExecutionOutcome) -> Option<Seq<char>> {
    match outcome {
        ExecutionOutcome::Executed => None,
        ExecutionOutcome::NeedsApproval { exact_effect } => Some(exact_effect@),
        ExecutionOutcome::Denied { reason } => Some(reason@),
        ExecutionOutcome::Failed { reason } => Some(reason@),
    }
}

pub open spec fn shows_execution(dto: AutomationExecutionDto, e: AutomationExecution) -> bool {
    &&& dto.occurred_at@ == time::rfc3339_of(e.occurred_at)
    &&& dto.outcome@ == e.label@
    &&& text::opt_view(dto.detail) == detail_of(e.outcome)
}

pub fn execution_dto(e: &AutomationExecution) -> (dto: AutomationExecutionDto)
    ensures
        shows_execution(dto, *e),
{
    let detail = match &e.outcome {
        ExecutionOutcome::Executed => None,
        ExecutionOutcome::NeedsApproval { exact_effect } => Some(exact_effect.clone()),
        ExecutionOutcome::Denied { reason } => Some(reason.clone()),
        ExecutionOutcome::Failed { reason } => Some(reason.clone()),
    };
    AutomationExecutionDto {
        occurred_at: time::rfc3339(e.occurred_at),
        outcome: e.label.clone(),
        detail,
    }
}

// ---------------------------------------------------------------------------
// Routes
// ---------------------------------------------------------------------------

pub open spec fn storage_problem_view() -> problem::ProblemView {
    problem::problem_of(503, ErrorCode::ProviderUnavailable, "automations are unavailable"@, None)
}

pub fn storage_problem() -> (p: ProblemDetails)
    ensures
        p@ == storage_problem_view(),
{
    problem::unavailable("automations are unavailable")
}

pub open spec fn not_found_view() -> problem::ProblemView {
    problem::problem_of(404, ErrorCode::ResourceNotFound, "no such automation"@, None)
}

/// All automations, in the order of the store.
pub fn index(stored: Option<Vec<Automation>>) -> (r: Result<Vec<AutomationDto>, ProblemDetails>)
    ensures
        answers_index(stored, r),
        match stored {
            None => r matches Err(p) && p@ == storage_problem_view(),
            Some(all) => r matches Ok(shown) && shown@.len() == all@.len() && forall|i: int|
                0 <= i < all@.len() ==> shows(#[trigger] shown@[i], all@[i]),
        },
{
    let all = match stored {
        Some(v) => v,
        None => {
            return Err(storage_problem());
        },
    };
    let mut shown: Vec<AutomationDto> = Vec::new();
    let mut i: usize = 0;
    while i < all.len()
        invariant
            i <= all@.len(),
            shown@.len() == i,
            forall|k: int| 0 <= k < i ==> shows(#[trigger] shown@[k], all@[k]),
        decreases all@.len() - i,
    {
        shown.push(to_dto(&all[i]));
        i = i + 1;
    }
    Ok(shown)
}

/// A request for a new automation, its parts as the parsers left them: the name
/// or what is wrong with it, and the tool where its identifier is one.
#[derive(Debug)]
pub struct CreateAutomationRequest {
    pub name: Result<String, String>,
    pub trigger: TriggerDto,
    pub tool_id: Option<String>,
    pub arguments: JsonValue,
}

/// Why an automation is not made.
pub open spec fn create_refusal(request: CreateAutomationRequest) -> Option<problem::ProblemView> {
    match request.name {
        Err(why) => Some(
            problem::problem_of(400, ErrorCode::ValidationFailed, "name: "@ + why@, None),
        ),
        Ok(_) => match trigger_fault(request.trigger) {
            Some(fault) => Some(
                problem::problem_of(
                    400,
                    ErrorCode::ValidationFailed,
                    fault.spec_detail()@,
                    None,
                ),
            ),
            None => match request.tool_id {
                None => Some(
                    problem::problem_of(
                        400,
                        ErrorCode::ValidationFailed,
                        "toolId is not a valid tool identifier"@,
                        None,
                    ),
                ),
                Some(_) => None,
            },
        },
    }
}

/// The record of a new automation: words of a closed vocabulary, and never its
/// name, which is human text.
pub open spec fn created_event(
    device_id: Seq<char>,
    id: Seq<char>,
    trigger_kind: Seq<char>,
    tool_id: Seq<char>,
    now: Timestamp,
) -> audit::AuditView {
    audit::event_of(
        now,
        audit::device_actor(device_id),
        "automation.created"@,
        "automation:"@ + id,
        seq![
            ("triggerKind"@, audit::ValueView::Text(trigger_kind)),
            ("toolId"@, audit::ValueView::Text(tool_id)),
        ],
    )
}

/// Whether an automation is the one that a request asks for.
pub open spec fn made_from(a: Automation, request: CreateAutomationRequest, device: DeviceContext, now: Timestamp) -> bool {
    &&& request.name matches Ok(name) && a.name == name
    &&& same_trigger(a.trigger, request.trigger)
    &&& request.tool_id matches Some(tool) && a.tool_id == tool
    &&& canonical::is_canonical(a.arguments)
    &&& canonical::canon_meaning(a.arguments) == canonical::json_meaning(request.arguments)
    &&& a.enabled
    &&& a.created_by@ == device.device_id@
    &&& a.created_at == now
    &&& a.last_fired_at is None
}

/// Make an automation under an identifier. `trigger_kind` is the name of the
/// trigger's kind.
pub fn create_as(
    id: String,
    request: CreateAutomationRequest,
    trigger_kind: &str,
    device: &DeviceContext,
    now: Timestamp,
) -> (r: Result<(Automation, AuditEvent), ProblemDetails>)
    ensures
        match create_refusal(request) {
            Some(p) => r matches Err(e) && e@ == p,
            None => r matches Ok((a, event)) && a.id == id && made_from(a, request, *device, now)
                && event@ == created_event(
                device.device_id@,
                id@,
                trigger_kind@,
                a.tool_id@,
                now,
            ),
        },
{
    let name = match request.name {
        Ok(n) => n,
        Err(why) => {
            let title = text::concat2("name: ", why.as_str());
            return Err(problem::bad_request(title.as_str()));
        },
    };
    let trigger = match trigger_from(request.trigger) {
        Ok(t) => t,
        Err(fault) => {
            return Err(problem::bad_request(fault.detail()));
        },
    };
    let tool_id = match request.tool_id {
        Some(t) => t,
        None => {
            return Err(problem::bad_request("toolId is not a valid tool identifier"));
        },
    };
    let event = AuditEvent {
        occurred_at: now,
        actor: audit::actor_of(device.device_id.as_str()),
        event_type: "automation.created".to_owned(),
        target: text::concat2("automation:", id.as_str()),
        correlation_id: None,
        payload: audit::with_field(
            audit::with_field(
                audit::no_fields(),
                "triggerKind",
                AuditValue::Text(trigger_kind.to_owned()),
            ),
            "toolId",
            AuditValue::Text(tool_id.clone()),
        ),
    };
    assert(event@ =~= created_event(device.device_id@, id@, trigger_kind@, tool_id@, now));
    let automation = Automation {
        id,
        name,
        trigger,
        tool_id,
        arguments: canonical::json_to_canonical(&request.arguments),
        enabled: true,
        created_by: device.device_id.clone(),
        created_at: now,
        last_fired_at: None,
    };
    Ok((automation, event))
}

/// Make an automation under a fresh identifier.
pub fn create(
    request: CreateAutomationRequest,
    trigger_kind: &str,
    device: &DeviceContext,
    now: Timestamp,
) -> (r: Result<(Automation, AuditEvent), ProblemDetails>)
    ensures
        match create_refusal(request) {
            Some(p) => r matches Err(e) && e@ == p,
            None => r matches Ok((a, event)) && ids::is_ulid(a.id@) && made_from(
                a,
                request,
                *device,
                now,
            ) && event@ == created_event(
                device.device_id@,
                a.id@,
                trigger_kind@,
                a.tool_id@,
                now,
            ),
        },
{
    create_as(ids::fresh_id(), request, trigger_kind, device, now)
}

/// What a creation is answered with, where `stored` says that the automation and
/// its audit event were stored: 201 with the automation as it is shown, or the
/// storage problem.
pub fn created(automation: &Automation, stored: bool) -> (r: Result<
    (u16, AutomationDto),
    ProblemDetails,
>)
    ensures
        answers_making(r, *automation, stored),
        if stored {
            r matches Ok((status, dto)) && status == 201 && shows(dto, *automation)
        } else {
            r matches Err(p) && p@ == storage_problem_view()
        },
{
    if stored {
        Ok((201, to_dto(automation)))
    } else {
        Err(storage_problem())
    }
}

/// Read the identifier of a path. What is not one names nothing.
pub fn addressed(id: &str) -> (r: Result<(), ProblemDetails>)
    ensures
        match r {
            Ok(_) => ids::is_ulid(id@),
            Err(p) => !ids::is_ulid(id@) && p@ == not_found_view(),
        },
{
    if ids::is_id(id) {
        Ok(())
    } else {
        Err(problem::not_found("no such automation"))
    }
}

/// What a change is answered with, where `stored` says that it was made: 204, or
/// why not.
pub open spec fn change_of(id: Seq<char>, stored: bool) -> Result<u16, problem::ProblemView> {
    if !ids::is_ulid(id) {
        Err(not_found_view())
    } else if stored {
        Ok(204)
    } else {
        Err(storage_problem_view())
    }
}

fn changed(id: &str, stored: bool) -> (r: Result<u16, ProblemDetails>)
    ensures
        match (r, change_of(id@, stored)) {
            (Ok(n), Ok(m)) => n == m,
            (Err(e), Err(p)) => e@ == p,
            _ => false,
        },
{
    if let Err(p) = addressed(id) {
        return Err(p);
    }
    if stored {
        Ok(204)
    } else {
        Err(storage_problem())
    }
}

/// Enable or disable an automation: what is answered.
pub fn update(id: &str, stored: bool) -> (r: Result<u16, ProblemDetails>)
    ensures
        match (r, change_of(id@, stored)) {
            (Ok(n), Ok(m)) => n == m,
            (Err(e), Err(p)) => e@ == p,
            _ => false,
        },
{
    changed(id, stored)
}

/// Delete an automation: what is answered.
pub fn delete(id: &str, stored: bool) -> (r: Result<u16, ProblemDetails>)
    ensures
        match (r, change_of(id@, stored)) {
            (Ok(n), Ok(m)) => n == m,
            (Err(e), Err(p)) => e@ == p,
            _ => false,
        },
{
    changed(id, stored)
}

/// The executions of an automation, in the order of the store.
pub fn history(id: &str, stored: Option<Vec<AutomationExecution>>) -> (r: Result<
    Vec<AutomationExecutionDto>,
    ProblemDetails,
>)
    ensures
        answers_history(id@, stored, r),
        !ids::is_ulid(id@) ==> (r matches Err(p) && p@ == not_found_view()),
        ids::is_ulid(id@) ==> match stored {
            None => r matches Err(p) && p@ == storage_problem_view(),
            Some(all) => r matches Ok(shown) && shown@.len() == all@.len() && forall|i: int|
                0 <= i < all@.len() ==> shows_execution(#[trigger] shown@[i], all@[i]),
        },
{
    if let Err(p) = addressed(id) {
        return Err(p);
    }
    let all = match stored {
        Some(v) => v,
        None => {
            return Err(storage_problem());
        },
    };
    let mut shown: Vec<AutomationExecutionDto> = Vec::new();
    let mut i: usize = 0;
    while i < all.len()
        invariant
            i <= all@.len(),
            shown@.len() == i,
            forall|k: int| 0 <= k < i ==> shows_execution(#[trigger] shown@[k], all@[k]),
        decreases all@.len() - i,
    {
        shown.push(execution_dto(&all[i]));
        i = i + 1;
    }
    Ok(shown)
}

/// Whatever a request says, an automation belongs to the device that asked: one
/// caller's automations have one creator, and no other caller's has the same.
pub proof fn law_the_creator_is_the_caller(
    a: Automation,
    b: Automation,
    request: CreateAutomationRequest,
    other: CreateAutomationRequest,
    device: DeviceContext,
    other_device: DeviceContext,
    now: Timestamp,
    then: Timestamp,
)
    requires
        made_from(a, request, device, now),
        made_from(b, other, other_device, then),
    ensures
        a.created_by@ == device.device_id@,
        a.created_by@ == b.created_by@ <==> device.device_id@ == other_device.device_id@,
{
}

/// Every trigger that is read off the wire is written back as it came.
pub proof fn law_triggers_round_trip(trigger: Trigger, dto: TriggerDto, again: TriggerDto)
    requires
        same_trigger(trigger, dto),
        same_trigger(trigger, again),
        trigger_fault(dto) is None,
    ensures
        trigger_fault(again) is None,
        match (dto, again) {
            (
                TriggerDto::DailyAt { minutes_since_midnight: a },
                TriggerDto::DailyAt { minutes_since_midnight: b },
            ) => a == b && a < 1440,
            (
                TriggerDto::HomeAssistantState { entity_id: e, state: s },
                TriggerDto::HomeAssistantState { entity_id: f, state: t },
            ) => e@ == f@ && s@ == t@,
            _ => false,
        },
{
}

// ---------------------------------------------------------------------------
// The sweep
// ---------------------------------------------------------------------------

/// Whole minutes since midnight where the clock is `offset_secs` ahead of UTC.
pub open spec fn minute_of_day(t: Timestamp, offset_secs: i32) -> int {
    (t.nanos + offset_secs * 1_000_000_000) % (DAY_NANOS as int) / (MINUTE_NANOS as int)
}

/// The part of a day that has passed, in nanoseconds.
fn into_day(nanos: i128) -> (r: i128)
    ensures
        r == nanos as int % DAY_NANOS as int,
        0 <= r < DAY_NANOS,
{
    match nanos.checked_rem_euclid(DAY_NANOS) {
        Some(r) => r,
        None => 0,
    }
}

/// The minute that a part of a day has reached.
fn minute_of(local: i128) -> (m: u16)
    requires
        0 <= local < DAY_NANOS,
    ensures
        m == local as int / MINUTE_NANOS as int,
        m < 1440,
{
    (local / MINUTE_NANOS) as u16
}

pub fn minutes_since_midnight(now: Timestamp, offset_secs: i32) -> (m: u16)
    ensures
        m == minute_of_day(now, offset_secs),
        m < 1440,
{
    let utc: i128 = into_day(now.nanos);
    let shift: i128 = offset_secs as i128 * 1_000_000_000;
    let local: i128 = into_day(utc + shift);
    proof {
        vstd::arithmetic::div_mod::lemma_add_mod_noop_right(
            shift as int,
            now.nanos as int,
            DAY_NANOS as int,
        );
    }
    minute_of(local)
}

/// What the scheduler is told.
#[derive(Debug)]
pub enum SchedulerEvent {
    /// It started; when a former run was last seen, where that could be read.
    Started { last_seen: Option<Timestamp> },
    /// What was missed has been announced.
    MissedAnnounced,
    /// It slept.
    Woke,
    /// A sweep is over, whether it succeeded or failed.
    Swept,
    /// The stamp of this tick was written, or could not be.
    Stamped,
    ShutDown,
}

/// What the scheduler does next.
#[derive(Debug, PartialEq, Eq, Structural, Clone, Copy)]
pub enum SchedulerAction {
    /// Announce what fell between two times. It is not fired late.
    AnnounceMissed { since: Timestamp, until: Timestamp },
    Sleep { secs: u64 },
    /// Fire what falls in the window that opens after `from` and closes at `to`.
    Sweep { from: u16, to: u16, at: Timestamp },
    /// Record that this moment was reached.
    Stamp { at: Timestamp },
    Stop,
}

/// What follows an event where the triggers are swept up to the minute
/// `previous`, and the minute up to which they are swept then.
pub open spec fn step(previous: u16, event: SchedulerEvent, now: Timestamp, offset_secs: i32) -> (
    SchedulerAction,
    u16,
) {
    match event {
        SchedulerEvent::Started { last_seen } => (
            match last_seen {
                Some(since) => SchedulerAction::AnnounceMissed { since, until: now },
                None => SchedulerAction::Sleep { secs: SWEEP_INTERVAL_SECS },
            },
            previous,
        ),
        SchedulerEvent::MissedAnnounced => (
            SchedulerAction::Sleep { secs: SWEEP_INTERVAL_SECS },
            previous,
        ),
        SchedulerEvent::Woke => (
            SchedulerAction::Sweep {
                from: previous,
                to: minute_of_day(now, offset_secs) as u16,
                at: now,
            },
            minute_of_day(now, offset_secs) as u16,
        ),
        SchedulerEvent::Swept => (SchedulerAction::Stamp { at: now }, previous),
        SchedulerEvent::Stamped => (SchedulerAction::Sleep { secs: SWEEP_INTERVAL_SECS }, previous),
        SchedulerEvent::ShutDown => (SchedulerAction::Stop, previous),
    }
}

/// The loop that sweeps triggers. It remembers the minute that it has swept up
/// to.
pub struct Scheduler {
    pub previous: u16,
}

impl Scheduler {
    pub fn start(now: Timestamp, offset_secs: i32) -> (s: Self)
        ensures
            s.previous == minute_of_day(now, offset_secs),
    {
        Scheduler { previous: minutes_since_midnight(now, offset_secs) }
    }

    /// What follows an event. A window and no equality test, so that nothing is
    /// skipped because nobody asked at exactly its minute; and a failure stops
    /// nothing.
    pub fn next(&mut self, event: SchedulerEvent, now: Timestamp, offset_secs: i32) -> (a:
        SchedulerAction)
        ensures
            (a, final(self).previous) == step(old(self).previous, event, now, offset_secs),
    {
        match event {
            SchedulerEvent::Started { last_seen } => match last_seen {
                Some(since) => SchedulerAction::AnnounceMissed { since, until: now },
                None => SchedulerAction::Sleep { secs: SWEEP_INTERVAL_SECS },
            },
            SchedulerEvent::MissedAnnounced => SchedulerAction::Sleep {
                secs: SWEEP_INTERVAL_SECS,
            },
            SchedulerEvent::Woke => {
                let from: u16 = self.previous;
                let to: u16 = minutes_since_midnight(now, offset_secs);
                self.previous = to;
                SchedulerAction::Sweep { from, to, at: now }
            },
            SchedulerEvent::Swept => SchedulerAction::Stamp { at: now },
            SchedulerEvent::Stamped => SchedulerAction::Sleep { secs: SWEEP_INTERVAL_SECS },
            SchedulerEvent::ShutDown => SchedulerAction::Stop,
        }
    }
}

/// The minute up to which triggers are swept after a row of events.
pub open spec fn swept_after(
    previous: u16,
    events: Seq<(SchedulerEvent, Timestamp)>,
    offset_secs: i32,
) -> u16
    decreases events.len(),
{
    if events.len() == 0 {
        previous
    } else {
        step(
            swept_after(previous, events.drop_last(), offset_secs),
            events.last().0,
            events.last().1,
            offset_secs,
        ).1
    }
}

/// Whatever happens between two sweeps, the later one opens where the earlier
/// one closed, so no minute falls between them.
pub proof fn law_sweeps_leave_no_gap(
    previous: u16,
    first: Timestamp,
    between: Seq<(SchedulerEvent, Timestamp)>,
    second: Timestamp,
    offset_secs: i32,
)
    requires
        forall|i: int| 0 <= i < between.len() ==> !((#[trigger] between[i]).0 is Woke),
    ensures
        ({
            let (earlier, swept) = step(previous, SchedulerEvent::Woke, first, offset_secs);
            let (later, _) = step(
                swept_after(swept, between, offset_secs),
                SchedulerEvent::Woke,
                second,
                offset_secs,
            );
            earlier matches SchedulerAction::Sweep { from, to, at } && (
            later matches SchedulerAction::Sweep { from: opens, to: closes, at: then } && opens
                == to)
        }),
{
    lemma_only_waking_sweeps(
        step(previous, SchedulerEvent::Woke, first, offset_secs).1,
        between,
        offset_secs,
    );
}

proof fn lemma_only_waking_sweeps(
    previous: u16,
    events: Seq<(SchedulerEvent, Timestamp)>,
    offset_secs: i32,
)
    requires
        forall|i: int| 0 <= i < events.len() ==> !((#[trigger] events[i]).0 is Woke),
    ensures
        swept_after(previous, events, offset_secs) == previous,
    decreases events.len(),
{
    if events.len() > 0 {
        let before = events.drop_last();
        assert forall|i: int| 0 <= i < before.len() implies !((#[trigger] before[i]).0 is Woke) by {
            assert(before[i] == events[i]);
        }
        lemma_only_waking_sweeps(previous, before, offset_secs);
        assert(!(events[events.len() - 1].0 is Woke));
    }
}

/// What was missed while the daemon was down is announced, and never fired late:
/// starting leads to no sweep.
pub proof fn law_what_was_missed_is_not_fired(
    previous: u16,
    last_seen: Option<Timestamp>,
    now: Timestamp,
    offset_secs: i32,
)
    ensures
        !(step(previous, SchedulerEvent::Started { last_seen }, now, offset_secs).0 is Sweep),
        last_seen matches Some(since) ==> step(
            previous,
            SchedulerEvent::Started { last_seen },
            now,
            offset_secs,
        ).0 == (SchedulerAction::AnnounceMissed { since, until: now }),
{
}

/// The scheduler ends only when it is told to: whatever else happens to it, it
/// goes on.
pub proof fn law_only_shutting_down_stops(
    previous: u16,
    event: SchedulerEvent,
    now: Timestamp,
    offset_secs: i32,
)
    ensures
        step(previous, event, now, offset_secs).0 is Stop <==> event is ShutDown,
{
}

/// The scheduler stays live: a start with nothing to announce, an announcement
/// and a stamp are each followed by a minute's sleep, a sleep by a sweep of what
/// came since the last one, and a sweep by its stamp.
pub proof fn law_the_scheduler_goes_round(previous: u16, now: Timestamp, offset_secs: i32)
    ensures
        step(previous, SchedulerEvent::Started { last_seen: None }, now, offset_secs).0 == (
        SchedulerAction::Sleep { secs: 60 }),
        step(previous, SchedulerEvent::MissedAnnounced, now, offset_secs).0 == (
        SchedulerAction::Sleep { secs: 60 }),
        step(previous, SchedulerEvent::Stamped, now, offset_secs).0 == (SchedulerAction::Sleep {
            secs: 60,
        }),
        step(previous, SchedulerEvent::Woke, now, offset_secs).0 matches SchedulerAction::Sweep {
            from,
            to,
            at,
        } && from == previous && at == now && to == step(
            previous,
            SchedulerEvent::Woke,
            now,
            offset_secs,
        ).1,
        step(previous, SchedulerEvent::Swept, now, offset_secs).0 == (SchedulerAction::Stamp {
            at: now,
        }),
{
}

/// The minute of the day goes on by one with every minute and begins anew after a
/// day, and a clock that is ahead shows what another shows later.
pub proof fn law_the_minute_follows_the_clock(t: Timestamp, later: Timestamp, offset_secs: i32, minutes: int)
    requires
        0 <= minutes,
        later.nanos == t.nanos + minutes * 60_000_000_000,
    ensures
        0 <= minute_of_day(t, offset_secs) < 1440,
        minute_of_day(later, offset_secs) == (minute_of_day(t, offset_secs) + minutes) % 1440,
        t.nanos + offset_secs * 1_000_000_000 == 0 ==> minute_of_day(later, offset_secs) == minutes
            % 1440,
{
    let a = t.nanos + offset_secs * 1_000_000_000;
    let d = DAY_NANOS as int;
    let q = a / d;
    let r = a % d;
    vstd::arithmetic::div_mod::lemma_fundamental_div_mod(a, d);
    let m = r / 60_000_000_000;
    let s = r % 60_000_000_000;
    vstd::arithmetic::div_mod::lemma_fundamental_div_mod(r, 60_000_000_000);
    let b = a + minutes * 60_000_000_000;
    let k = m + minutes;
    vstd::arithmetic::div_mod::lemma_fundamental_div_mod(k, 1440);
    let (kq, kr) = (k / 1440, k % 1440);
    assert(d == 1440 * 60_000_000_000);
    assert(b == (q + kq) * d + (kr * 60_000_000_000 + s)) by (nonlinear_arith)
        requires
            b == a + minutes * 60_000_000_000,
            a == d * q + r,
            r == 60_000_000_000 * m + s,
            m + minutes == 1440 * kq + kr,
            d == 1440 * 60_000_000_000,
    ;
    assert(0 <= kr * 60_000_000_000 + s < d);
    vstd::arithmetic::div_mod::lemma_fundamental_div_mod_converse(
        b,
        d,
        q + kq,
        kr * 60_000_000_000 + s,
    );
    vstd::arithmetic::div_mod::lemma_fundamental_div_mod_converse(
        kr * 60_000_000_000 + s,
        60_000_000_000,
        kr,
        s,
    );
}

// ---------------------------------------------------------------------------
// Fire time
// ---------------------------------------------------------------------------

/// The authority that a device has now. `found` is its live row: the user and
/// the scopes of its class. A device that was revoked is absent, and a store
/// that failed is no authority either.
pub fn scopes_of(found: Option<Option<(String, Vec<String>)>>, valid: &Vec<bool>) -> (r: Option<
    (String, Vec<String>),
>)
    requires
        found matches Some(Some((user, scopes))) ==> valid@.len() == scopes@.len(),
    ensures
        match found {
            Some(Some((user, scopes))) => r matches Some((u, granted)) && u == user && text::views(
                granted@,
            ) == appbridge::well_formed_scopes(text::views(scopes@), valid@),
            _ => r is None,
        },
{
    match found {
        Some(Some((user, scopes))) => {
            let granted = appbridge::keep_well_formed(&scopes, valid);
            Some((user, granted))
        },
        _ => None,
    }
}

/// What an authorized proposal runs: the registered tool, as for any other
/// call, or what is wrong.
pub fn execute<T>(registered: Option<T>) -> (r: Result<T, String>)
    ensures
        match registered {
            Some(v) => r == Ok::<T, String>(v),
            None => r matches Err(why) && why@ == "tool is not registered"@,
        },
{
    match registered {
        Some(v) => Ok(v),
        None => Err("tool is not registered".to_owned()),
    }
}

/// A minute lasts a minute: whatever is left of it, the minute of the day is the
/// number of whole ones since local midnight.
pub proof fn law_a_minute_lasts_a_minute(t: Timestamp, offset_secs: i32, minutes: int, left: int)
    requires
        t.nanos + offset_secs * 1_000_000_000 == minutes * 60_000_000_000 + left,
        0 <= left < 60_000_000_000,
    ensures
        minute_of_day(t, offset_secs) == minutes % 1440,
{
    let days = minutes / 1440;
    let minute = minutes % 1440;
    let local = t.nanos + offset_secs * 1_000_000_000;
    assert(minutes == 1440 * days + minute);
    assert(local == days * 86_400_000_000_000 + (minute * 60_000_000_000 + left));
    assert(local % 86_400_000_000_000 == minute * 60_000_000_000 + left) by (nonlinear_arith)
        requires
            local == days * 86_400_000_000_000 + (minute * 60_000_000_000 + left),
            0 <= minute < 1440,
            0 <= left < 60_000_000_000,
    ;
}

/// A trigger is sound exactly where its minute is one of the day's, or where
/// both the entity and the state are named.
pub proof fn law_triggers_are_sound(dto: TriggerDto)
    ensures
        trigger_fault(dto) is None <==> match dto {
            TriggerDto::DailyAt { minutes_since_midnight } => minutes_since_midnight < 24 * 60,
            TriggerDto::HomeAssistantState { entity_id, state } => text::trimmed(entity_id@).len()
                > 0 && text::trimmed(state@).len() > 0,
        },
        trigger_fault(dto) matches Some(fault) ==> (fault is MinuteOutOfRange <==> dto is DailyAt),
{
}

/// An automation is made exactly from a name, a trigger and a tool that will do;
/// whatever will not is the caller's fault.
pub proof fn law_an_automation_wants_its_parts(request: CreateAutomationRequest)
    ensures
        create_refusal(request) is None <==> request.name is Ok && trigger_fault(
            request.trigger,
        ) is None && request.tool_id is Some,
        create_refusal(request) matches Some(p) ==> p.status == 400,
        request.name matches Err(why) ==> (create_refusal(request) matches Some(p) && text::stripped(
            p.title,
            "name: "@,
        ) == Some(why@)),
{
    if let Err(why) = request.name {
        text::law_a_prefix_is_taken_off(seq![], "name: "@, why@);
    }
}

/// An automation is what was asked for: its name, its trigger, its tool and its
/// arguments are the request's, it is switched on, and it has not fired.
pub proof fn law_an_automation_is_what_was_asked_for(
    a: Automation,
    request: CreateAutomationRequest,
    device: DeviceContext,
    now: Timestamp,
)
    requires
        made_from(a, request, device, now),
    ensures
        request.name == Ok::<String, String>(a.name),
        request.tool_id == Some(a.tool_id),
        a.trigger matches Trigger::DailyAt { minutes_since_midnight: m } ==> request.trigger == (
        TriggerDto::DailyAt { minutes_since_midnight: m }),
        a.trigger matches Trigger::HomeAssistantState { entity_id, state } ==> (
        request.trigger matches TriggerDto::HomeAssistantState { entity_id: e, state: s } && e@
            == entity_id@ && s@ == state@),
        canonical::canon_meaning(a.arguments) == canonical::json_meaning(request.arguments),
        a.enabled,
        a.created_by@ == device.device_id@,
        a.created_at == now,
        a.last_fired_at is None,
{
}

/// A shown automation is the stored one, and a shown execution says how it ended
/// and why; one that went through needs no reason.
pub proof fn law_automations_are_shown_as_they_are(
    dto: AutomationDto,
    a: Automation,
    shown: AutomationExecutionDto,
    e: AutomationExecution,
)
    requires
        shows(dto, a),
        shows_execution(shown, e),
    ensures
        dto.id@ == a.id@ && dto.name@ == a.name@ && dto.tool_id@ == a.tool_id@,
        dto.enabled == a.enabled,
        dto.created_by_device_id@ == a.created_by@,
        dto.created_at@ == time::rfc3339_of(a.created_at),
        dto.last_fired_at is Some <==> a.last_fired_at is Some,
        a.last_fired_at matches Some(at) ==> dto.last_fired_at->0@ == time::rfc3339_of(at),
        canonical::json_meaning(dto.arguments) == canonical::shown_meaning(a.arguments),
        shown.occurred_at@ == time::rfc3339_of(e.occurred_at),
        shown.outcome@ == e.label@,
        shown.detail is None <==> e.outcome is Executed,
        e.outcome matches ExecutionOutcome::NeedsApproval { exact_effect } ==> shown.detail->0@
            == exact_effect@,
        e.outcome matches ExecutionOutcome::Denied { reason } ==> shown.detail->0@ == reason@,
        e.outcome matches ExecutionOutcome::Failed { reason } ==> shown.detail->0@ == reason@,
{
}

/// The record of a new automation says which device made it, when, what sets it
/// off and what it runs.
pub proof fn law_new_automations_are_recorded(
    device_id: Seq<char>,
    id: Seq<char>,
    trigger_kind: Seq<char>,
    tool_id: Seq<char>,
    now: Timestamp,
)
    ensures
        ({
            let r = created_event(device_id, id, trigger_kind, tool_id, now);
            &&& r.occurred_at == now
            &&& r.event_type == "automation.created"@
            &&& text::stripped(r.actor, "device:"@) == Some(device_id)
            &&& text::stripped(r.target, "automation:"@) == Some(id)
            &&& r.payload.len() == 2
            &&& r.payload[0] == ("triggerKind"@, audit::ValueView::Text(trigger_kind))
            &&& r.payload[1] == ("toolId"@, audit::ValueView::Text(tool_id))
        }),
{
    text::law_a_prefix_is_taken_off(seq![], "device:"@, device_id);
    text::law_a_prefix_is_taken_off(seq![], "automation:"@, id);
}

/// A change is done exactly where the id is one and the store took it.
pub proof fn law_a_change_is_done_where_it_was_stored(id: Seq<char>, stored: bool)
    ensures
        change_of(id, stored) is Ok <==> ids::is_ulid(id) && stored,
        change_of(id, stored) matches Ok(status) ==> status == 204,
        change_of(id, stored) matches Err(p) ==> p.status == (if ids::is_ulid(id) {
            503u16
        } else {
            404u16
        }),
{
}

/// What a new automation is answered with.
pub open spec fn answers_making(
    r: Result<(u16, AutomationDto), ProblemDetails>,
    automation: Automation,
    stored: bool,
) -> bool {
    if stored {
        r matches Ok((status, dto)) && status == 201 && shows(dto, automation)
    } else {
        r matches Err(p) && p@ == storage_problem_view()
    }
}

/// What a look at an automation's past is answered with.
pub open spec fn answers_history(
    id: Seq<char>,
    stored: Option<Vec<AutomationExecution>>,
    r: Result<Vec<AutomationExecutionDto>, ProblemDetails>,
) -> bool {
    if !ids::is_ulid(id) {
        r matches Err(p) && p@ == not_found_view()
    } else {
        match stored {
            None => r matches Err(p) && p@ == storage_problem_view(),
            Some(all) => r matches Ok(shown) && shown@.len() == all@.len() && forall|i: int|
                0 <= i < all@.len() ==> shows_execution(#[trigger] shown@[i], all@[i]),
        }
    }
}

/// What a look at the automations is answered with.
pub open spec fn answers_index(
    stored: Option<Vec<Automation>>,
    r: Result<Vec<AutomationDto>, ProblemDetails>,
) -> bool {
    match stored {
        None => r matches Err(p) && p@ == storage_problem_view(),
        Some(all) => r matches Ok(shown) && shown@.len() == all@.len() && forall|i: int|
            0 <= i < all@.len() ==> shows(#[trigger] shown@[i], all@[i]),
    }
}

/// Automations and what became of them are listed as they are stored, all of
/// them and in their order; a new one is there exactly where it was stored.
pub proof fn law_automations_are_listed_in_their_order(
    automation: Automation,
    stored: bool,
    made: Result<(u16, AutomationDto), ProblemDetails>,
    all: Option<Vec<Automation>>,
    listed: Result<Vec<AutomationDto>, ProblemDetails>,
    id: Seq<char>,
    past: Option<Vec<AutomationExecution>>,
    told: Result<Vec<AutomationExecutionDto>, ProblemDetails>,
    i: int,
)
    requires
        answers_making(made, automation, stored),
        answers_index(all, listed),
        answers_history(id, past, told),
    ensures
        made is Ok <==> stored,
        made matches Ok((status, dto)) ==> status == 201 && dto.id@ == automation.id@,
        listed is Ok <==> all is Some,
        listed matches Ok(shown) ==> shown@.len() == all->0@.len() && (0 <= i < shown@.len()
            ==> shown@[i].id@ == all->0@[i].id@ && shown@[i].enabled == all->0@[i].enabled),
        told is Ok <==> ids::is_ulid(id) && past is Some,
        told matches Ok(shown) ==> shown@.len() == past->0@.len() && (0 <= i < shown@.len()
            ==> shown@[i].outcome@ == past->0@[i].label@ && shown@[i].occurred_at@
            == time::rfc3339_of(past->0@[i].occurred_at)),
{
    if listed is Ok {
        let shown = listed->Ok_0;
        if 0 <= i < shown@.len() {
            assert(shows(shown@[i], all->0@[i]));
        }
    }
    if told is Ok {
        let shown = told->Ok_0;
        if 0 <= i < shown@.len() {
            assert(shows_execution(shown@[i], past->0@[i]));
        }
    }
}

/// The codes that a client of the automations branches on.
pub proof fn law_automation_problems_have_their_codes()
    ensures
        not_found_view().status == 404 && not_found_view().code is ResourceNotFound,
        storage_problem_view().status == 503 && storage_problem_view().code is ProviderUnavailable,
{
}

} // verus!
