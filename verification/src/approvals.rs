//! Approvals: what a run is parked on until a human decides.
//!
//! A decision only unblocks the run, which then binds exactly what was approved:
//! the edited arguments where there are any, otherwise the proposal. A decision
//! is recorded before the run is unparked, and where it could not be recorded
//! the run stays parked.

use vstd::prelude::*;

use crate::audit;
use crate::audit::{AuditEvent, AuditValue};
use crate::canonical;
use crate::canonical::{CanonicalValue, JsonValue};
use crate::ids;
use crate::policy_view::{DataEgress, RiskLevel};
use crate::text;
use crate::text_map::TextMap;
use crate::time::Timestamp;

verus! {

/// A request for approval: the exact effect and the real arguments.
#[derive(Debug)]
pub struct ApprovalRequest {
    pub run_id: String,
    pub tool_id: String,
    pub exact_effect: String,
    pub proposed_arguments: CanonicalValue,
    pub risk: RiskLevel,
    pub reversible: bool,
    pub egress: DataEgress,
}

/// A parked approval. It holds the arguments as they were proposed, so that an
/// approval without edits binds exactly those.
#[derive(Debug)]
pub struct Pending {
    pub run_id: String,
    pub tool_id: String,
    pub proposed_arguments: CanonicalValue,
}

/// What the human is shown.
#[derive(Debug)]
pub struct ApprovalCardDto {
    pub approval_id: String,
    pub run_id: String,
    pub tool_id: String,
    pub exact_effect: String,
    pub proposed_arguments: JsonValue,
    pub risk: RiskLevel,
    pub reversible: bool,
    pub egress: DataEgress,
}

#[derive(Debug, Clone, Copy, PartialEq, Eq, Structural)]
pub enum ApprovalDecision {
    Approve,
    Deny,
}

/// A decision, with edited arguments where the human changed them.
#[derive(Debug)]
pub struct ApprovalDecisionDto {
    pub decision: ApprovalDecision,
    pub edited_arguments: Option<JsonValue>,
}

#[derive(Debug, Clone, Copy, PartialEq, Eq, Structural)]
pub enum ApprovalResolutionDto {
    Approved,
    Denied,
}

/// What a parked run is told.
#[derive(Debug)]
pub enum ApprovalOutcome {
    Approved { arguments: CanonicalValue },
    Denied,
}

/// Why a decision could not be applied.
#[derive(Debug, Clone, Copy, PartialEq, Eq, Structural)]
pub enum ResolveError {
    /// No pending approval of that run has that identifier.
    NotFound,
    /// The decision could not be recorded; the run stays parked.
    Persist,
}

/// The record of a request: the tool alone, and neither the effect nor the
/// arguments.
pub open spec fn requested_event(approval_id: Seq<char>, run_id: Seq<char>, tool_id: Seq<char>, now: Timestamp) -> audit::AuditView {
    audit::AuditView {
        occurred_at: now,
        actor: "system"@,
        event_type: "approval.requested"@,
        target: "approval:"@ + approval_id,
        correlation_id: Some(run_id),
        payload: seq![("toolId"@, audit::ValueView::Text(tool_id))],
    }
}

pub open spec fn resolution_name(resolution: ApprovalResolutionDto) -> Seq<char> {
    match resolution {
        ApprovalResolutionDto::Approved => "approved"@,
        ApprovalResolutionDto::Denied => "denied"@,
    }
}

/// The record of a decision: who decided, about which tool, and how.
pub open spec fn resolved_event(
    approval_id: Seq<char>,
    run_id: Seq<char>,
    tool_id: Seq<char>,
    resolution: ApprovalResolutionDto,
    actor: Seq<char>,
    now: Timestamp,
) -> audit::AuditView {
    audit::AuditView {
        occurred_at: now,
        actor,
        event_type: "approval.resolved"@,
        target: "approval:"@ + approval_id,
        correlation_id: Some(run_id),
        payload: seq![
            ("toolId"@, audit::ValueView::Text(tool_id)),
            ("outcome"@, audit::ValueView::Text(resolution_name(resolution))),
        ],
    }
}

fn requested_audit(request: &ApprovalRequest, approval_id: &str, now: Timestamp) -> (e: AuditEvent)
    ensures
        e@ == requested_event(approval_id@, request.run_id@, request.tool_id@, now),
{
    let e = AuditEvent {
        occurred_at: now,
        actor: "system".to_owned(),
        event_type: "approval.requested".to_owned(),
        target: text::concat2("approval:", approval_id),
        correlation_id: Some(request.run_id.clone()),
        payload: audit::with_field(
            audit::no_fields(),
            "toolId",
            AuditValue::Text(request.tool_id.clone()),
        ),
    };
    assert(e@ =~= requested_event(approval_id@, request.run_id@, request.tool_id@, now));
    e
}

fn resolved_audit(
    run_id: &str,
    approval_id: &str,
    tool_id: &str,
    resolution: ApprovalResolutionDto,
    actor: &str,
    now: Timestamp,
) -> (e: AuditEvent)
    ensures
        e@ == resolved_event(approval_id@, run_id@, tool_id@, resolution, actor@, now),
{
    let outcome = match resolution {
        ApprovalResolutionDto::Approved => "approved",
        ApprovalResolutionDto::Denied => "denied",
    };
    let e = AuditEvent {
        occurred_at: now,
        actor: actor.to_owned(),
        event_type: "approval.resolved".to_owned(),
        target: text::concat2("approval:", approval_id),
        correlation_id: Some(run_id.to_owned()),
        payload: audit::with_field(
            audit::with_field(
                audit::no_fields(),
                "toolId",
                AuditValue::Text(tool_id.to_owned()),
            ),
            "outcome",
            AuditValue::Text(outcome.to_owned()),
        ),
    };
    assert(e@ =~= resolved_event(approval_id@, run_id@, tool_id@, resolution, actor@, now));
    e
}

/// A decision that is about to be recorded.
#[derive(Debug)]
pub struct Resolution {
    pub approval_id: String,
    pub pending: Pending,
    pub resolution: ApprovalResolutionDto,
    pub outcome: ApprovalOutcome,
    pub audit: AuditEvent,
}

/// What a decision binds: the edited arguments, or the proposal.
pub open spec fn binds(outcome: ApprovalOutcome, decision: ApprovalDecisionDto, proposed: CanonicalValue) -> bool {
    match decision.decision {
        ApprovalDecision::Deny => outcome is Denied,
        ApprovalDecision::Approve => outcome matches ApprovalOutcome::Approved { arguments }
            && canonical::is_canonical(arguments) && canonical::canon_meaning(arguments) == (
        match decision.edited_arguments {
            Some(edited) => canonical::json_meaning(edited),
            None => canonical::canon_meaning(proposed),
        }),
    }
}

pub open spec fn resolution_of(decision: ApprovalDecision) -> ApprovalResolutionDto {
    match decision {
        ApprovalDecision::Approve => ApprovalResolutionDto::Approved,
        ApprovalDecision::Deny => ApprovalResolutionDto::Denied,
    }
}

/// Whether a decision finds what it is for: an approval with that identifier, of
/// that run.
pub open spec fn finds(pending: Map<Seq<char>, Pending>, run_id: Seq<char>, id: Seq<char>) -> bool {
    pending.dom().contains(id) && pending[id].run_id@ == run_id
}

/// What a gate holds: the approvals that wait for a decision, and those whose
/// decision was taken up and is not over yet.
pub struct GateView {
    pub pending: Map<Seq<char>, Pending>,
    pub deciding: Set<Seq<char>>,
}

/// What is held once a decision was taken up: one that finds nothing changes
/// nothing.
pub open spec fn taken_up(gate: GateView, run_id: Seq<char>, id: Seq<char>) -> GateView {
    if finds(gate.pending, run_id, id) {
        GateView { pending: gate.pending.remove(id), deciding: gate.deciding.insert(id) }
    } else {
        gate
    }
}

/// What is held once an approval is dropped: nothing of it, though its decision
/// may be on the way.
pub open spec fn dropped(gate: GateView, id: Seq<char>) -> GateView {
    GateView { pending: gate.pending.remove(id), deciding: gate.deciding.remove(id) }
}

/// What is held once a decision that was taken up is over. An approval whose
/// decision is not on record is pending again, unless it was dropped meanwhile.
pub open spec fn concluded(gate: GateView, id: Seq<char>, approval: Pending, recorded: bool) -> GateView {
    GateView {
        pending: if !recorded && gate.deciding.contains(id) {
            gate.pending.insert(id, approval)
        } else {
            gate.pending
        },
        deciding: gate.deciding.remove(id),
    }
}

/// What runs are parked at: the pending approvals of this process.
pub struct JarvisApprovalGate {
    pending: TextMap<Pending>,
    deciding: TextMap<()>,
}

impl View for JarvisApprovalGate {
    type V = GateView;

    closed spec fn view(&self) -> GateView {
        GateView { pending: self.pending@, deciding: self.deciding@.dom() }
    }
}

impl JarvisApprovalGate {
    pub fn new() -> (s: Self)
        ensures
            s@.pending == Map::<Seq<char>, Pending>::empty(),
            s@.deciding == Set::<Seq<char>>::empty(),
    {
        let s = JarvisApprovalGate { pending: TextMap::new(), deciding: TextMap::new() };
        assert(s@.deciding =~= Set::<Seq<char>>::empty());
        s
    }

    /// Park a request under an identifier. It is pending before the card goes
    /// out, so whoever acts on the card finds it.
    pub fn request_as(&mut self, id: &str, request: ApprovalRequest, now: Timestamp) -> (r: (
        ApprovalCardDto,
        AuditEvent,
    ))
        ensures
            final(self)@ == requested(old(self)@, id@, request),
            asks_for(r.0, id@, request),
            final(self)@.deciding == old(self)@.deciding,
            final(self)@.pending == old(self)@.pending.insert(
                id@,
                (Pending {
                    run_id: request.run_id,
                    tool_id: request.tool_id,
                    proposed_arguments: request.proposed_arguments,
                }),
            ),
            r.0.approval_id@ == id@,
            r.0.run_id@ == request.run_id@,
            r.0.tool_id@ == request.tool_id@,
            r.0.exact_effect == request.exact_effect,
            canonical::json_meaning(r.0.proposed_arguments) == canonical::shown_meaning(
                request.proposed_arguments,
            ),
            r.0.risk == request.risk,
            r.0.reversible == request.reversible,
            r.0.egress == request.egress,
            r.1@ == requested_event(id@, request.run_id@, request.tool_id@, now),
    {
        let audit = requested_audit(&request, id, now);
        let card = ApprovalCardDto {
            approval_id: id.to_owned(),
            run_id: request.run_id.clone(),
            tool_id: request.tool_id.clone(),
            exact_effect: request.exact_effect,
            proposed_arguments: canonical::canonical_to_json(&request.proposed_arguments),
            risk: request.risk,
            reversible: request.reversible,
            egress: request.egress,
        };
        self.pending.insert(
            id.to_owned(),
            Pending {
                run_id: request.run_id,
                tool_id: request.tool_id,
                proposed_arguments: request.proposed_arguments,
            },
        );
        (card, audit)
    }

    /// Park a request under a fresh identifier.
    pub fn request(&mut self, request: ApprovalRequest, now: Timestamp) -> (r: (
        ApprovalCardDto,
        AuditEvent,
    ))
        ensures
            ids::is_ulid(r.0.approval_id@),
            final(self)@.deciding == old(self)@.deciding,
            final(self)@.pending == old(self)@.pending.insert(
                r.0.approval_id@,
                (Pending {
                    run_id: request.run_id,
                    tool_id: request.tool_id,
                    proposed_arguments: request.proposed_arguments,
                }),
            ),
            r.0.run_id@ == request.run_id@,
            r.0.tool_id@ == request.tool_id@,
            r.0.exact_effect == request.exact_effect,
            canonical::json_meaning(r.0.proposed_arguments) == canonical::shown_meaning(
                request.proposed_arguments,
            ),
            r.0.risk == request.risk,
            r.0.reversible == request.reversible,
            r.0.egress == request.egress,
            r.1@ == requested_event(r.0.approval_id@, request.run_id@, request.tool_id@, now),
    {
        let id = ids::fresh_id();
        self.request_as(id.as_str(), request, now)
    }

    /// Drop a parked approval: its request could not be recorded, or its run was
    /// cancelled. Nothing is authorized, and no decision finds it again.
    pub fn drop_request(&mut self, id: &str)
        ensures
            final(self)@ == dropped(old(self)@, id@),
    {
        let _dropped = self.pending.remove(id);
        let _undecided = self.deciding.remove(id);
        assert(self@.deciding =~= old(self)@.deciding.remove(id@));
    }

    /// Take up a decision. One for the wrong run is not found, and changes
    /// nothing.
    pub fn resolve(
        &mut self,
        run_id: &str,
        approval_id: &str,
        decision: &ApprovalDecisionDto,
        actor: &str,
        now: Timestamp,
    ) -> (r: Result<Resolution, ResolveError>)
        ensures
            final(self)@ == taken_up(old(self)@, run_id@, approval_id@),
            match r {
                Ok(x) => finds(old(self)@.pending, run_id@, approval_id@) && x.approval_id@ == approval_id@
                    && x.pending == old(self)@.pending[approval_id@] && binds(
                    x.outcome,
                    *decision,
                    old(self)@.pending[approval_id@].proposed_arguments,
                ) && x.resolution == resolution_of(decision.decision) && x.audit@
                    == resolved_event(
                    approval_id@,
                    run_id@,
                    old(self)@.pending[approval_id@].tool_id@,
                    x.resolution,
                    actor@,
                    now,
                ),
                Err(e) => !finds(old(self)@.pending, run_id@, approval_id@) && e == ResolveError::NotFound,
            },
    {
        let theirs = match self.pending.get(approval_id) {
            Some(p) => text::same(p.run_id.as_str(), run_id),
            None => false,
        };
        if !theirs {
            return Err(ResolveError::NotFound);
        }
        let pending = match self.pending.remove(approval_id) {
            Some(p) => p,
            None => {
                return Err(ResolveError::NotFound);
            },
        };
        let (outcome, resolution) = match decision.decision {
            ApprovalDecision::Approve => {
                let arguments = match &decision.edited_arguments {
                    Some(edited) => canonical::json_to_canonical(edited),
                    None => canonical::copy_canonical(&pending.proposed_arguments),
                };
                (ApprovalOutcome::Approved { arguments }, ApprovalResolutionDto::Approved)
            },
            ApprovalDecision::Deny => (ApprovalOutcome::Denied, ApprovalResolutionDto::Denied),
        };
        let audit = resolved_audit(
            run_id,
            approval_id,
            pending.tool_id.as_str(),
            resolution,
            actor,
            now,
        );
        self.deciding.insert(approval_id.to_owned(), ());
        assert(self@.deciding =~= old(self)@.deciding.insert(approval_id@));
        Ok(
            Resolution {
                approval_id: approval_id.to_owned(),
                pending,
                resolution,
                outcome,
                audit,
            },
        )
    }

    /// Unpark the run once its decision is recorded. Where it could not be, the
    /// approval is pending again and the client may retry, unless its run has
    /// gone meanwhile.
    pub fn conclude(&mut self, resolution: Resolution, recorded: bool) -> (r: Result<
        ApprovalOutcome,
        ResolveError,
    >)
        ensures
            r == released(resolution.outcome, recorded),
            final(self)@ == concluded(
                old(self)@,
                resolution.approval_id@,
                resolution.pending,
                recorded,
            ),
            r == (if recorded {
                Ok::<ApprovalOutcome, ResolveError>(resolution.outcome)
            } else {
                Err::<ApprovalOutcome, ResolveError>(ResolveError::Persist)
            }),
    {
        let held = self.deciding.remove(resolution.approval_id.as_str()).is_some();
        assert(self@.deciding =~= old(self)@.deciding.remove(resolution.approval_id@));
        if recorded {
            return Ok(resolution.outcome);
        }
        if held {
            self.pending.insert(resolution.approval_id, resolution.pending);
        }
        Err(ResolveError::Persist)
    }
}

/// An approval is decided at most once: what was taken up and recorded is not
/// found again, whichever run asks.
pub proof fn law_a_decision_is_taken_once(
    gate: GateView,
    run_id: Seq<char>,
    id: Seq<char>,
    later_run: Seq<char>,
)
    requires
        finds(gate.pending, run_id, id),
    ensures
        !finds(taken_up(gate, run_id, id).pending, later_run, id),
        !finds(
            concluded(taken_up(gate, run_id, id), id, gate.pending[id], true).pending,
            later_run,
            id,
        ),
{
}

/// A decision that could not be recorded leaves every approval as it was, so it
/// can be made again.
pub proof fn law_an_unrecorded_decision_can_be_retried(
    gate: GateView,
    run_id: Seq<char>,
    id: Seq<char>,
)
    requires
        finds(gate.pending, run_id, id),
    ensures
        concluded(taken_up(gate, run_id, id), id, gate.pending[id], false).pending == gate.pending,
{
    assert(concluded(taken_up(gate, run_id, id), id, gate.pending[id], false).pending
        =~= gate.pending);
}

/// An approval that goes with its run stays gone: a decision that was on its way
/// does not bring it back, recorded or not.
pub proof fn law_a_dropped_approval_stays_dropped(
    gate: GateView,
    run_id: Seq<char>,
    id: Seq<char>,
    approval: Pending,
    recorded: bool,
    later_run: Seq<char>,
)
    ensures
        !finds(
            concluded(
                dropped(taken_up(gate, run_id, id), id),
                id,
                approval,
                recorded,
            ).pending,
            later_run,
            id,
        ),
{
}

/// A decision for one run never reaches an approval of another, and changes
/// nothing.
pub proof fn law_no_decision_crosses_runs(
    gate: GateView,
    run_id: Seq<char>,
    other_run: Seq<char>,
    id: Seq<char>,
)
    requires
        finds(gate.pending, run_id, id),
        other_run != run_id,
    ensures
        !finds(gate.pending, other_run, id),
        taken_up(gate, other_run, id) == gate,
{
}

/// The members of an event that its payload keeps.
pub open spec fn outboxed(event: Map<Seq<char>, canonical::Meaning>) -> Map<
    Seq<char>,
    canonical::Meaning,
> {
    event.remove("type"@)
}

/// Serialized events carry their type in the envelope: the payload is the event
/// without its discriminator.
pub fn domain_event_outbox(event: JsonValue) -> (payload: JsonValue)
    requires
        event is Object,
    ensures
        payload is Object,
        canonical::members_of(payload) == outboxed(canonical::members_of(event)),
{
    canonical::without_member(event, "type")
}

/// What an approval binds: the arguments as the owner edited them where they
/// did, those that were proposed where they did not, and nothing at all where
/// they refused.
pub proof fn law_an_approval_binds_what_was_approved(
    outcome: ApprovalOutcome,
    decision: ApprovalDecisionDto,
    proposed: CanonicalValue,
)
    requires
        binds(outcome, decision, proposed),
    ensures
        outcome is Denied <==> decision.decision is Deny,
        outcome matches ApprovalOutcome::Approved { arguments } ==> {
            &&& decision.decision is Approve
            &&& canonical::is_canonical(arguments)
            &&& decision.edited_arguments matches Some(edited) ==> canonical::canon_meaning(arguments)
                == canonical::json_meaning(edited)
            &&& decision.edited_arguments is None ==> canonical::canon_meaning(arguments)
                == canonical::canon_meaning(proposed)
        },
        resolution_of(decision.decision) is Approved <==> outcome is Approved,
{
}

/// A decision takes up its own approval and leaves the others waiting.
pub proof fn law_other_approvals_keep_waiting(
    gate: GateView,
    run_id: Seq<char>,
    id: Seq<char>,
    other: Seq<char>,
    other_run: Seq<char>,
    approval: Pending,
    recorded: bool,
)
    requires
        other != id,
    ensures
        finds(taken_up(gate, run_id, id).pending, other_run, other) <==> finds(
            gate.pending,
            other_run,
            other,
        ),
        finds(dropped(gate, id).pending, other_run, other) <==> finds(gate.pending, other_run, other),
        finds(concluded(gate, id, approval, recorded).pending, other_run, other) <==> finds(
            gate.pending,
            other_run,
            other,
        ),
        finds(gate.pending, other_run, other) <==> gate.pending.dom().contains(other)
            && gate.pending[other].run_id@ == other_run,
{
}

/// The records of a request and of its resolution name the approval, the run it
/// belongs to and the tool; the second says who decided, and which way.
pub proof fn law_approvals_are_recorded(
    approval_id: Seq<char>,
    run_id: Seq<char>,
    tool_id: Seq<char>,
    resolution: ApprovalResolutionDto,
    actor: Seq<char>,
    now: Timestamp,
)
    ensures
        ({
            let asked = requested_event(approval_id, run_id, tool_id, now);
            let answered = resolved_event(approval_id, run_id, tool_id, resolution, actor, now);
            &&& asked.occurred_at == now && answered.occurred_at == now
            &&& asked.actor == "system"@ && answered.actor == actor
            &&& asked.event_type == "approval.requested"@
            &&& answered.event_type == "approval.resolved"@
            &&& text::stripped(asked.target, "approval:"@) == Some(approval_id)
            &&& asked.target == answered.target
            &&& asked.correlation_id == Some(run_id) && answered.correlation_id == Some(run_id)
            &&& asked.payload.len() == 1 && answered.payload.len() == 2
            &&& asked.payload[0] == ("toolId"@, audit::ValueView::Text(tool_id))
            &&& answered.payload[0] == asked.payload[0]
            &&& answered.payload[1] == (
                "outcome"@,
                audit::ValueView::Text(
                    if resolution is Approved {
                        "approved"@
                    } else {
                        "denied"@
                    },
                ),
            )
        }),
{
    text::law_a_prefix_is_taken_off(seq![], "approval:"@, approval_id);
}

/// An event on its way out carries everything it did but its type.
pub proof fn law_the_outbox_drops_only_the_type(
    event: Map<Seq<char>, canonical::Meaning>,
    key: Seq<char>,
)
    ensures
        !outboxed(event).dom().contains("type"@),
        key != "type"@ ==> (outboxed(event).dom().contains(key) <==> event.dom().contains(key)),
        key != "type"@ && event.dom().contains(key) ==> outboxed(event)[key] == event[key],
{
}

/// The approvals that wait, with one request more.
pub open spec fn requested(gate: GateView, id: Seq<char>, request: ApprovalRequest) -> GateView {
    GateView {
        pending: gate.pending.insert(
            id,
            (Pending {
                run_id: request.run_id,
                tool_id: request.tool_id,
                proposed_arguments: request.proposed_arguments,
            }),
        ),
        deciding: gate.deciding,
    }
}

/// A card that asks for what a request asks for.
pub open spec fn asks_for(card: ApprovalCardDto, id: Seq<char>, request: ApprovalRequest) -> bool {
    &&& card.approval_id@ == id
    &&& card.run_id@ == request.run_id@
    &&& card.tool_id@ == request.tool_id@
    &&& card.exact_effect == request.exact_effect
    &&& canonical::json_meaning(card.proposed_arguments) == canonical::shown_meaning(
        request.proposed_arguments,
    )
    &&& card.risk == request.risk
    &&& card.reversible == request.reversible
    &&& card.egress == request.egress
}

/// What a run is told of a decision.
pub open spec fn released(outcome: ApprovalOutcome, recorded: bool) -> Result<
    ApprovalOutcome,
    ResolveError,
> {
    if recorded {
        Ok(outcome)
    } else {
        Err(ResolveError::Persist)
    }
}

/// A request waits for its own run until it is decided: the decision finds it,
/// finds it once, and finds what was proposed; no other run's does. A run is told
/// of a decision exactly where it is on record, so that nothing runs on a
/// decision that nobody could show.
pub proof fn law_a_request_waits_for_its_decision(
    gate: GateView,
    id: Seq<char>,
    request: ApprovalRequest,
    other_run: Seq<char>,
    outcome: ApprovalOutcome,
    recorded: bool,
)
    ensures
        finds(requested(gate, id, request).pending, request.run_id@, id),
        requested(gate, id, request).pending[id].proposed_arguments == request.proposed_arguments,
        requested(gate, id, request).pending[id].tool_id == request.tool_id,
        other_run != request.run_id@ ==> !finds(requested(gate, id, request).pending, other_run, id),
        !finds(
            taken_up(requested(gate, id, request), request.run_id@, id).pending,
            request.run_id@,
            id,
        ),
        released(outcome, recorded) is Ok <==> recorded,
        released(outcome, recorded) matches Ok(told) ==> told == outcome,
{
}

/// A card says what will happen: the tool, the exact effect, the arguments as
/// they are proposed, and what is at stake.
pub proof fn law_a_card_says_what_will_happen(
    card: ApprovalCardDto,
    id: Seq<char>,
    request: ApprovalRequest,
)
    requires
        asks_for(card, id, request),
    ensures
        card.approval_id@ == id && card.run_id@ == request.run_id@ && card.tool_id@
            == request.tool_id@,
        card.exact_effect == request.exact_effect,
        canonical::shown_as_held(request.proposed_arguments) ==> canonical::json_meaning(
            card.proposed_arguments,
        ) == canonical::canon_meaning(request.proposed_arguments),
        card.risk == request.risk && card.reversible == request.reversible && card.egress
            == request.egress,
{
    if canonical::shown_as_held(request.proposed_arguments) {
        canonical::law_what_is_shown_is_what_binds(request.proposed_arguments);
    }
}

} // verus!
