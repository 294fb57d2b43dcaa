//! What each tool may do, as the policy engine says it.
//!
//! The view reports decisions and derives none: what stands next to a tool is
//! what the engine answered for each class of device.

use vstd::prelude::*;

use crate::identity::DeviceClass;
use crate::text;

verus! {

#[derive(Debug, Clone, Copy, PartialEq, Eq, Structural)]
pub enum RiskLevel {
    R0,
    R1,
    R2,
    R3,
    R4,
}

/// Where a tool's data goes.
#[derive(Debug, Clone, Copy, PartialEq, Eq, Structural)]
pub enum DataEgress {
    NoEgress,
    Local,
    External,
}

#[derive(Debug, Clone, Copy, PartialEq, Eq, Structural)]
pub enum SpeechSensitivity {
    Normal,
    Sensitive,
}

/// The policy that a tool is registered with.
#[derive(Debug)]
pub struct ToolPolicy {
    pub risk: RiskLevel,
    pub is_reversible: bool,
    pub requires_user_presence: bool,
    pub egress: DataEgress,
    pub speech_sensitivity: SpeechSensitivity,
    pub required_scopes: Vec<String>,
}

#[derive(Debug)]
pub enum DenyReason {
    UnknownTool,
    Prohibited,
    MissingScope(String),
}

/// What the engine answered.
#[derive(Debug)]
pub enum PolicyDecision {
    Auto,
    NeedsApproval,
    Reject { reason: DenyReason },
}

/// The engine's answers on one tool, one for each class of device.
#[derive(Debug)]
pub struct EngineAnswers {
    pub owner_ui: PolicyDecision,
    pub display_node: PolicyDecision,
    pub voice_node: PolicyDecision,
    pub room_node: PolicyDecision,
}

impl EngineAnswers {
    /// What the engine answered for a class.
    pub open spec fn given_to(self, class: DeviceClass) -> PolicyDecision {
        match class {
            DeviceClass::OwnerUi => self.owner_ui,
            DeviceClass::DisplayNode => self.display_node,
            DeviceClass::VoiceNode => self.voice_node,
            DeviceClass::RoomNode => self.room_node,
        }
    }
}

/// A registered tool: its policy, where it has one, and what the engine answered.
#[derive(Debug)]
pub struct RegisteredTool {
    pub id: String,
    pub policy: Option<ToolPolicy>,
    pub answers: EngineAnswers,
}

#[derive(Debug)]
pub enum PolicyOutcomeDto {
    Auto,
    NeedsApproval,
    Denied { reason: String },
}

#[derive(Debug)]
pub struct ClassOutcomeDto {
    pub device_class: String,
    pub outcome: PolicyOutcomeDto,
}

#[derive(Debug)]
pub struct ToolPolicyDto {
    pub tool_id: String,
    pub risk: String,
    pub reversible: bool,
    pub requires_user_presence: bool,
    pub egress: String,
    pub speech_sensitivity: String,
    pub required_scopes: Vec<String>,
    pub outcomes: Vec<ClassOutcomeDto>,
}

pub open spec fn risk_named(risk: RiskLevel) -> &'static str {
    match risk {
        RiskLevel::R0 => "R0",
        RiskLevel::R1 => "R1",
        RiskLevel::R2 => "R2",
        RiskLevel::R3 => "R3",
        RiskLevel::R4 => "R4",
    }
}

pub fn risk_name(risk: RiskLevel) -> (s: &'static str)
    ensures
        s == risk_named(risk),
{
    match risk {
        RiskLevel::R0 => "R0",
        RiskLevel::R1 => "R1",
        RiskLevel::R2 => "R2",
        RiskLevel::R3 => "R3",
        RiskLevel::R4 => "R4",
    }
}

pub open spec fn egress_named(egress: DataEgress) -> &'static str {
    match egress {
        DataEgress::NoEgress => "none",
        DataEgress::Local => "local",
        DataEgress::External => "external",
    }
}

pub fn egress_name(egress: DataEgress) -> (s: &'static str)
    ensures
        s == egress_named(egress),
{
    match egress {
        DataEgress::NoEgress => "none",
        DataEgress::Local => "local",
        DataEgress::External => "external",
    }
}

pub open spec fn sensitivity_named(s: SpeechSensitivity) -> &'static str {
    match s {
        SpeechSensitivity::Normal => "normal",
        SpeechSensitivity::Sensitive => "sensitive",
    }
}

pub fn speech_sensitivity_name(sensitivity: SpeechSensitivity) -> (s: &'static str)
    ensures
        s == sensitivity_named(sensitivity),
{
    match sensitivity {
        SpeechSensitivity::Normal => "normal",
        SpeechSensitivity::Sensitive => "sensitive",
    }
}

pub open spec fn deny_reason_of(reason: DenyReason) -> Seq<char> {
    match reason {
        DenyReason::UnknownTool => "unknown_tool"@,
        DenyReason::Prohibited => "prohibited"@,
        DenyReason::MissingScope(scope) => "missing_scope:"@ + scope@,
    }
}

pub fn deny_reason(reason: &DenyReason) -> (s: String)
    ensures
        s@ == deny_reason_of(*reason),
{
    match reason {
        DenyReason::UnknownTool => "unknown_tool".to_owned(),
        DenyReason::Prohibited => "prohibited".to_owned(),
        DenyReason::MissingScope(scope) => text::concat2("missing_scope:", scope.as_str()),
    }
}

/// Whether an outcome says what the engine answered.
pub open spec fn reports(outcome: PolicyOutcomeDto, decision: PolicyDecision) -> bool {
    match decision {
        PolicyDecision::Auto => outcome is Auto,
        PolicyDecision::NeedsApproval => outcome is NeedsApproval,
        PolicyDecision::Reject { reason } => outcome matches PolicyOutcomeDto::Denied { reason: r }
            && r@ == deny_reason_of(reason),
    }
}

pub fn outcome_for(decision: &PolicyDecision) -> (outcome: PolicyOutcomeDto)
    ensures
        reports(outcome, *decision),
{
    match decision {
        PolicyDecision::Auto => PolicyOutcomeDto::Auto,
        PolicyDecision::NeedsApproval => PolicyOutcomeDto::NeedsApproval,
        PolicyDecision::Reject { reason } => PolicyOutcomeDto::Denied { reason: deny_reason(reason) },
    }
}

/// Every class of device, in the order in which the view reports them.
pub open spec fn every_class() -> Seq<DeviceClass> {
    seq![
        DeviceClass::OwnerUi,
        DeviceClass::DisplayNode,
        DeviceClass::VoiceNode,
        DeviceClass::RoomNode,
    ]
}

/// No class of device is left out of the view, and none stands in it twice.
pub proof fn law_every_class_is_reported_once(class: DeviceClass)
    ensures
        every_class().contains(class),
        every_class().no_duplicates(),
{
    match class {
        DeviceClass::OwnerUi => assert(every_class()[0] == class),
        DeviceClass::DisplayNode => assert(every_class()[1] == class),
        DeviceClass::VoiceNode => assert(every_class()[2] == class),
        DeviceClass::RoomNode => assert(every_class()[3] == class),
    }
}

/// Whether a row says what the engine answered for a class.
pub open spec fn reports_class(row: ClassOutcomeDto, class: DeviceClass, answer: PolicyDecision) -> bool {
    row.device_class@ == class.name()@ && reports(row.outcome, answer)
}

fn class_row(class: DeviceClass, answer: &PolicyDecision) -> (row: ClassOutcomeDto)
    ensures
        reports_class(row, class, *answer),
{
    ClassOutcomeDto { device_class: class.as_str().to_owned(), outcome: outcome_for(answer) }
}

/// Whether an entry of the view shows a tool with its policy.
pub open spec fn shows_tool(dto: ToolPolicyDto, id: Seq<char>, policy: ToolPolicy, answers: EngineAnswers) -> bool {
    &&& dto.tool_id@ == id
    &&& dto.risk@ == risk_named(policy.risk)@
    &&& dto.reversible == policy.is_reversible
    &&& dto.requires_user_presence == policy.requires_user_presence
    &&& dto.egress@ == egress_named(policy.egress)@
    &&& dto.speech_sensitivity@ == sensitivity_named(policy.speech_sensitivity)@
    &&& text::views(dto.required_scopes@) == text::views(policy.required_scopes@)
    &&& dto.outcomes@.len() == every_class().len()
    &&& forall|i: int|
        0 <= i < every_class().len() ==> reports_class(
            #[trigger] dto.outcomes@[i],
            every_class()[i],
            answers.given_to(every_class()[i]),
        )
}

fn tool_dto(id: &str, policy: &ToolPolicy, answers: &EngineAnswers) -> (dto: ToolPolicyDto)
    ensures
        shows_tool(dto, id@, *policy, *answers),
{
    let outcomes = vec![
        class_row(DeviceClass::OwnerUi, &answers.owner_ui),
        class_row(DeviceClass::DisplayNode, &answers.display_node),
        class_row(DeviceClass::VoiceNode, &answers.voice_node),
        class_row(DeviceClass::RoomNode, &answers.room_node),
    ];
    ToolPolicyDto {
        tool_id: id.to_owned(),
        risk: risk_name(policy.risk).to_owned(),
        reversible: policy.is_reversible,
        requires_user_presence: policy.requires_user_presence,
        egress: egress_name(policy.egress).to_owned(),
        speech_sensitivity: speech_sensitivity_name(policy.speech_sensitivity).to_owned(),
        required_scopes: text::copy_texts(&policy.required_scopes),
        outcomes,
    }
}

/// The tools that have a policy, in order.
pub open spec fn governed(tools: Seq<RegisteredTool>) -> Seq<RegisteredTool>
    decreases tools.len(),
{
    if tools.len() == 0 {
        seq![]
    } else {
        let before = governed(tools.drop_last());
        if tools.last().policy is Some {
            before.push(tools.last())
        } else {
            before
        }
    }
}

/// Whether an entry shows a registered tool.
pub open spec fn shows(dto: ToolPolicyDto, tool: RegisteredTool) -> bool {
    tool.policy matches Some(p) && shows_tool(dto, tool.id@, p, tool.answers)
}

/// Project the registered tools, each with the engine's answer for every class of
/// device. A tool without a policy is not shown.
pub fn project(tools: &Vec<RegisteredTool>) -> (view: Vec<ToolPolicyDto>)
    ensures
        view@.len() == governed(tools@).len(),
        forall|i: int|
            0 <= i < view@.len() ==> shows(#[trigger] view@[i], governed(tools@)[i]),
{
    let mut view: Vec<ToolPolicyDto> = Vec::new();
    let mut i: usize = 0;
    assert(tools@.take(0) =~= seq![]);
    while i < tools.len()
        invariant
            i <= tools@.len(),
            view@.len() == governed(tools@.take(i as int)).len(),
            forall|k: int|
                0 <= k < view@.len() ==> shows(
                    #[trigger] view@[k],
                    governed(tools@.take(i as int))[k],
                ),
        decreases tools@.len() - i,
    {
        assert(tools@.take(i + 1).drop_last() =~= tools@.take(i as int));
        if let Some(policy) = &tools[i].policy {
            view.push(tool_dto(tools[i].id.as_str(), policy, &tools[i].answers));
        }
        i = i + 1;
    }
    assert(tools@.take(tools@.len() as int) =~= tools@);
    view
}

/// A report of the policy is read in one way only: outcomes that read alike were
/// decided alike, down to the reason and the scope that is missing.
pub proof fn law_outcomes_are_told_apart(
    outcome: PolicyOutcomeDto,
    a: PolicyDecision,
    b: PolicyDecision,
)
    requires
        reports(outcome, a),
        reports(outcome, b),
    ensures
        a is Auto <==> b is Auto,
        a is NeedsApproval <==> b is NeedsApproval,
        a matches PolicyDecision::Reject { reason: x } ==> (b matches PolicyDecision::Reject {
            reason: y,
        } && {
            &&& x is UnknownTool <==> y is UnknownTool
            &&& x is Prohibited <==> y is Prohibited
            &&& x matches DenyReason::MissingScope(s) ==> (y matches DenyReason::MissingScope(t) && s@
                == t@)
        }),
        outcome is Auto <==> a is Auto,
        outcome is NeedsApproval <==> a is NeedsApproval,
{
    reveal_strlit("unknown_tool");
    reveal_strlit("prohibited");
    reveal_strlit("missing_scope:");
    assert("unknown_tool"@[0] == 'u');
    assert("prohibited"@[0] == 'p');
    assert("missing_scope:"@[0] == 'm');
    if let PolicyDecision::Reject { reason: x } = a {
        if let PolicyDecision::Reject { reason: y } = b {
            if let DenyReason::MissingScope(s) = x {
                assert(deny_reason_of(x)[0] == 'm');
                if let DenyReason::MissingScope(t) = y {
                    text::lemma_same_behind("missing_scope:"@, s@, t@);
                }
            }
            if let DenyReason::MissingScope(t) = y {
                assert(deny_reason_of(y)[0] == 'm');
            }
        }
    }
}

/// The levels, the kinds of egress and the sensitivities have names of their
/// own: the risk is `R` and its number.
pub proof fn law_policy_names_are_their_own(
    r: RiskLevel,
    q: RiskLevel,
    e: DataEgress,
    f: DataEgress,
    s: SpeechSensitivity,
    t: SpeechSensitivity,
)
    ensures
        risk_named(r)@ == seq![
            'R',
            match r {
                RiskLevel::R0 => '0',
                RiskLevel::R1 => '1',
                RiskLevel::R2 => '2',
                RiskLevel::R3 => '3',
                RiskLevel::R4 => '4',
            },
        ],
        risk_named(r)@ == risk_named(q)@ ==> r == q,
        egress_named(e)@ == egress_named(f)@ ==> e == f,
        sensitivity_named(s)@ == sensitivity_named(t)@ ==> s == t,
        egress_named(e)@ == "external"@ <==> e is External,
        egress_named(e)@ == "local"@ <==> e is Local,
        sensitivity_named(s)@ == "sensitive"@ <==> s is Sensitive,
{
    reveal_strlit("R0");
    reveal_strlit("R1");
    reveal_strlit("R2");
    reveal_strlit("R3");
    reveal_strlit("R4");
    assert(risk_named(r)@.len() == 2);
    assert(risk_named(q)@.len() == 2);
    assert(risk_named(r)@[1] == risk_named(q)@[1] ==> r == q);
    reveal_strlit("none");
    reveal_strlit("local");
    reveal_strlit("external");
    assert("none"@.len() == 4);
    assert("local"@.len() == 5);
    assert("external"@.len() == 8);
    reveal_strlit("normal");
    reveal_strlit("sensitive");
    assert("normal"@.len() == 6);
    assert("sensitive"@.len() == 9);
}

/// The tools that are shown are those with a policy, all of them and in their
/// order.
pub proof fn law_governed_tools_keep_their_order(
    a: Seq<RegisteredTool>,
    b: Seq<RegisteredTool>,
    tool: RegisteredTool,
)
    ensures
        governed(a + b) == governed(a) + governed(b),
        tool.policy is Some ==> governed(seq![tool]) == seq![tool],
        tool.policy is None ==> governed(seq![tool]).len() == 0,
    decreases b.len(),
{
    assert(seq![tool].drop_last() =~= Seq::<RegisteredTool>::empty());
    assert(seq![tool].last() == tool);
    assert(governed(Seq::<RegisteredTool>::empty()) =~= Seq::<RegisteredTool>::empty());
    if tool.policy is Some {
        assert(governed(seq![tool]) =~= seq![tool]);
    }
    if b.len() == 0 {
        assert(a + b =~= a);
        assert(governed(a) + governed(b) =~= governed(a));
    } else {
        law_governed_tools_keep_their_order(a, b.drop_last(), tool);
        assert((a + b).drop_last() =~= a + b.drop_last());
        assert(governed(a + b) =~= governed(a) + governed(b));
    }
}

/// A tool is shown with its own policy, and with what the engine answered for
/// each class under that class's name.
pub proof fn law_a_tool_is_shown_with_its_answers(
    dto: ToolPolicyDto,
    id: Seq<char>,
    policy: ToolPolicy,
    answers: EngineAnswers,
)
    requires
        shows_tool(dto, id, policy, answers),
    ensures
        dto.tool_id@ == id,
        dto.risk@ == risk_named(policy.risk)@,
        dto.reversible == policy.is_reversible,
        dto.requires_user_presence == policy.requires_user_presence,
        dto.egress@ == egress_named(policy.egress)@,
        dto.speech_sensitivity@ == sensitivity_named(policy.speech_sensitivity)@,
        text::views(dto.required_scopes@) == text::views(policy.required_scopes@),
        dto.outcomes@.len() == 4,
        dto.outcomes@[0].device_class@ == "owner-ui"@,
        reports(dto.outcomes@[0].outcome, answers.owner_ui),
        dto.outcomes@[1].device_class@ == "display-node"@,
        reports(dto.outcomes@[1].outcome, answers.display_node),
        dto.outcomes@[2].device_class@ == "voice-node"@,
        reports(dto.outcomes@[2].outcome, answers.voice_node),
        dto.outcomes@[3].device_class@ == "room-node"@,
        reports(dto.outcomes@[3].outcome, answers.room_node),
{
    assert(reports_class(dto.outcomes@[0], every_class()[0], answers.given_to(every_class()[0])));
    assert(reports_class(dto.outcomes@[1], every_class()[1], answers.given_to(every_class()[1])));
    assert(reports_class(dto.outcomes@[2], every_class()[2], answers.given_to(every_class()[2])));
    assert(reports_class(dto.outcomes@[3], every_class()[3], answers.given_to(every_class()[3])));
}

} // verus!
