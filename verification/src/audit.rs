//! Audit events: who did what to what, and the parameters that may be recorded.

use vstd::prelude::*;

use crate::text;
use crate::time::Timestamp;

verus! {

/// A value in an audit payload.
#[derive(Debug)]
pub enum AuditValue {
    Null,
    Bool(bool),
    Int(i64),
    Text(String),
    Texts(Vec<String>),
    /// An object with one numeric member.
    Member(&'static str, i64),
}

/// One field of an audit payload.
#[derive(Debug)]
pub struct AuditField {
    pub key: &'static str,
    pub value: AuditValue,
}

/// An append-only record.
#[derive(Debug)]
pub struct AuditEvent {
    pub occurred_at: Timestamp,
    pub actor: String,
    pub event_type: String,
    pub target: String,
    pub correlation_id: Option<String>,
    pub payload: Vec<AuditField>,
}

/// What a payload value says.
pub enum ValueView {
    Null,
    Bool(bool),
    Int(i64),
    Text(Seq<char>),
    Texts(Seq<Seq<char>>),
    Member(Seq<char>, i64),
}

impl View for AuditValue {
    type V = ValueView;

    open spec fn view(&self) -> ValueView {
        match self {
            AuditValue::Null => ValueView::Null,
            AuditValue::Bool(b) => ValueView::Bool(*b),
            AuditValue::Int(n) => ValueView::Int(*n),
            AuditValue::Text(s) => ValueView::Text(s@),
            AuditValue::Texts(v) => ValueView::Texts(text::views(v@)),
            AuditValue::Member(k, n) => ValueView::Member(k@, *n),
        }
    }
}

/// The fields of a payload, in order.
pub open spec fn fields(payload: Seq<AuditField>) -> Seq<(Seq<char>, ValueView)> {
    payload.map_values(|f: AuditField| (f.key@, f.value@))
}

/// What an audit event says.
#[verifier::ext_equal]
pub struct AuditView {
    pub occurred_at: Timestamp,
    pub actor: Seq<char>,
    pub event_type: Seq<char>,
    pub target: Seq<char>,
    pub correlation_id: Option<Seq<char>>,
    pub payload: Seq<(Seq<char>, ValueView)>,
}

impl View for AuditEvent {
    type V = AuditView;

    open spec fn view(&self) -> AuditView {
        AuditView {
            occurred_at: self.occurred_at,
            actor: self.actor@,
            event_type: self.event_type@,
            target: self.target@,
            correlation_id: text::opt_view(self.correlation_id),
            payload: fields(self.payload@),
        }
    }
}

/// An event of no particular run.
pub open spec fn event_of(
    at: Timestamp,
    actor: Seq<char>,
    event_type: Seq<char>,
    target: Seq<char>,
    payload: Seq<(Seq<char>, ValueView)>,
) -> AuditView {
    AuditView { occurred_at: at, actor, event_type, target, correlation_id: None, payload }
}

/// The actor that a device is.
pub open spec fn device_actor(device_id: Seq<char>) -> Seq<char> {
    "device:"@ + device_id
}

pub fn actor_of(device_id: &str) -> (s: String)
    ensures
        s@ == device_actor(device_id@),
{
    text::concat2("device:", device_id)
}

/// An actor is named by its device and by nothing else, so no device is taken for
/// another on record.
pub proof fn law_actors_name_devices(a: Seq<char>, b: Seq<char>)
    ensures
        device_actor(a) == device_actor(b) <==> a == b,
        device_actor(a).len() == 7 + a.len(),
        device_actor(a).skip(7) == a,
{
    reveal_strlit("device:");
    text::lemma_same_behind("device:"@, a, b);
    assert(device_actor(a).skip(7) =~= a);
}

pub fn no_fields() -> (v: Vec<AuditField>)
    ensures
        fields(v@) == Seq::<(Seq<char>, ValueView)>::empty(),
{
    let v: Vec<AuditField> = Vec::new();
    assert(fields(v@) =~= Seq::<(Seq<char>, ValueView)>::empty());
    v
}

/// Add a field to a payload.
pub fn with_field(payload: Vec<AuditField>, key: &'static str, value: AuditValue) -> (v: Vec<
    AuditField,
>)
    ensures
        fields(v@) == fields(payload@).push((key@, value@)),
{
    let ghost before = fields(payload@);
    let mut v = payload;
    let ghost said = value@;
    v.push(AuditField { key, value });
    assert(fields(v@) =~= before.push((key@, said)));
    v
}

/// The members of a record keep their order, and each its key and its value.
pub proof fn law_members_keep_their_place(payload: Seq<AuditField>, i: int)
    ensures
        fields(payload).len() == payload.len(),
        0 <= i < payload.len() ==> fields(payload)[i] == (payload[i].key@, payload[i].value@),
{
}

/// An event is recorded as it was given, under no run.
pub proof fn law_an_event_is_recorded_as_given(
    at: Timestamp,
    actor: Seq<char>,
    event_type: Seq<char>,
    target: Seq<char>,
    payload: Seq<(Seq<char>, ValueView)>,
)
    ensures
        ({
            let e = event_of(at, actor, event_type, target, payload);
            &&& e.occurred_at == at
            &&& e.actor == actor
            &&& e.event_type == event_type
            &&& e.target == target
            &&& e.payload == payload
            &&& e.correlation_id is None
        }),
{
}

} // verus!
