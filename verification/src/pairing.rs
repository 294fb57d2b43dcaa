//! Node pairing: challenge and response with per-device keys.
//!
//! The owner opens a window and reads its code out to the node. The node
//! presents its public key and the code and gets a challenge. The node returns a
//! signature over that challenge and gets its token. What a node may become is
//! fixed when the challenge is issued, and is never the owner's class.

use vstd::prelude::*;

use crate::audit;
use crate::audit::{AuditEvent, AuditValue};
use crate::auth;
use crate::auth::{PairResponse, Pairing};
use crate::digest;
use crate::identity::{Device, DeviceClass, DeviceContext};
use crate::ids;
use crate::problem;
use crate::problem::{ErrorCode, ProblemDetails, RepositoryError};
use crate::signing;
use crate::text;
use crate::text_map::TextMap;
use crate::time;
use crate::time::Timestamp;

verus! {

/// How long an opened window stays open, in seconds.
pub const WINDOW_TTL_SECS: u64 = 300;

/// How long a challenge stays signable, in seconds.
pub const CHALLENGE_TTL_SECS: u64 = 60;

/// Challenges tolerated at once. New starts are refused beyond it; nothing is
/// evicted, or an attacker could push out the legitimate node's challenge.
pub const MAX_OPEN_CHALLENGES: usize = 8;

/// Longest device name a node may propose.
pub const MAX_DEVICE_NAME_CHARS: usize = 80;

/// Wrong codes tolerated before the window closes.
pub const MAX_FAILED_ATTEMPTS: u32 = 5;

/// One issued, not yet spent challenge, bound to everything it was issued for.
pub struct OpenChallenge {
    pub nonce: Vec<u8>,
    pub public_key: String,
    pub device_name: String,
    pub class: DeviceClass,
    pub expires_at: Timestamp,
}

/// The window that the owner opened.
pub struct Window {
    pub code: String,
    pub expires_at: Timestamp,
    pub failed_attempts: u32,
}

/// What a window is, as values.
pub struct NodeWindowView {
    pub code: Seq<char>,
    pub expires_at: Timestamp,
    pub failed: nat,
}

impl View for Window {
    type V = NodeWindowView;

    open spec fn view(&self) -> NodeWindowView {
        NodeWindowView {
            code: self.code@,
            expires_at: self.expires_at,
            failed: self.failed_attempts as nat,
        }
    }
}

/// The pairing window and the challenges issued under it.
pub struct PairingState {
    pub window: Option<Window>,
    pub challenges: TextMap<OpenChallenge>,
}

/// A point in time `secs` later.
pub open spec fn later(t: Timestamp, secs: u64) -> Timestamp {
    Timestamp { nanos: (t.nanos + secs * 1_000_000_000) as i128 }
}

/// A time from which a window can still be dated.
pub open spec fn datable(t: Timestamp) -> bool {
    t.nanos <= 0x4000_0000_0000_0000_0000_0000_0000_0000
}

fn plus_secs(t: Timestamp, secs: u64) -> (r: Timestamp)
    requires
        datable(t),
    ensures
        r == later(t, secs),
{
    Timestamp { nanos: t.nanos + secs as i128 * 1_000_000_000 }
}

/// Whether a code is accepted by a window, and the window afterwards. Checking
/// does not consume the window: a completed pairing does.
pub open spec fn check(window: Option<NodeWindowView>, presented: Seq<char>, now: Timestamp) -> (
    bool,
    Option<NodeWindowView>,
) {
    match window {
        None => (false, None),
        Some(w) => if now.nanos >= w.expires_at.nanos {
            (false, None)
        } else if auth::codes_agree(w.code, presented) {
            (true, Some(w))
        } else if w.failed + 1 >= MAX_FAILED_ATTEMPTS {
            (false, None)
        } else {
            (
                false,
                Some(
                    NodeWindowView {
                        code: w.code,
                        expires_at: w.expires_at,
                        failed: w.failed + 1,
                    },
                ),
            )
        },
    }
}

/// The challenges that have not expired.
pub open spec fn unexpired(
    challenges: Map<Seq<char>, OpenChallenge>,
    now: Timestamp,
) -> Map<Seq<char>, OpenChallenge> {
    challenges.restrict(
        Set::new(|k: Seq<char>| challenges[k].expires_at.nanos > now.nanos).intersect(
            challenges.dom(),
        ),
    )
}

/// What every issued challenge satisfies: a full nonce, a key that may be
/// registered, and a class that is not the owner's.
pub open spec fn challenge_ok(c: OpenChallenge) -> bool {
    &&& c.nonce@.len() == 32
    &&& signing::public_key_of(c.public_key@) is Some
    &&& c.class != DeviceClass::OwnerUi
}

impl PairingState {
    pub open spec fn window_view(self) -> Option<NodeWindowView> {
        match self.window {
            Some(w) => Some(w@),
            None => None,
        }
    }

    /// An open window has attempts left, and what was issued is in order.
    pub open spec fn wf(self) -> bool {
        &&& self.window matches Some(w) ==> w.failed_attempts < MAX_FAILED_ATTEMPTS
        &&& forall|k: Seq<char>| #[trigger]
            self.challenges@.dom().contains(k) ==> challenge_ok(self.challenges@[k])
        &&& self.challenges@.dom().finite()
        &&& self.challenges@.dom().len() <= MAX_OPEN_CHALLENGES
    }

    pub fn new() -> (s: Self)
        ensures
            s.wf(),
            s.window is None,
            s.challenges@ == Map::<Seq<char>, OpenChallenge>::empty(),
    {
        let s = PairingState { window: None, challenges: TextMap::new() };
        assert(s.challenges@.dom() =~= Set::empty());
        s
    }

    /// Open a window with the given code, in place of any other. Challenges
    /// issued under an earlier window are void.
    pub fn open_window_with(&mut self, code: String, now: Timestamp) -> (expires_at: Timestamp)
        requires
            datable(now),
        ensures
            freshly_open(final(self).window_view(), final(self).challenges@, code@, now),
            final(self).wf(),
            expires_at == later(now, WINDOW_TTL_SECS),
            final(self).window_view() == Some(
                NodeWindowView { code: code@, expires_at, failed: 0 },
            ),
            final(self).challenges@ == Map::<Seq<char>, OpenChallenge>::empty(),
    {
        let expires_at = plus_secs(now, WINDOW_TTL_SECS);
        self.window = Some(Window { code, expires_at, failed_attempts: 0 });
        self.challenges.clear();
        assert(self.challenges@.dom() =~= Set::empty());
        expires_at
    }

    /// Open a window with a fresh code, and return the code.
    pub fn open_window(&mut self, now: Timestamp) -> (r: (String, Timestamp))
        requires
            datable(now),
        ensures
            final(self).wf(),
            auth::is_pairing_code(r.0@),
            r.1 == later(now, WINDOW_TTL_SECS),
            final(self).window_view() == Some(
                NodeWindowView { code: r.0@, expires_at: r.1, failed: 0 },
            ),
            final(self).challenges@ == Map::<Seq<char>, OpenChallenge>::empty(),
    {
        let code = auth::generate_pairing_code();
        let expires_at = self.open_window_with(code.clone(), now);
        (code, expires_at)
    }

    /// Check a presented code against the open window. Wrong codes count toward
    /// the lockout.
    pub fn check_code(&mut self, presented: &str, now: Timestamp) -> (accepted: bool)
        requires
            old(self).wf(),
        ensures
            final(self).wf(),
            (accepted, final(self).window_view()) == check(
                old(self).window_view(),
                presented@,
                now,
            ),
            final(self).challenges == old(self).challenges,
    {
        let (expired, matched, failed) = match &self.window {
            None => {
                return false;
            },
            Some(w) => (
                now.nanos >= w.expires_at.nanos,
                auth::codes_match(w.code.as_str(), presented),
                w.failed_attempts,
            ),
        };
        if expired {
            self.window = None;
            return false;
        }
        if matched {
            return true;
        }
        if failed + 1 >= MAX_FAILED_ATTEMPTS {
            self.window = None;
        } else {
            match self.window.take() {
                Some(w) => {
                    self.window = Some(
                        Window {
                            code: w.code,
                            expires_at: w.expires_at,
                            failed_attempts: failed + 1,
                        },
                    );
                },
                None => {},
            }
        }
        false
    }

    fn drop_expired(&mut self, now: Timestamp)
        requires
            old(self).wf(),
        ensures
            final(self).wf(),
            final(self).window == old(self).window,
            final(self).challenges@ == unexpired(old(self).challenges@, now),
    {
        let ghost start = self.challenges@;
        let mut dead: Vec<String> = Vec::new();
        let n: usize = self.challenges.len();
        let ghost keys = self.challenges.keys();
        let mut i: usize = 0;
        while i < n
            invariant
                i <= n,
                n == keys.len(),
                keys == self.challenges.keys(),
                self.challenges@ == start,
                start.dom() == keys.to_set(),
                forall|k: Seq<char>|
                    text::views(dead@).contains(k) <==> exists|j: int|
                        0 <= j < i && #[trigger] keys[j] == k && start[k].expires_at.nanos
                            <= now.nanos,
            decreases n - i,
        {
            let ghost before = text::views(dead@);
            if self.challenges.value_at(i).expires_at.nanos <= now.nanos {
                let key = self.challenges.key_at(i).clone();
                dead.push(key);
                assert(text::views(dead@) =~= before.push(keys[i as int]));
                assert forall|k: Seq<char>|
                    text::views(dead@).contains(k) <==> exists|j: int|
                        0 <= j < i + 1 && #[trigger] keys[j] == k && start[k].expires_at.nanos
                            <= now.nanos by {
                    if k == keys[i as int] {
                        assert(text::views(dead@)[before.len() as int] == k);
                        assert(0 <= i < i + 1 && keys[i as int] == k);
                    } else {
                        if before.contains(k) {
                            let m = before.index_of(k);
                            assert(text::views(dead@)[m] == k);
                        }
                        if text::views(dead@).contains(k) {
                            let m = text::views(dead@).index_of(k);
                            assert(before[m] == k);
                        }
                    }
                }
            }
            i = i + 1;
        }
        let mut d: usize = 0;
        let ghost gone = text::views(dead@);
        assert(start.remove_keys(gone.take(0).to_set()) =~= start);
        while d < dead.len()
            invariant
                d <= dead@.len(),
                gone == text::views(dead@),
                self.window == old(self).window,
                self.challenges@ == start.remove_keys(gone.take(d as int).to_set()),
            decreases dead@.len() - d,
        {
            assert(gone[d as int] == dead@[d as int]@);
            let _ = self.challenges.remove(dead[d].as_str());
            assert(gone.take(d + 1) =~= gone.take(d as int).push(gone[d as int]));
            assert forall|k: Seq<char>| gone.take(d + 1).to_set().contains(k) <==> (
            gone.take(d as int).to_set().contains(k) || k == gone[d as int]) by {
                if gone.take(d as int).contains(k) {
                    let m = gone.take(d as int).index_of(k);
                    assert(gone.take(d + 1)[m] == k);
                }
                if k == gone[d as int] {
                    assert(gone.take(d + 1)[d as int] == k);
                }
            }
            assert(self.challenges@ =~= start.remove_keys(gone.take(d + 1).to_set()));
            d = d + 1;
        }
        assert(gone.take(dead@.len() as int) =~= gone);
        proof {
            let left = unexpired(start, now);
            assert forall|k: Seq<char>| start.dom().contains(k) implies (gone.contains(k)
                <==> start[k].expires_at.nanos <= now.nanos) by {
                assert(keys.to_set().contains(k));
                let j = keys.index_of(k);
                assert(keys[j] == k);
            }
            assert(self.challenges@ =~= left);
            assert(self.challenges@.dom().subset_of(start.dom()));
            vstd::set_lib::lemma_len_subset(self.challenges@.dom(), start.dom());
        }
    }

    /// Issue a challenge under the given identifier, unless too many are open.
    pub fn issue_as(&mut self, id: String, challenge: OpenChallenge, now: Timestamp) -> (issued:
        bool)
        requires
            old(self).wf(),
            challenge_ok(challenge),
        ensures
            final(self).wf(),
            final(self).window == old(self).window,
            issued == (unexpired(old(self).challenges@, now).dom().len() < MAX_OPEN_CHALLENGES),
            final(self).challenges@ == (if issued {
                unexpired(old(self).challenges@, now).insert(id@, challenge)
            } else {
                unexpired(old(self).challenges@, now)
            }),
    {
        self.drop_expired(now);
        let open: usize = self.challenges.len();
        if open >= MAX_OPEN_CHALLENGES {
            return false;
        }
        let ghost before = self.challenges@;
        self.challenges.insert(id, challenge);
        assert(self.challenges@.dom() =~= before.dom().insert(id@));
        true
    }

    /// Issue a challenge under a fresh identifier.
    pub fn issue(&mut self, challenge: OpenChallenge, now: Timestamp) -> (r: Option<String>)
        requires
            old(self).wf(),
            challenge_ok(challenge),
        ensures
            final(self).wf(),
            final(self).window == old(self).window,
            match r {
                None => unexpired(old(self).challenges@, now).dom().len() >= MAX_OPEN_CHALLENGES
                    && final(self).challenges@ == unexpired(old(self).challenges@, now),
                Some(id) => digest::is_hex_of(id@, 16) && unexpired(
                    old(self).challenges@,
                    now,
                ).dom().len() < MAX_OPEN_CHALLENGES && final(self).challenges@ == unexpired(
                    old(self).challenges@,
                    now,
                ).insert(id@, challenge),
            },
    {
        let bytes = digest::random_bytes(16);
        let id = digest::hex_encode(bytes.as_slice());
        assert(digest::is_hex_of(id@, 16)) by {
            assert(id@ == digest::hex_of(bytes@));
        }
        if self.issue_as(id.clone(), challenge, now) {
            Some(id)
        } else {
            None
        }
    }

    /// Take a challenge out. Whatever comes of it, it can never be presented
    /// again.
    pub fn take(&mut self, id: &str) -> (r: Option<OpenChallenge>)
        requires
            old(self).wf(),
        ensures
            final(self).wf(),
            final(self).window == old(self).window,
            final(self).challenges@ == old(self).challenges@.remove(id@),
            match r {
                Some(c) => old(self).challenges@.dom().contains(id@) && c
                    == old(self).challenges@[id@] && challenge_ok(c),
                None => !old(self).challenges@.dom().contains(id@),
            },
    {
        let ghost before = self.challenges@;
        let r = self.challenges.remove(id);
        proof {
            assert(self.challenges@.dom().subset_of(before.dom()));
            vstd::set_lib::lemma_len_subset(self.challenges@.dom(), before.dom());
        }
        r
    }

    /// Close the window and drop every outstanding challenge.
    pub fn close(&mut self)
        ensures
            final(self).wf(),
            final(self).window is None,
            final(self).challenges@ == Map::<Seq<char>, OpenChallenge>::empty(),
    {
        self.window = None;
        self.challenges.clear();
        assert(self.challenges@.dom() =~= Set::empty());
    }
}

// ---------------------------------------------------------------------------
// Opening a window
// ---------------------------------------------------------------------------

/// What the owner is shown.
pub struct PairingWindowDto {
    pub pairing_code: String,
    pub expires_at: String,
}

/// The record of an opened window.
pub open spec fn window_opened_event(device_id: Seq<char>, now: Timestamp) -> audit::AuditView {
    audit::event_of(
        now,
        audit::device_actor(device_id),
        "device.pairing_window_opened"@,
        "identity:pairing-window"@,
        seq![("ttlSeconds"@, audit::ValueView::Int(WINDOW_TTL_SECS as i64))],
    )
}

/// Open a window for the owner. Anyone else is refused and nothing changes.
pub fn open_window(state: &mut PairingState, caller: &DeviceContext, now: Timestamp) -> (r: Result<
    (PairingWindowDto, AuditEvent),
    ProblemDetails,
>)
    requires
        old(state).wf(),
        datable(now),
    ensures
        final(state).wf(),
        caller.spec_holds(crate::identity::UI_SCOPE@) ==> (r matches Ok((dto, event))
            && auth::is_pairing_code(dto.pairing_code@) && dto.expires_at@ == time::rfc3339_of(
            later(now, WINDOW_TTL_SECS),
        ) && event@ == window_opened_event(caller.device_id@, now) && final(state).window_view()
            == Some(
            NodeWindowView {
                code: dto.pairing_code@,
                expires_at: later(now, WINDOW_TTL_SECS),
                failed: 0,
            },
        ) && final(state).challenges@ == Map::<Seq<char>, OpenChallenge>::empty()),
        !caller.spec_holds(crate::identity::UI_SCOPE@) ==> *final(state) == *old(state) && (
        r matches Err(e) && e@ == problem::problem_of(
            403,
            ErrorCode::AuthScopeMissing,
            "opening a pairing window requires the `ui` scope"@,
            None,
        )),
{
    if !caller.holds_ui() {
        return Err(
            problem::problem(
                403,
                ErrorCode::AuthScopeMissing,
                "opening a pairing window requires the `ui` scope",
                None,
            ),
        );
    }
    let (code, expires_at) = state.open_window(now);
    let event = AuditEvent {
        occurred_at: now,
        actor: audit::actor_of(caller.device_id.as_str()),
        event_type: "device.pairing_window_opened".to_owned(),
        target: "identity:pairing-window".to_owned(),
        correlation_id: None,
        payload: audit::with_field(
            audit::no_fields(),
            "ttlSeconds",
            AuditValue::Int(WINDOW_TTL_SECS as i64),
        ),
    };
    assert(event@ =~= window_opened_event(caller.device_id@, now));
    Ok((PairingWindowDto { pairing_code: code, expires_at: time::rfc3339(expires_at) }, event))
}

// ---------------------------------------------------------------------------
// Starting
// ---------------------------------------------------------------------------

/// A node's request for a challenge.
pub struct NodePairStartRequest {
    pub device_name: String,
    pub public_key: String,
    pub requested_class: String,
    pub pairing_code: String,
}

/// The challenge a node is to sign.
pub struct NodePairChallengeDto {
    pub challenge_id: String,
    pub challenge: String,
    pub expires_at: String,
}

/// A name that is not empty, bounded, and free of control characters.
pub open spec fn is_device_name(name: Seq<char>) -> bool {
    &&& 0 < name.len() <= MAX_DEVICE_NAME_CHARS
    &&& forall|i: int| 0 <= i < name.len() ==> !text::is_control(#[trigger] name[i])
}

fn device_name_ok(name: &str) -> (b: bool)
    ensures
        b == is_device_name(name@),
{
    let v = text::chars_of(name);
    if v.len() == 0 || v.len() > MAX_DEVICE_NAME_CHARS {
        return false;
    }
    !text::has_control(&v)
}

/// The classes a node may ask to be. The owner's is refused, not downgraded.
pub open spec fn grantable(raw: Seq<char>) -> Option<DeviceClass> {
    match DeviceClass::named(raw) {
        Some(class) => if class == DeviceClass::OwnerUi {
            None
        } else {
            Some(class)
        },
        None => None,
    }
}

pub fn requested_class(raw: &str) -> (r: Option<DeviceClass>)
    ensures
        r == grantable(raw@),
        r != Some(DeviceClass::OwnerUi),
{
    match DeviceClass::parse(raw) {
        Some(DeviceClass::DisplayNode) => Some(DeviceClass::DisplayNode),
        Some(DeviceClass::VoiceNode) => Some(DeviceClass::VoiceNode),
        Some(DeviceClass::RoomNode) => Some(DeviceClass::RoomNode),
        Some(DeviceClass::OwnerUi) => None,
        None => None,
    }
}

/// The record of a refused pairing attempt: the surface and a fixed reason, and
/// no text of the attempt itself.
pub open spec fn refusal_event(reason: Seq<char>, now: Timestamp) -> audit::AuditView {
    audit::event_of(
        now,
        "unauthenticated"@,
        "device.pairing_refused"@,
        "identity:pairing"@,
        seq![("reason"@, audit::ValueView::Text(reason))],
    )
}

pub fn pairing_refusal(reason: &'static str, now: Timestamp) -> (event: AuditEvent)
    ensures
        event@ == refusal_event(reason@, now),
{
    let event = AuditEvent {
        occurred_at: now,
        actor: "unauthenticated".to_owned(),
        event_type: "device.pairing_refused".to_owned(),
        target: "identity:pairing".to_owned(),
        correlation_id: None,
        payload: audit::with_field(
            audit::no_fields(),
            "reason",
            AuditValue::Text(reason.to_owned()),
        ),
    };
    assert(event@ =~= refusal_event(reason@, now));
    event
}

/// A refused request: the answer, and the record where one is kept.
pub struct Refusal {
    pub problem: ProblemDetails,
    pub audit: Option<AuditEvent>,
}

/// What a refusal says.
pub open spec fn refused(r: Refusal, p: problem::ProblemView, reason: Option<Seq<char>>, now: Timestamp) -> bool {
    &&& r.problem@ == p
    &&& match reason {
        Some(why) => r.audit matches Some(event) && event@ == refusal_event(why, now),
        None => r.audit is None,
    }
}

/// Why a start is refused, given whether its code was accepted and whether there
/// is room for another challenge.
pub open spec fn start_refusal(request: NodePairStartRequest, accepted: bool, room: bool) -> Option<
    (problem::ProblemView, Option<Seq<char>>),
> {
    if !is_device_name(text::trimmed(request.device_name@)) {
        Some(
            (
                problem::problem_of(
                    400,
                    ErrorCode::ValidationFailed,
                    "deviceName must be non-empty, bounded, and free of control characters"@,
                    None,
                ),
                None,
            ),
        )
    } else if signing::public_key_of(request.public_key@) is None {
        Some(
            (
                problem::problem_of(
                    400,
                    ErrorCode::ValidationFailed,
                    "publicKey must be a base64 Ed25519 public key"@,
                    None,
                ),
                None,
            ),
        )
    } else if grantable(request.requested_class@) is None {
        Some(
            (
                problem::problem_of(
                    403,
                    ErrorCode::IdentityClassNotGrantable,
                    "that device class cannot be requested"@,
                    Some("a node may request display-node, voice-node, or room-node"@),
                ),
                Some("requested a class it may not have"@),
            ),
        )
    } else if !accepted {
        Some((auth::pairing_failed_view(), Some("code rejected"@)))
    } else if !room {
        Some(
            (
                problem::problem_of(
                    429,
                    ErrorCode::ValidationFailed,
                    "too many pairing attempts in flight"@,
                    None,
                ),
                None,
            ),
        )
    } else {
        None
    }
}

/// Whether a start gets as far as presenting its code.
pub open spec fn presents_code(request: NodePairStartRequest) -> bool {
    &&& is_device_name(text::trimmed(request.device_name@))
    &&& signing::public_key_of(request.public_key@) is Some
    &&& grantable(request.requested_class@) is Some
}

/// Issue a challenge to a node that presents a key and the code. A malformed
/// request does not count as a pairing attempt.
pub fn start(state: &mut PairingState, request: &NodePairStartRequest, now: Timestamp) -> (r:
    Result<NodePairChallengeDto, Refusal>)
    requires
        old(state).wf(),
        datable(now),
    ensures
        r matches Ok(dto) ==> holds_request(
            final(state).challenges@[dto.challenge_id@],
            *request,
            now,
        ),
        final(state).wf(),
        final(state).window_view() == (if presents_code(*request) {
            check(old(state).window_view(), request.pairing_code@, now).1
        } else {
            old(state).window_view()
        }),
        match start_refusal(
            *request,
            check(old(state).window_view(), request.pairing_code@, now).0,
            unexpired(old(state).challenges@, now).dom().len() < MAX_OPEN_CHALLENGES,
        ) {
            Some((p, reason)) => (r matches Err(e) && refused(e, p, reason, now))
                && final(state).challenges@ == (if presents_code(*request) && check(
                old(state).window_view(),
                request.pairing_code@,
                now,
            ).0 {
                unexpired(old(state).challenges@, now)
            } else {
                old(state).challenges@
            }),
            None => r matches Ok(dto) && digest::is_hex_of(dto.challenge_id@, 16)
                && dto.expires_at@ == time::rfc3339_of(later(now, CHALLENGE_TTL_SECS)) && final(state).challenges@ == unexpired(old(state).challenges@, now).insert(
                dto.challenge_id@,
                final(state).challenges@[dto.challenge_id@],
            ) && ({
                let c = final(state).challenges@[dto.challenge_id@];
                &&& challenge_ok(c)
                &&& c.device_name@ == text::trimmed(request.device_name@)
                &&& Some(c.class) == grantable(request.requested_class@)
                &&& c.expires_at == later(now, CHALLENGE_TTL_SECS)
                &&& dto.challenge@ == signing::base64_text(c.nonce@)
                &&& signing::public_key_of(request.public_key@) matches Some(k) && c.public_key@
                    == signing::base64_text(k) && signing::public_key_of(c.public_key@) == Some(k)
            }),
        },
{
    let name = text::trim(request.device_name.as_str());
    if !device_name_ok(name) {
        return Err(
            Refusal {
                problem: problem::bad_request(
                    "deviceName must be non-empty, bounded, and free of control characters",
                ),
                audit: None,
            },
        );
    }
    let key = match signing::parse_public_key(request.public_key.as_str()) {
        Some(key) => key,
        None => {
            return Err(
                Refusal {
                    problem: problem::bad_request("publicKey must be a base64 Ed25519 public key"),
                    audit: None,
                },
            );
        },
    };
    let class = match requested_class(request.requested_class.as_str()) {
        Some(class) => class,
        None => {
            return Err(
                Refusal {
                    problem: problem::problem(
                        403,
                        ErrorCode::IdentityClassNotGrantable,
                        "that device class cannot be requested",
                        Some(
                            "a node may request display-node, voice-node, or room-node".to_owned(),
                        ),
                    ),
                    audit: Some(pairing_refusal("requested a class it may not have", now)),
                },
            );
        },
    };
    if !state.check_code(request.pairing_code.as_str(), now) {
        return Err(
            Refusal {
                problem: auth::pairing_failed(),
                audit: Some(pairing_refusal("code rejected", now)),
            },
        );
    }
    let nonce = digest::random_bytes(32);
    let shown = signing::base64_encode(nonce.as_slice());
    let expires_at = plus_secs(now, CHALLENGE_TTL_SECS);
    let public_key = signing::base64_encode(key.as_slice());
    let challenge = OpenChallenge {
        nonce,
        public_key,
        device_name: name.to_owned(),
        class,
        expires_at,
    };
    match state.issue(challenge, now) {
        Some(challenge_id) => {
            Ok(
                NodePairChallengeDto {
                    challenge_id,
                    challenge: shown,
                    expires_at: time::rfc3339(expires_at),
                },
            )
        },
        None => Err(
            Refusal {
                problem: problem::problem(
                    429,
                    ErrorCode::ValidationFailed,
                    "too many pairing attempts in flight",
                    None,
                ),
                audit: None,
            },
        ),
    }
}

// ---------------------------------------------------------------------------
// Completing
// ---------------------------------------------------------------------------

/// A node's answer to its challenge.
pub struct NodePairCompleteRequest {
    pub challenge_id: String,
    pub signature: String,
}

pub open spec fn challenge_rejected_view() -> problem::ProblemView {
    problem::problem_of(
        403,
        ErrorCode::IdentityChallengeRejected,
        "pairing challenge rejected"@,
        None,
    )
}

fn challenge_rejected() -> (r: Refusal)
    ensures
        r.problem@ == challenge_rejected_view(),
        r.audit is None,
{
    Refusal {
        problem: problem::problem(
            403,
            ErrorCode::IdentityChallengeRejected,
            "pairing challenge rejected",
            None,
        ),
        audit: None,
    }
}

/// Whether an answer proves possession of the key its challenge was issued to.
pub open spec fn answered(c: OpenChallenge, signature: Seq<char>, now: Timestamp) -> bool {
    now.nanos < c.expires_at.nanos && signing::proves(c.public_key@, c.nonce@, signature)
}

/// Whether a refused answer is put on record: someone held a live challenge and
/// presented a whole signature that does not fit its key.
pub open spec fn is_forgery(c: OpenChallenge, signature: Seq<char>, now: Timestamp) -> bool {
    &&& now.nanos < c.expires_at.nanos
    &&& signing::fixed_bytes(signature, 64) is Some
    &&& !signing::proves(c.public_key@, c.nonce@, signature)
}

/// Whether an answer under an identifier is accepted.
pub open spec fn admits(
    challenges: Map<Seq<char>, OpenChallenge>,
    id: Seq<char>,
    signature: Seq<char>,
    now: Timestamp,
) -> bool {
    challenges.dom().contains(id) && answered(challenges[id], signature, now)
}

/// Check a node's answer. The challenge is spent by being presented, whether the
/// signature fits or not.
pub fn complete(state: &mut PairingState, request: &NodePairCompleteRequest, now: Timestamp) -> (r:
    Result<OpenChallenge, Refusal>)
    requires
        old(state).wf(),
    ensures
        r matches Err(e) ==> refused(
            e,
            challenge_rejected_view(),
            rejection_recorded(
                old(state).challenges@,
                request.challenge_id@,
                request.signature@,
                now,
            ),
            now,
        ),
        final(state).wf(),
        final(state).window == old(state).window,
        final(state).challenges@ == old(state).challenges@.remove(request.challenge_id@),
        r is Ok <==> admits(
            old(state).challenges@,
            request.challenge_id@,
            request.signature@,
            now,
        ),
        match r {
            Ok(c) => c == old(state).challenges@[request.challenge_id@] && challenge_ok(c),
            Err(e) => ({
                let known = old(state).challenges@.dom().contains(request.challenge_id@);
                let c = old(state).challenges@[request.challenge_id@];
                refused(
                    e,
                    challenge_rejected_view(),
                    if known && is_forgery(c, request.signature@, now) {
                        Some("signature did not verify"@)
                    } else {
                        None
                    },
                    now,
                )
            }),
        },
{
    let challenge = match state.take(request.challenge_id.as_str()) {
        Some(c) => c,
        None => {
            return Err(challenge_rejected());
        },
    };
    if now.nanos >= challenge.expires_at.nanos {
        return Err(challenge_rejected());
    }
    let signature = match signing::decode_fixed(request.signature.as_str(), 64) {
        Some(bytes) => bytes,
        None => {
            return Err(challenge_rejected());
        },
    };
    let key = match signing::decode_fixed(challenge.public_key.as_str(), 32) {
        Some(bytes) => bytes,
        None => {
            return Err(challenge_rejected());
        },
    };
    if !signing::verify(&key, &challenge.nonce, &signature) {
        let mut refusal = challenge_rejected();
        refusal.audit = Some(pairing_refusal("signature did not verify", now));
        return Err(refusal);
    }
    Ok(challenge)
}

/// The record of a paired node.
pub open spec fn node_paired_event(
    device: crate::identity::DeviceView,
    public_key: Seq<char>,
    scopes: Seq<Seq<char>>,
    now: Timestamp,
) -> audit::AuditView {
    audit::event_of(
        now,
        "system"@,
        "device.paired"@,
        "device:"@ + device.id,
        seq![
            ("deviceName"@, audit::ValueView::Text(device.name)),
            ("deviceClass"@, audit::ValueView::Text(device.class.name()@)),
            ("scopes"@, audit::ValueView::Texts(scopes)),
            ("keyFingerprint"@, audit::ValueView::Text(signing::fingerprint_of_key(public_key))),
            ("method"@, audit::ValueView::Text("challenge-response"@)),
        ],
    )
}

/// The device, record and answer for a proven challenge, with a token and
/// identifiers that were drawn. The class and the name are the challenge's.
pub fn node_pairing_with(
    challenge: &OpenChallenge,
    id: String,
    user_id: String,
    token: String,
    scopes: &Vec<String>,
    server_fingerprint: &Option<String>,
    now: Timestamp,
) -> (p: Pairing)
    requires
        ids::is_ulid(id@),
        ids::is_ulid(user_id@),
        token@.len() == 64,
    ensures
        auth::pairing_ok(
            p,
            challenge.device_name@,
            challenge.class,
            text::views(scopes@),
            now,
        ),
        p.device.id@ == id@,
        p.device.user_id@ == user_id@,
        p.response.device_token@ == token@,
        text::opt_view(p.device.public_key) == Some(challenge.public_key@),
        p.response.server_fingerprint == *server_fingerprint,
        p.audit@ == node_paired_event(
            p.device@,
            challenge.public_key@,
            text::views(scopes@),
            now,
        ),
{
    let class_name = challenge.class.as_str();
    let mut payload = audit::with_field(
        audit::no_fields(),
        "deviceName",
        AuditValue::Text(challenge.device_name.clone()),
    );
    payload = audit::with_field(payload, "deviceClass", AuditValue::Text(class_name.to_owned()));
    payload = audit::with_field(payload, "scopes", AuditValue::Texts(text::copy_texts(scopes)));
    payload = audit::with_field(
        payload,
        "keyFingerprint",
        AuditValue::Text(signing::key_fingerprint(challenge.public_key.as_str())),
    );
    payload = audit::with_field(
        payload,
        "method",
        AuditValue::Text("challenge-response".to_owned()),
    );
    let event = AuditEvent {
        occurred_at: now,
        actor: "system".to_owned(),
        event_type: "device.paired".to_owned(),
        target: text::concat2("device:", id.as_str()),
        correlation_id: None,
        payload,
    };
    let device = Device {
        id: id.clone(),
        user_id,
        name: challenge.device_name.clone(),
        token_hash: digest::text_digest(token.as_str()),
        public_key: Some(challenge.public_key.clone()),
        class: challenge.class,
        created_at: now,
        last_seen_at: None,
        revoked_at: None,
        revoked_reason: None,
    };
    let response = PairResponse {
        device_id: id,
        device_token: token,
        device_class: class_name.to_owned(),
        scopes: text::copy_texts(scopes),
        server_fingerprint: text::copy_opt(server_fingerprint),
    };
    let p = Pairing { device, audit: event, response };
    assert(p.audit@ =~= node_paired_event(
        p.device@,
        challenge.public_key@,
        text::views(scopes@),
        now,
    ));
    p
}

/// The device, record and answer for a proven challenge.
pub fn node_pairing(
    challenge: &OpenChallenge,
    scopes: &Vec<String>,
    server_fingerprint: &Option<String>,
    now: Timestamp,
) -> (p: Pairing)
    ensures
        auth::pairing_ok(
            p,
            challenge.device_name@,
            challenge.class,
            text::views(scopes@),
            now,
        ),
        digest::is_hex_of(p.response.device_token@, 32),
        text::opt_view(p.device.public_key) == Some(challenge.public_key@),
        p.response.server_fingerprint == *server_fingerprint,
        p.audit@ == node_paired_event(
            p.device@,
            challenge.public_key@,
            text::views(scopes@),
            now,
        ),
{
    node_pairing_with(
        challenge,
        ids::fresh_id(),
        ids::fresh_id(),
        auth::generate_token(),
        scopes,
        server_fingerprint,
        now,
    )
}

/// What the store made of a node pairing.
#[derive(Debug, Clone, Copy, PartialEq, Eq, Structural)]
pub enum NodePairOutcome {
    Paired,
    NoOwner,
    KeyAlreadyPaired,
}

/// What is answered for each outcome of storing a pairing, unless it succeeded.
pub open spec fn outcome_problem(outcome: Result<NodePairOutcome, RepositoryError>) -> Option<
    problem::ProblemView,
> {
    match outcome {
        Ok(NodePairOutcome::Paired) => None,
        Ok(NodePairOutcome::NoOwner) => Some(
            problem::problem_of(
                409,
                ErrorCode::AuthPairingInvalid,
                "no owner device exists to pair against"@,
                Some("pair the owner's own client first (docs/05 §6.1)"@),
            ),
        ),
        Ok(NodePairOutcome::KeyAlreadyPaired) => Some(
            problem::problem_of(
                409,
                ErrorCode::AuthPairingInvalid,
                "this key is already paired"@,
                Some("revoke the existing device before pairing the key again"@),
            ),
        ),
        Err(_) => Some(
            problem::problem_of(
                503,
                ErrorCode::ProviderUnavailable,
                "pairing could not be persisted"@,
                None,
            ),
        ),
    }
}

/// Conclude a pairing. One window, one node: a stored pairing closes the window;
/// any other outcome leaves it as it is.
pub fn conclude(state: &mut PairingState, outcome: Result<NodePairOutcome, RepositoryError>) -> (r:
    Result<(), ProblemDetails>)
    requires
        old(state).wf(),
    ensures
        ends_as(
            outcome,
            (old(state).window_view(), old(state).challenges@),
            (final(state).window_view(), final(state).challenges@),
        ),
        final(state).wf(),
        match outcome_problem(outcome) {
            None => r is Ok && final(state).window is None && final(state).challenges@ == Map::<
                Seq<char>,
                OpenChallenge,
            >::empty(),
            Some(p) => *final(state) == *old(state) && (r matches Err(e) && e@ == p),
        },
{
    match outcome {
        Ok(NodePairOutcome::Paired) => {
            state.close();
            Ok(())
        },
        Ok(NodePairOutcome::NoOwner) => Err(
            problem::problem(
                409,
                ErrorCode::AuthPairingInvalid,
                "no owner device exists to pair against",
                Some("pair the owner's own client first (docs/05 §6.1)".to_owned()),
            ),
        ),
        Ok(NodePairOutcome::KeyAlreadyPaired) => Err(
            problem::problem(
                409,
                ErrorCode::AuthPairingInvalid,
                "this key is already paired",
                Some("revoke the existing device before pairing the key again".to_owned()),
            ),
        ),
        Err(_) => Err(auth::pairing_not_persisted()),
    }
}

/// What a call does to the open challenges.
pub enum ChallengeStep {
    /// [`complete`] was handed an answer to a challenge.
    Answered { id: Seq<char> },
    /// [`start`] dropped what had expired and issued nothing.
    Pruned { now: Timestamp },
    /// [`start`] dropped what had expired and issued a challenge.
    Issued { id: Seq<char>, challenge: OpenChallenge, now: Timestamp },
    /// A window was opened or closed, or a pairing was stored.
    Cleared,
}

/// The open challenges after a call.
pub open spec fn stepped(challenges: Map<Seq<char>, OpenChallenge>, step: ChallengeStep) -> Map<
    Seq<char>,
    OpenChallenge,
> {
    match step {
        ChallengeStep::Answered { id } => challenges.remove(id),
        ChallengeStep::Pruned { now } => unexpired(challenges, now),
        ChallengeStep::Issued { id, challenge, now } => unexpired(challenges, now).insert(
            id,
            challenge,
        ),
        ChallengeStep::Cleared => Map::empty(),
    }
}

/// The open challenges after a row of calls.
pub open spec fn stepped_all(
    challenges: Map<Seq<char>, OpenChallenge>,
    steps: Seq<ChallengeStep>,
) -> Map<Seq<char>, OpenChallenge>
    decreases steps.len(),
{
    if steps.len() == 0 {
        challenges
    } else {
        stepped(stepped_all(challenges, steps.drop_last()), steps.last())
    }
}

/// A challenge is spent by being presented: once [`complete`] was handed an answer
/// to it, right or wrong, no answer to it is accepted, whatever is called in
/// between and at whatever time it comes. Identifiers are drawn afresh, so no later
/// challenge stands under the same one.
pub proof fn law_challenge_is_single_use(
    challenges: Map<Seq<char>, OpenChallenge>,
    id: Seq<char>,
    later: Seq<ChallengeStep>,
    signature: Seq<char>,
    now: Timestamp,
)
    requires
        forall|i: int|
            0 <= i < later.len() ==> ((#[trigger] later[i]) matches ChallengeStep::Issued {
                id: other,
                ..
            } ==> other != id),
    ensures
        !admits(
            stepped_all(stepped(challenges, ChallengeStep::Answered { id }), later),
            id,
            signature,
            now,
        ),
{
    lemma_spent_stays_spent(challenges.remove(id), id, later);
}

proof fn lemma_spent_stays_spent(
    challenges: Map<Seq<char>, OpenChallenge>,
    id: Seq<char>,
    later: Seq<ChallengeStep>,
)
    requires
        !challenges.dom().contains(id),
        forall|i: int|
            0 <= i < later.len() ==> ((#[trigger] later[i]) matches ChallengeStep::Issued {
                id: other,
                ..
            } ==> other != id),
    ensures
        !stepped_all(challenges, later).dom().contains(id),
    decreases later.len(),
{
    if later.len() > 0 {
        let before = later.drop_last();
        assert forall|i: int| 0 <= i < before.len() implies ((#[trigger] before[i]) matches ChallengeStep::Issued {
            id: other,
            ..
        } ==> other != id) by {
            assert(before[i] == later[i]);
        }
        lemma_spent_stays_spent(challenges, id, before);
        assert(later[later.len() - 1] == later.last());
    }
}

/// An expired challenge admits no answer.
pub proof fn law_expired_challenge_admits_nothing(
    challenges: Map<Seq<char>, OpenChallenge>,
    id: Seq<char>,
    signature: Seq<char>,
    now: Timestamp,
)
    requires
        challenges.dom().contains(id),
        challenges[id].expires_at.nanos <= now.nanos,
    ensures
        !admits(challenges, id, signature, now),
{
}

/// Starting a pairing does not spend the window: the right code is accepted
/// again until the window expires.
pub proof fn law_right_code_keeps_the_window(w: NodeWindowView, now: Timestamp, again: Timestamp)
    requires
        now.nanos < w.expires_at.nanos,
        again.nanos < w.expires_at.nanos,
    ensures
        check(Some(w), w.code, now) == (true, Some(w)),
        check(check(Some(w), w.code, now).1, w.code, again).0,
{
}

/// The window after a row of codes, all presented at one time.
pub open spec fn check_all(
    window: Option<NodeWindowView>,
    presented: Seq<Seq<char>>,
    now: Timestamp,
) -> Option<NodeWindowView>
    decreases presented.len(),
{
    if presented.len() == 0 {
        window
    } else {
        check(check_all(window, presented.drop_last(), now), presented.last(), now).1
    }
}

/// Five wrong codes close the window, and the right one is refused from then on.
pub proof fn law_wrong_codes_close_the_window(
    w: NodeWindowView,
    guesses: Seq<Seq<char>>,
    now: Timestamp,
)
    requires
        w.failed == 0,
        now.nanos < w.expires_at.nanos,
        forall|i: int| 0 <= i < guesses.len() ==> !auth::codes_agree(w.code, #[trigger] guesses[i]),
    ensures
        check(check_all(Some(w), guesses, now), w.code, now).0 <==> guesses.len()
            < MAX_FAILED_ATTEMPTS,
{
    lemma_wrong_codes(w, guesses, now);
}

proof fn lemma_wrong_codes(w: NodeWindowView, guesses: Seq<Seq<char>>, now: Timestamp)
    requires
        w.failed == 0,
        now.nanos < w.expires_at.nanos,
        forall|i: int| 0 <= i < guesses.len() ==> !auth::codes_agree(w.code, #[trigger] guesses[i]),
    ensures
        check_all(Some(w), guesses, now) == (if guesses.len() < MAX_FAILED_ATTEMPTS {
            Some(
                NodeWindowView {
                    code: w.code,
                    expires_at: w.expires_at,
                    failed: guesses.len(),
                },
            )
        } else {
            None
        }),
    decreases guesses.len(),
{
    if guesses.len() > 0 {
        let before = guesses.drop_last();
        assert(forall|i: int| 0 <= i < before.len() ==> before[i] == guesses[i]);
        lemma_wrong_codes(w, before, now);
        assert(guesses.last() == guesses[guesses.len() - 1]);
    }
}

/// No class a node can be granted is the owner's.
pub proof fn law_no_node_becomes_the_owner(raw: Seq<char>)
    ensures
        grantable(raw) != Some(DeviceClass::OwnerUi),
{
}

/// A window stays open for five minutes and a challenge for one.
pub proof fn law_windows_and_challenges_run_out(now: Timestamp)
    requires
        datable(now),
    ensures
        later(now, WINDOW_TTL_SECS).nanos - now.nanos == 300_000_000_000,
        later(now, CHALLENGE_TTL_SECS).nanos - now.nanos == 60_000_000_000,
{
}

/// Nothing is accepted without a window or after its time; a window whose time
/// is over is closed, whatever was presented. A wrong code is counted and
/// changes nothing else of the window.
pub proof fn law_a_window_ends_with_its_time(
    w: NodeWindowView,
    presented: Seq<char>,
    now: Timestamp,
)
    ensures
        check(None, presented, now) == (false, None::<NodeWindowView>),
        now.nanos >= w.expires_at.nanos ==> check(Some(w), presented, now) == (
            false,
            None::<NodeWindowView>,
        ),
        check(Some(w), presented, now).0 ==> now.nanos < w.expires_at.nanos && auth::codes_agree(
            w.code,
            presented,
        ),
        now.nanos < w.expires_at.nanos && !auth::codes_agree(w.code, presented) && w.failed < 4
            ==> check(Some(w), presented, now).1 == Some(
            NodeWindowView { code: w.code, expires_at: w.expires_at, failed: w.failed + 1 },
        ),
        now.nanos < w.expires_at.nanos && !auth::codes_agree(w.code, presented) && w.failed >= 4
            ==> check(Some(w), presented, now).1 is None,
{
}

/// Pruning leaves exactly the challenges whose time is still to come, each as it
/// was.
pub proof fn law_pruning_leaves_the_live_challenges(
    challenges: Map<Seq<char>, OpenChallenge>,
    now: Timestamp,
    id: Seq<char>,
)
    ensures
        unexpired(challenges, now).dom().contains(id) <==> challenges.dom().contains(id)
            && now.nanos < challenges[id].expires_at.nanos,
        unexpired(challenges, now).dom().contains(id) ==> unexpired(challenges, now)[id]
            == challenges[id],
{
}

/// A node's name has between one and eighty characters, none of them a control
/// character; the ASCII ones are those below the space, and the delete.
pub proof fn law_node_names_are_bounded(name: Seq<char>, c: char)
    ensures
        is_device_name(name) <==> 1 <= name.len() <= 80 && !exists|i: int|
            0 <= i < name.len() && text::is_control(#[trigger] name[i]),
        c < ' ' || c == '\u{7f}' ==> text::is_control(c),
        ' ' <= c <= '~' ==> !text::is_control(c),
{
}

/// A node may ask to be a display, a voice or a room, and nothing else.
pub proof fn law_nodes_may_ask_for_three_classes(raw: Seq<char>)
    ensures
        grantable(raw) is Some <==> raw == "display-node"@ || raw == "voice-node"@ || raw
            == "room-node"@,
        grantable("display-node"@) == Some(DeviceClass::DisplayNode),
        grantable("voice-node"@) == Some(DeviceClass::VoiceNode),
        grantable("room-node"@) == Some(DeviceClass::RoomNode),
{
    reveal_strlit("owner-ui");
    reveal_strlit("display-node");
    reveal_strlit("voice-node");
    reveal_strlit("room-node");
    assert("owner-ui"@[0] == 'o');
    assert("display-node"@[0] == 'd');
    assert("voice-node"@[0] == 'v');
    assert("room-node"@[0] == 'r');
}

/// Pairing starts exactly with a name, a key and a class that will do, a code
/// that was accepted and room for one challenge more. What is wrong with the
/// request itself is told before the code is looked at, so a request that cannot
/// succeed costs no try; and a class that no node may have and a rejected code
/// leave a record.
pub proof fn law_pairing_starts_where_all_is_in_order(
    request: NodePairStartRequest,
    accepted: bool,
    room: bool,
)
    ensures
        start_refusal(request, accepted, room) is None <==> {
            &&& is_device_name(text::trimmed(request.device_name@))
            &&& signing::public_key_of(request.public_key@) is Some
            &&& grantable(request.requested_class@) is Some
            &&& accepted
            &&& room
        },
        presents_code(request) <==> {
            &&& is_device_name(text::trimmed(request.device_name@))
            &&& signing::public_key_of(request.public_key@) is Some
            &&& grantable(request.requested_class@) is Some
        },
        !presents_code(request) ==> start_refusal(request, accepted, room) == start_refusal(
            request,
            !accepted,
            room,
        ),
        start_refusal(request, accepted, room) matches Some((p, recorded)) ==> {
            &&& recorded is Some <==> p.status == 403
            &&& p.status == 429 <==> presents_code(request) && accepted
            &&& p.status == 400 <==> !is_device_name(text::trimmed(request.device_name@))
                || signing::public_key_of(request.public_key@) is None
        },
{
}

/// A challenge lets a node in exactly while it is open and its time is not over,
/// against a signature of its own nonce under its own key. A signature that was
/// well formed, in time and wrong is a forgery; none that is let in is.
pub proof fn law_a_challenge_admits_its_own_key(
    challenges: Map<Seq<char>, OpenChallenge>,
    id: Seq<char>,
    signature: Seq<char>,
    now: Timestamp,
)
    ensures
        admits(challenges, id, signature, now) <==> {
            &&& challenges.dom().contains(id)
            &&& now.nanos < challenges[id].expires_at.nanos
            &&& signing::proves(challenges[id].public_key@, challenges[id].nonce@, signature)
        },
        admits(challenges, id, signature, now) ==> !is_forgery(challenges[id], signature, now),
        is_forgery(challenges[id], signature, now) ==> signing::fixed_bytes(signature, 64) is Some
            && now.nanos < challenges[id].expires_at.nanos,
        challenge_rejected_view().status == 403,
{
}

/// The records of pairing: who opened a window and for how long, why an attempt
/// was refused, and which node was paired under which key.
pub proof fn law_node_pairing_is_recorded(
    device_id: Seq<char>,
    reason: Seq<char>,
    device: crate::identity::DeviceView,
    public_key: Seq<char>,
    scopes: Seq<Seq<char>>,
    now: Timestamp,
)
    ensures
        ({
            let opened = window_opened_event(device_id, now);
            &&& opened.occurred_at == now
            &&& opened.event_type == "device.pairing_window_opened"@
            &&& text::stripped(opened.actor, "device:"@) == Some(device_id)
            &&& opened.payload == seq![("ttlSeconds"@, audit::ValueView::Int(300))]
        }),
        ({
            let turned_away = refusal_event(reason, now);
            &&& turned_away.occurred_at == now
            &&& turned_away.event_type == "device.pairing_refused"@
            &&& turned_away.actor == "unauthenticated"@
            &&& turned_away.payload == seq![("reason"@, audit::ValueView::Text(reason))]
        }),
        ({
            let paired = node_paired_event(device, public_key, scopes, now);
            &&& paired.occurred_at == now
            &&& paired.event_type == "device.paired"@
            &&& paired.actor == "system"@
            &&& text::stripped(paired.target, "device:"@) == Some(device.id)
            &&& paired.payload.len() == 5
            &&& paired.payload[0] == ("deviceName"@, audit::ValueView::Text(device.name))
            &&& paired.payload[1] == ("deviceClass"@, audit::ValueView::Text(device.class.name()@))
            &&& paired.payload[2] == ("scopes"@, audit::ValueView::Texts(scopes))
            &&& paired.payload[3] == (
                "keyFingerprint"@,
                audit::ValueView::Text(crate::digest::text_digest_of(public_key).take(16)),
            )
            &&& paired.payload[4] == ("method"@, audit::ValueView::Text("challenge-response"@))
        }),
{
    text::law_a_prefix_is_taken_off(seq![], "device:"@, device_id);
    text::law_a_prefix_is_taken_off(seq![], "device:"@, device.id);
}

/// A node is paired exactly where the store paired it. Without an owner, or with
/// a key that is paired already, the request conflicts with what is there.
pub proof fn law_a_pairing_stands_where_it_was_stored(
    outcome: Result<NodePairOutcome, RepositoryError>,
)
    ensures
        outcome_problem(outcome) is None <==> outcome == Ok::<NodePairOutcome, RepositoryError>(
            NodePairOutcome::Paired,
        ),
        outcome_problem(outcome) matches Some(p) ==> p.status == (if outcome is Err {
            503u16
        } else {
            409u16
        }),
{
}

/// A window just opened, with nothing begun under it.
pub open spec fn freshly_open(
    window: Option<NodeWindowView>,
    challenges: Map<Seq<char>, OpenChallenge>,
    code: Seq<char>,
    now: Timestamp,
) -> bool {
    &&& window == Some(
        NodeWindowView { code, expires_at: later(now, WINDOW_TTL_SECS), failed: 0 },
    )
    &&& challenges == Map::<Seq<char>, OpenChallenge>::empty()
}

/// A challenge that holds what its request asked for.
pub open spec fn holds_request(c: OpenChallenge, request: NodePairStartRequest, now: Timestamp) -> bool {
    &&& c.device_name@ == text::trimmed(request.device_name@)
    &&& Some(c.class) == grantable(request.requested_class@)
    &&& c.expires_at == later(now, CHALLENGE_TTL_SECS)
    &&& signing::public_key_of(c.public_key@) == signing::public_key_of(request.public_key@)
}

/// What is recorded of an answer that is rejected, if anything.
pub open spec fn rejection_recorded(
    challenges: Map<Seq<char>, OpenChallenge>,
    id: Seq<char>,
    signature: Seq<char>,
    now: Timestamp,
) -> Option<Seq<char>> {
    if challenges.dom().contains(id) && is_forgery(challenges[id], signature, now) {
        Some("signature did not verify"@)
    } else {
        None
    }
}

/// How the outcome of a pairing leaves the window and the challenges.
pub open spec fn ends_as(
    outcome: Result<NodePairOutcome, RepositoryError>,
    before: (Option<NodeWindowView>, Map<Seq<char>, OpenChallenge>),
    after: (Option<NodeWindowView>, Map<Seq<char>, OpenChallenge>),
) -> bool {
    if outcome_problem(outcome) is None {
        after.0 is None && after.1 == Map::<Seq<char>, OpenChallenge>::empty()
    } else {
        after == before
    }
}

/// A window that was just opened takes its code for five minutes and no longer,
/// and no answer to a challenge from before it lets anyone in.
pub proof fn law_a_fresh_window_takes_its_code(
    window: Option<NodeWindowView>,
    challenges: Map<Seq<char>, OpenChallenge>,
    code: Seq<char>,
    now: Timestamp,
    then: Timestamp,
    id: Seq<char>,
    signature: Seq<char>,
)
    requires
        datable(now),
        freshly_open(window, challenges, code, now),
    ensures
        check(window, code, then).0 <==> then.nanos < now.nanos + 300_000_000_000,
        !admits(challenges, id, signature, then),
{
}

/// A challenge stands for its request: it lets in the key that was presented,
/// under the name and the class that were asked for, and for one minute.
pub proof fn law_a_challenge_stands_for_its_request(
    c: OpenChallenge,
    request: NodePairStartRequest,
    now: Timestamp,
    then: Timestamp,
    signature: Seq<char>,
)
    requires
        datable(now),
        holds_request(c, request, now),
    ensures
        answered(c, signature, then) ==> then.nanos < now.nanos + 60_000_000_000 && signing::proves(
            c.public_key@,
            c.nonce@,
            signature,
        ),
        then.nanos < now.nanos + 60_000_000_000 && signing::proves(
            c.public_key@,
            c.nonce@,
            signature,
        ) ==> answered(c, signature, then),
        signing::public_key_of(c.public_key@) == signing::public_key_of(request.public_key@),
        c.device_name@ == text::trimmed(request.device_name@),
        DeviceClass::named(request.requested_class@) == Some(c.class),
        !(c.class is OwnerUi),
{
}

/// Of the answers that are rejected, those are recorded that were signed in time
/// and signed wrong; a late one, a garbled one and one to no challenge are not.
pub proof fn law_wrong_signatures_are_recorded(
    challenges: Map<Seq<char>, OpenChallenge>,
    id: Seq<char>,
    signature: Seq<char>,
    now: Timestamp,
)
    ensures
        rejection_recorded(challenges, id, signature, now) is Some <==> {
            &&& challenges.dom().contains(id)
            &&& now.nanos < challenges[id].expires_at.nanos
            &&& signing::fixed_bytes(signature, 64) is Some
            &&& !signing::proves(challenges[id].public_key@, challenges[id].nonce@, signature)
        },
        rejection_recorded(challenges, id, signature, now) is Some ==> !admits(
            challenges,
            id,
            signature,
            now,
        ),
{
}

/// A refusal carries its problem, and a record exactly where there is a reason
/// to keep one.
pub proof fn law_a_refusal_carries_its_record(
    r: Refusal,
    p: problem::ProblemView,
    reason: Option<Seq<char>>,
    now: Timestamp,
)
    requires
        refused(r, p, reason, now),
    ensures
        r.problem@ == p,
        r.audit is Some <==> reason is Some,
        r.audit matches Some(event) ==> event@.payload.len() == 1 && event@.payload[0]
            == ("reason"@, audit::ValueView::Text(reason->0)) && event@.occurred_at == now,
{
}

/// A pairing that went through closes the window and drops every challenge, so
/// that nothing begun under it goes on; one that did not changes nothing.
pub proof fn law_a_pairing_closes_its_window(
    outcome: Result<NodePairOutcome, RepositoryError>,
    before: (Option<NodeWindowView>, Map<Seq<char>, OpenChallenge>),
    after: (Option<NodeWindowView>, Map<Seq<char>, OpenChallenge>),
    code: Seq<char>,
    id: Seq<char>,
    signature: Seq<char>,
    now: Timestamp,
)
    requires
        ends_as(outcome, before, after),
    ensures
        outcome == Ok::<NodePairOutcome, RepositoryError>(NodePairOutcome::Paired) ==> !check(
            after.0,
            code,
            now,
        ).0 && !admits(after.1, id, signature, now),
        outcome != Ok::<NodePairOutcome, RepositoryError>(NodePairOutcome::Paired) ==> after == before,
{
}

/// At most eight challenges are open at a time.
pub proof fn law_open_challenges_are_bounded(state: PairingState)
    requires
        state.wf(),
    ensures
        state.challenges@.dom().len() <= 8,
        MAX_OPEN_CHALLENGES == 8,
        state.window_view() matches Some(w) ==> w.failed < 5,
{
}

/// The code that a node branches on whose answer was rejected.
pub proof fn law_pairing_problems_have_their_codes()
    ensures
        challenge_rejected_view().status == 403 && challenge_rejected_view().code is IdentityChallengeRejected,
{
}

} // verus!
