//! Pairing the first device, and admitting requests by bearer token.
//!
//! A token is two hundred and fifty-six random bits, returned once in the pair
//! response and stored as a digest.

use vstd::prelude::*;

use crate::audit;
use crate::audit::{AuditEvent, AuditValue};
use crate::digest;
use crate::identity::{Device, DeviceClass, DeviceContext};
use crate::ids;
use crate::problem::{problem, unavailable, ErrorCode, ProblemDetails, RepositoryError};
use crate::text;
use crate::time::Timestamp;

verus! {

/// The class the bootstrap pairing code mints.
pub const BOOTSTRAP_DEVICE_CLASS: DeviceClass = DeviceClass::OwnerUi;

/// Wrong guesses tolerated before the window closes.
pub const MAX_FAILED_PAIR_ATTEMPTS: u32 = 5;

// ---------------------------------------------------------------------------
// Codes and tokens
// ---------------------------------------------------------------------------

/// Three decimal digits.
pub open spec fn three_digits(n: nat) -> Seq<char> {
    seq![
        text::digit_char(n / 100 % 10),
        text::digit_char(n / 10 % 10),
        text::digit_char(n % 10),
    ]
}

/// The pairing code of a number below a million.
pub open spec fn code_of(n: nat) -> Seq<char> {
    three_digits(n / 1000).push('-') + three_digits(n % 1000)
}

/// The form of a pairing code: three digits, a dash, three digits.
pub open spec fn is_pairing_code(s: Seq<char>) -> bool {
    &&& s.len() == 7
    &&& s[3] == '-'
    &&& forall|i: int| 0 <= i < 7 && i != 3 ==> text::is_digit(#[trigger] s[i])
}

/// The number in four bytes, highest first.
pub open spec fn be_value(bytes: Seq<u8>) -> nat {
    (bytes[0] as nat * 0x100_0000 + bytes[1] as nat * 0x1_0000 + bytes[2] as nat * 0x100
        + bytes[3] as nat) as nat
}

fn push_three(out: &mut String, n: u32)
    requires
        n < 1000,
    ensures
        final(out)@ == old(out)@ + three_digits(n as nat),
{
    let a: u8 = 48 + (n / 100 % 10) as u8;
    let b: u8 = 48 + (n / 10 % 10) as u8;
    let c: u8 = 48 + (n % 10) as u8;
    out.push(a as char);
    out.push(b as char);
    out.push(c as char);
    assert(out@ =~= old(out)@ + three_digits(n as nat));
}

/// The pairing code that four bytes give: their number, below a million.
pub fn pairing_code_from(bytes: &[u8]) -> (code: String)
    requires
        bytes@.len() == 4,
    ensures
        code@ == code_of(be_value(bytes@) % 1_000_000),
        is_pairing_code(code@),
{
    let n: u32 = bytes[0] as u32 * 0x100_0000 + bytes[1] as u32 * 0x1_0000 + bytes[2] as u32
        * 0x100 + bytes[3] as u32;
    let m: u32 = n % 1_000_000;
    let mut code = String::new();
    push_three(&mut code, m / 1000);
    code.push('-');
    push_three(&mut code, m % 1000);
    assert(code@ =~= code_of(m as nat));
    code
}

/// A fresh pairing code.
pub fn generate_pairing_code() -> (code: String)
    ensures
        is_pairing_code(code@),
{
    let bytes = digest::random_bytes(4);
    pairing_code_from(bytes.as_slice())
}

/// A fresh opaque bearer token: sixty-four hexadecimal digits.
pub fn generate_token() -> (token: String)
    ensures
        token@.len() == 64,
        digest::is_hex_of(token@, 32),
{
    let bytes = digest::random_bytes(32);
    let token = digest::hex_encode(bytes.as_slice());
    assert(bytes@.len() == 32 && token@ == digest::hex_of(bytes@));
    token
}

/// Whether two codes agree, compared by their digests.
pub open spec fn codes_agree(expected: Seq<char>, presented: Seq<char>) -> bool {
    digest::text_digest_of(expected) == digest::text_digest_of(presented)
}

/// Compare two codes by their digests, so that neither length nor content shows
/// in the time it takes.
pub fn codes_match(expected: &str, presented: &str) -> (b: bool)
    ensures
        b == codes_agree(expected@, presented@),
{
    text::same(
        digest::text_digest(expected).as_str(),
        digest::text_digest(presented).as_str(),
    )
}

// ---------------------------------------------------------------------------
// The bootstrap window
// ---------------------------------------------------------------------------

/// The one-time pairing window of a daemon without devices.
pub struct BootstrapWindow {
    /// The code, while the window is open.
    pub code: Option<String>,
    pub failed_attempts: u32,
}

/// What a window is, as values.
pub struct WindowView {
    pub code: Option<Seq<char>>,
    pub failed: nat,
}

impl View for BootstrapWindow {
    type V = WindowView;

    open spec fn view(&self) -> WindowView {
        WindowView { code: text::opt_view(self.code), failed: self.failed_attempts as nat }
    }
}

impl WindowView {
    /// An open window has attempts left.
    pub open spec fn wf(self) -> bool {
        self.code is Some ==> self.failed < MAX_FAILED_PAIR_ATTEMPTS
    }

    /// Whether a code is accepted, and the window after it was presented. An
    /// accepted code closes the window; so does the last tolerated wrong one.
    pub open spec fn present(self, presented: Seq<char>) -> (bool, WindowView) {
        match self.code {
            None => (false, self),
            Some(code) => if codes_agree(code, presented) {
                (true, WindowView { code: None, failed: self.failed })
            } else {
                (
                    false,
                    WindowView {
                        code: if self.failed + 1 >= MAX_FAILED_PAIR_ATTEMPTS {
                            None
                        } else {
                            self.code
                        },
                        failed: self.failed + 1,
                    },
                )
            },
        }
    }

    /// The window after a row of codes was presented.
    pub open spec fn present_all(self, presented: Seq<Seq<char>>) -> WindowView
        decreases presented.len(),
    {
        if presented.len() == 0 {
            self
        } else {
            self.present_all(presented.drop_last()).present(presented.last()).1
        }
    }
}

impl BootstrapWindow {
    /// Open a window exactly when the store says that there are no devices. An
    /// unreachable store opens none, and does not stop the start.
    pub fn bootstrap(device_count: Result<u64, RepositoryError>) -> (w: Self)
        ensures
            w@.wf(),
            w.failed_attempts == 0,
            w.code is Some <==> device_count == Ok::<u64, RepositoryError>(0),
            w.code matches Some(code) ==> is_pairing_code(code@),
    {
        match device_count {
            Ok(n) => if n == 0 {
                BootstrapWindow { code: Some(generate_pairing_code()), failed_attempts: 0 }
            } else {
                BootstrapWindow { code: None, failed_attempts: 0 }
            },
            Err(_) => BootstrapWindow { code: None, failed_attempts: 0 },
        }
    }

    pub fn current_pairing_code(&self) -> (code: Option<String>)
        ensures
            code == self.code,
    {
        text::copy_opt(&self.code)
    }

    /// Present a code. The right one is accepted once; repeated wrong guesses
    /// close the window.
    pub fn consume_code_if_matches(&mut self, presented: &str) -> (accepted: bool)
        requires
            old(self)@.wf(),
        ensures
            final(self)@.wf(),
            (accepted, final(self)@) == old(self)@.present(presented@),
    {
        let matched = match &self.code {
            Some(expected) => codes_match(expected.as_str(), presented),
            None => {
                return false;
            },
        };
        if matched {
            self.code = None;
            return true;
        }
        self.failed_attempts = self.failed_attempts + 1;
        if self.failed_attempts >= MAX_FAILED_PAIR_ATTEMPTS {
            self.code = None;
        }
        false
    }
}

/// The right code is accepted while the window is open, and a closed window
/// accepts none.
pub proof fn law_right_code_is_accepted(w: WindowView, presented: Seq<char>)
    ensures
        w.code == Some(presented) ==> w.present(presented).0,
        w.code is None ==> !w.present(presented).0 && w.present(presented).1 == w,
{
}

/// A code is good for one device: whatever is presented afterwards, nothing is
/// accepted again.
pub proof fn law_code_is_single_use(w: WindowView, accepted: Seq<char>, later: Seq<Seq<char>>, next: Seq<char>)
    requires
        w.present(accepted).0,
    ensures
        !w.present(accepted).1.present_all(later).present(next).0,
    decreases later.len(),
{
    lemma_closed_stays_closed(w.present(accepted).1, later);
}

proof fn lemma_closed_stays_closed(w: WindowView, later: Seq<Seq<char>>)
    requires
        w.code is None,
    ensures
        w.present_all(later) == w,
    decreases later.len(),
{
    if later.len() > 0 {
        lemma_closed_stays_closed(w, later.drop_last());
    }
}

proof fn lemma_wrong_guesses(w: WindowView, code: Seq<char>, guesses: Seq<Seq<char>>)
    requires
        w == (WindowView { code: Some(code), failed: 0 }),
        forall|i: int| 0 <= i < guesses.len() ==> !codes_agree(code, #[trigger] guesses[i]),
    ensures
        guesses.len() < MAX_FAILED_PAIR_ATTEMPTS ==> w.present_all(guesses) == (WindowView {
            code: Some(code),
            failed: guesses.len(),
        }),
        guesses.len() >= MAX_FAILED_PAIR_ATTEMPTS ==> w.present_all(guesses).code is None,
    decreases guesses.len(),
{
    if guesses.len() > 0 {
        let before = guesses.drop_last();
        assert(forall|i: int| 0 <= i < before.len() ==> before[i] == guesses[i]);
        lemma_wrong_guesses(w, code, before);
        assert(guesses.last() == guesses[guesses.len() - 1]);
    }
}

/// Five wrong guesses close the window: from then on the right code is refused
/// too. With fewer the window stays open.
pub proof fn law_wrong_guesses_close_the_window(code: Seq<char>, guesses: Seq<Seq<char>>)
    requires
        forall|i: int| 0 <= i < guesses.len() ==> !codes_agree(code, #[trigger] guesses[i]),
    ensures
        ({
            let opened = WindowView { code: Some(code), failed: 0 };
            opened.present_all(guesses).present(code).0 <==> guesses.len()
                < MAX_FAILED_PAIR_ATTEMPTS
        }),
{
    lemma_wrong_guesses(WindowView { code: Some(code), failed: 0 }, code, guesses);
}

// ---------------------------------------------------------------------------
// Pairing
// ---------------------------------------------------------------------------

/// A request to pair the first device.
pub struct PairRequest {
    pub device_name: String,
    pub pairing_code: String,
}

/// What a newly paired device is told. The token is in no other value.
pub struct PairResponse {
    pub device_id: String,
    pub device_token: String,
    pub device_class: String,
    pub scopes: Vec<String>,
    /// The listener's certificate fingerprint, where there is one.
    pub server_fingerprint: Option<String>,
}

/// A pairing that was admitted: what is stored, recorded and answered.
pub struct Pairing {
    pub device: Device,
    pub audit: AuditEvent,
    pub response: PairResponse,
}

/// The audit event of a bootstrap pairing.
pub open spec fn paired_event(
    device: crate::identity::DeviceView,
    scopes: Seq<Seq<char>>,
    now: Timestamp,
) -> audit::AuditView {
    audit::event_of(
        now,
        "system"@,
        "device.paired"@,
        "device:"@ + device.id,
        seq![
            ("deviceName"@, audit::ValueView::Text(device.name)),
            ("deviceClass"@, audit::ValueView::Text(device.class.name()@)),
            ("scopes"@, audit::ValueView::Texts(scopes)),
        ],
    )
}

/// Whether the parts of a pairing belong together: the token is the device's,
/// the device is named, classed and dated as it should be, and the record and
/// the answer speak of it.
pub open spec fn pairing_ok(
    p: Pairing,
    name: Seq<char>,
    class: DeviceClass,
    scopes: Seq<Seq<char>>,
    now: Timestamp,
) -> bool {
    &&& ids::is_ulid(p.device.id@)
    &&& ids::is_ulid(p.device.user_id@)
    &&& p.device.name@ == name
    &&& p.device.class == class
    &&& p.device.created_at == now
    &&& p.device.last_seen_at is None
    &&& p.device.revoked_at is None
    &&& p.device.revoked_reason is None
    &&& p.response.device_token@.len() == 64
    &&& p.device.token_hash@ == digest::text_digest_of(p.response.device_token@)
    &&& p.response.device_id@ == p.device.id@
    &&& p.response.device_class@ == class.name()@
    &&& text::views(p.response.scopes@) == scopes
}

/// Why a pairing request is refused, given whether its code was accepted.
pub open spec fn pair_refusal(name: Seq<char>, accepted: bool) -> Option<
    crate::problem::ProblemView,
> {
    if text::is_blank(name) {
        Some(
            crate::problem::problem_of(
                400,
                ErrorCode::ValidationFailed,
                "deviceName must not be empty"@,
                None,
            ),
        )
    } else if !accepted {
        Some(pairing_failed_view())
    } else {
        None
    }
}

/// The same answer whether the window is closed, expired or the code is wrong.
pub open spec fn pairing_failed_view() -> crate::problem::ProblemView {
    crate::problem::problem_of(
        403,
        ErrorCode::AuthPairingInvalid,
        "pairing failed"@,
        Some("no open pairing window matches the presented code"@),
    )
}

pub fn pairing_failed() -> (p: ProblemDetails)
    ensures
        p@ == pairing_failed_view(),
{
    problem(
        403,
        ErrorCode::AuthPairingInvalid,
        "pairing failed",
        Some("no open pairing window matches the presented code".to_owned()),
    )
}

/// The device, record and answer for a token and identifiers that were drawn.
pub fn bootstrap_pairing(
    id: String,
    user_id: String,
    token: String,
    name: &str,
    scopes: &Vec<String>,
    now: Timestamp,
) -> (p: Pairing)
    requires
        ids::is_ulid(id@),
        ids::is_ulid(user_id@),
        token@.len() == 64,
    ensures
        pairing_ok(p, name@, BOOTSTRAP_DEVICE_CLASS, text::views(scopes@), now),
        p.device.id@ == id@,
        p.device.user_id@ == user_id@,
        p.device.public_key is None,
        p.response.device_token@ == token@,
        p.response.server_fingerprint is None,
        p.audit@ == paired_event(p.device@, text::views(scopes@), now),
{
    let payload = audit::with_field(
        audit::with_field(
            audit::with_field(
                audit::no_fields(),
                "deviceName",
                AuditValue::Text(name.to_owned()),
            ),
            "deviceClass",
            AuditValue::Text(BOOTSTRAP_DEVICE_CLASS.as_str().to_owned()),
        ),
        "scopes",
        AuditValue::Texts(text::copy_texts(scopes)),
    );
    let event = AuditEvent {
        occurred_at: now,
        actor: "system".to_owned(),
        event_type: "device.paired".to_owned(),
        target: text::concat2("device:", id.as_str()),
        correlation_id: None,
        payload,
    };
    let device = Device {
        id: id.clone(),
        user_id,
        name: name.to_owned(),
        token_hash: digest::text_digest(token.as_str()),
        public_key: None,
        class: BOOTSTRAP_DEVICE_CLASS,
        created_at: now,
        last_seen_at: None,
        revoked_at: None,
        revoked_reason: None,
    };
    let response = PairResponse {
        device_id: id,
        device_token: token,
        device_class: BOOTSTRAP_DEVICE_CLASS.as_str().to_owned(),
        scopes: text::copy_texts(scopes),
        server_fingerprint: None,
    };
    let p = Pairing { device, audit: event, response };
    assert(p.audit@ =~= paired_event(p.device@, text::views(scopes@), now));
    p
}

/// Exchange the one-time code for a device token. `scopes` is what the class of
/// the new device holds. A request without a name does not touch the window.
pub fn pair(
    window: &mut BootstrapWindow,
    request: &PairRequest,
    scopes: &Vec<String>,
    now: Timestamp,
) -> (r: Result<Pairing, ProblemDetails>)
    requires
        old(window)@.wf(),
    ensures
        final(window)@.wf(),
        final(window)@ == (if text::is_blank(request.device_name@) {
            old(window)@
        } else {
            old(window)@.present(request.pairing_code@).1
        }),
        match pair_refusal(
            request.device_name@,
            old(window)@.present(request.pairing_code@).0,
        ) {
            Some(p) => r matches Err(e) && e@ == p,
            None => r matches Ok(p) && pairing_ok(
                p,
                request.device_name@,
                BOOTSTRAP_DEVICE_CLASS,
                text::views(scopes@),
                now,
            ) && digest::is_hex_of(p.response.device_token@, 32) && p.device.public_key is None
                && p.response.server_fingerprint is None && p.audit@ == paired_event(
                p.device@,
                text::views(scopes@),
                now,
            ),
        },
{
    if text::blank(request.device_name.as_str()) {
        return Err(
            problem(400, ErrorCode::ValidationFailed, "deviceName must not be empty", None),
        );
    }
    if !window.consume_code_if_matches(request.pairing_code.as_str()) {
        return Err(pairing_failed());
    }
    Ok(
        bootstrap_pairing(
            ids::fresh_id(),
            ids::fresh_id(),
            generate_token(),
            request.device_name.as_str(),
            scopes,
            now,
        ),
    )
}

/// The answer where a pairing could not be stored.
pub fn pairing_not_persisted() -> (p: ProblemDetails)
    ensures
        p@ == crate::problem::problem_of(
            503,
            ErrorCode::ProviderUnavailable,
            "pairing could not be persisted"@,
            None,
        ),
{
    unavailable("pairing could not be persisted")
}

// ---------------------------------------------------------------------------
// Bearer tokens
// ---------------------------------------------------------------------------

/// Offered as the first subprotocol, this marks the next one as a bearer token.
pub const WS_DEVICE_TOKEN_PROTOCOL: &'static str = "jarvis.device.v1";

/// The headers of a request that make it a WebSocket handshake.
pub struct Handshake {
    /// Whether `Sec-WebSocket-Key` is there.
    pub has_key: bool,
    /// The bytes of `Upgrade`, if it is there.
    pub upgrade: Option<Vec<u8>>,
    /// Each readable `Sec-WebSocket-Protocol` header.
    pub protocols: Vec<String>,
}

/// An ASCII letter in lower case, any other byte as it is.
pub open spec fn lower_byte(b: u8) -> u8 {
    if 65 <= b <= 90 {
        (b + 32) as u8
    } else {
        b
    }
}

/// `websocket`, in any case.
pub open spec fn names_websocket(bytes: Seq<u8>) -> bool {
    bytes.map_values(|b: u8| lower_byte(b)) == seq![
        119u8,
        101u8,
        98u8,
        115u8,
        111u8,
        99u8,
        107u8,
        101u8,
        116u8,
    ]
}

pub open spec fn is_handshake(h: Handshake) -> bool {
    h.has_key && (h.upgrade matches Some(bytes) && names_websocket(bytes@))
}

/// What the protocol headers offer, in order: comma-separated, trimmed.
pub open spec fn offered(lines: Seq<Seq<char>>) -> Seq<Seq<char>>
    decreases lines.len(),
{
    if lines.len() == 0 {
        seq![]
    } else {
        offered(lines.drop_last()) + text::split_at_each(lines.last(), ',').map_values(
            |s: Seq<char>| text::trimmed(s),
        )
    }
}

/// The token a handshake offers as its second protocol, behind the marker.
pub open spec fn subprotocol_token(h: Handshake) -> Option<Seq<char>> {
    let o = offered(text::views(h.protocols@));
    if is_handshake(h) && o.len() >= 2 && o[0] == WS_DEVICE_TOKEN_PROTOCOL@ {
        Some(o[1])
    } else {
        None
    }
}

fn lower(b: u8) -> (l: u8)
    ensures
        l == lower_byte(b),
{
    if 65 <= b && b <= 90 {
        b + 32
    } else {
        b
    }
}

fn is_websocket(bytes: &Vec<u8>) -> (b: bool)
    ensures
        b == names_websocket(bytes@),
{
    let ghost low = bytes@.map_values(|b: u8| lower_byte(b));
    let ghost word = seq![119u8, 101u8, 98u8, 115u8, 111u8, 99u8, 107u8, 101u8, 116u8];
    if bytes.len() != 9 {
        assert(low.len() != word.len());
        return false;
    }
    let b = lower(bytes[0]) == 119 && lower(bytes[1]) == 101 && lower(bytes[2]) == 98 && lower(
        bytes[3],
    ) == 115 && lower(bytes[4]) == 111 && lower(bytes[5]) == 99 && lower(bytes[6]) == 107 && lower(
        bytes[7],
    ) == 101 && lower(bytes[8]) == 116;
    proof {
        if b {
            assert(low =~= word);
        } else if low == word {
            assert(low[0] == 119 && low[1] == 101 && low[2] == 98 && low[3] == 115 && low[4] == 111
                && low[5] == 99 && low[6] == 107 && low[7] == 101 && low[8] == 116);
        }
    }
    b
}

fn offered_list(lines: &Vec<String>) -> (o: Vec<String>)
    ensures
        text::views(o@) == offered(text::views(lines@)),
{
    let mut o: Vec<String> = Vec::new();
    let mut i: usize = 0;
    let ghost all = text::views(lines@);
    assert(all.take(0) =~= seq![]);
    assert(text::views(o@) =~= seq![]);
    while i < lines.len()
        invariant
            i <= lines@.len(),
            all == text::views(lines@),
            text::views(o@) == offered(all.take(i as int)),
        decreases lines@.len() - i,
    {
        let parts = text::split(lines[i].as_str(), ',');
        let ghost pieces = text::split_at_each(lines@[i as int]@, ',').map_values(
            |s: Seq<char>| text::trimmed(s),
        );
        let ghost done = text::views(o@);
        let mut j: usize = 0;
        assert(done + pieces.take(0) =~= done);
        while j < parts.len()
            invariant
                j <= parts@.len(),
                text::views(parts@) == text::split_at_each(lines@[i as int]@, ','),
                i < lines@.len(),
                pieces == text::split_at_each(lines@[i as int]@, ',').map_values(
                    |s: Seq<char>| text::trimmed(s),
                ),
                text::views(o@) == done + pieces.take(j as int),
            decreases parts@.len() - j,
        {
            let ghost before = text::views(o@);
            assert(text::views(parts@)[j as int] == parts@[j as int]@);
            o.push(text::trim(parts[j].as_str()).to_owned());
            assert(text::views(o@) =~= before.push(pieces[j as int]));
            assert(pieces.take(j + 1) =~= pieces.take(j as int).push(pieces[j as int]));
            assert(text::views(o@) =~= done + pieces.take(j + 1));
            j = j + 1;
        }
        assert(pieces.take(parts@.len() as int) =~= pieces) by {
            assert(text::views(parts@).len() == parts@.len());
        }
        assert(all.take(i + 1).drop_last() =~= all.take(i as int));
        assert(all.take(i + 1).last() == lines@[i as int]@);
        i = i + 1;
    }
    assert(all.take(lines@.len() as int) =~= all);
    o
}

/// The device token that a WebSocket handshake carries as a subprotocol. On any
/// other request this is inert.
pub fn ws_subprotocol_token(h: &Handshake) -> (r: Option<String>)
    ensures
        text::opt_view(r) == subprotocol_token(*h),
{
    let upgrades = match &h.upgrade {
        Some(bytes) => is_websocket(bytes),
        None => false,
    };
    if !h.has_key || !upgrades {
        return None;
    }
    let o = offered_list(&h.protocols);
    assert(text::views(o@).len() == o@.len());
    if o.len() < 2 {
        return None;
    }
    assert(text::views(o@)[0] == o@[0]@ && text::views(o@)[1] == o@[1]@);
    if !text::same(o[0].as_str(), WS_DEVICE_TOKEN_PROTOCOL) {
        return None;
    }
    Some(o[1].clone())
}

/// The token that a request presents: the bearer token of its `Authorization`
/// header, or failing that the one of its handshake.
pub open spec fn token_of(authorization: Option<Seq<char>>, h: Handshake) -> Option<Seq<char>> {
    match authorization {
        Some(value) => match text::stripped(value, "Bearer "@) {
            Some(token) => Some(token),
            None => subprotocol_token(h),
        },
        None => subprotocol_token(h),
    }
}

pub fn presented_token(authorization: Option<&str>, h: &Handshake) -> (r: Option<String>)
    ensures
        text::opt_view(r) == token_of(
            match authorization {
                Some(v) => Some(v@),
                None => None,
            },
            *h,
        ),
{
    if let Some(value) = authorization {
        if let Some(token) = text::strip_prefix(value, "Bearer ") {
            return Some(token.to_owned());
        }
    }
    ws_subprotocol_token(h)
}

/// What the identity store is asked for: the digest of the presented token.
pub fn lookup_key(token: &str) -> (key: String)
    ensures
        key@ == digest::text_digest_of(token@),
{
    digest::text_digest(token)
}

/// What the identity store is to be asked for a request. One that presents no
/// token is refused before any question.
pub fn token_lookup(authorization: Option<&str>, h: &Handshake) -> (r: Result<
    String,
    ProblemDetails,
>)
    ensures
        match token_of(
            match authorization {
                Some(v) => Some(v@),
                None => None,
            },
            *h,
        ) {
            Some(token) => r matches Ok(key) && key@ == digest::text_digest_of(token),
            None => r matches Err(e) && e@ == unauthorized_view(),
        },
{
    match presented_token(authorization, h) {
        Some(token) => Ok(lookup_key(token.as_str())),
        None => Err(unauthorized()),
    }
}

pub open spec fn unauthorized_view() -> crate::problem::ProblemView {
    crate::problem::problem_of(
        401,
        ErrorCode::AuthInvalidToken,
        "missing, invalid, or revoked device token"@,
        None,
    )
}

pub fn unauthorized() -> (p: ProblemDetails)
    ensures
        p@ == unauthorized_view(),
{
    problem(
        401,
        ErrorCode::AuthInvalidToken,
        "missing, invalid, or revoked device token",
        None,
    )
}

/// Admit a request, given what the store found under its token and what the
/// class of that device holds. Fails closed.
pub fn require_device(
    found: Result<Option<Device>, RepositoryError>,
    scopes: Vec<String>,
) -> (r: Result<DeviceContext, ProblemDetails>)
    ensures
        lets_in(r, found, scopes),
        match found {
            Ok(Some(device)) => r matches Ok(c) && c.device_id@ == device.id@ && c.user_id@
                == device.user_id@ && c.class == device.class && c.scopes == scopes,
            Ok(None) => r matches Err(e) && e@ == unauthorized_view(),
            Err(_) => r matches Err(e) && e@ == crate::problem::problem_of(
                503,
                ErrorCode::ProviderUnavailable,
                "identity store unavailable"@,
                None,
            ),
        },
{
    match found {
        Ok(Some(device)) => Ok(
            DeviceContext {
                device_id: device.id,
                user_id: device.user_id,
                class: device.class,
                scopes,
            },
        ),
        Ok(None) => Err(unauthorized()),
        Err(_) => Err(unavailable("identity store unavailable")),
    }
}

proof fn lemma_three_digits_read(before: Seq<char>, n: nat)
    requires
        n < 1000,
    ensures
        text::digits_value(before + three_digits(n)) == 1000 * text::digits_value(before) + n,
{
    let a = text::digit_char(n / 100 % 10);
    let b = text::digit_char(n / 10 % 10);
    let c = text::digit_char(n % 10);
    let all = before + three_digits(n);
    assert(all =~= before.push(a).push(b).push(c));
    assert(all.drop_last() =~= before.push(a).push(b));
    assert(before.push(a).push(b).drop_last() =~= before.push(a));
    assert(before.push(a).drop_last() =~= before);
    let v = text::digits_value(before);
    assert(text::digits_value(before.push(a)) == 10 * v + n / 100 % 10);
    assert(text::digits_value(before.push(a).push(b)) == 10 * (10 * v + n / 100 % 10) + n / 10 % 10);
    assert(text::digits_value(all) == 10 * (10 * (10 * v + n / 100 % 10) + n / 10 % 10) + n % 10);
    assert(100 * (n / 100 % 10) + 10 * (n / 10 % 10) + n % 10 == n);
}

/// A pairing code is a number of six digits with a dash in the middle: the
/// digits, read on over the dash, are the number.
pub proof fn law_codes_are_read_as_their_number(n: nat)
    requires
        n < 1_000_000,
    ensures
        code_of(n).len() == 7,
        code_of(n)[3] == '-',
        text::plain_number(code_of(n).take(3) + code_of(n).skip(4)) == Some(n),
{
    let code = code_of(n);
    let high = three_digits(n / 1000);
    let low = three_digits(n % 1000);
    let digits = code.take(3) + code.skip(4);
    assert(code.take(3) =~= high);
    assert(code.skip(4) =~= low);
    assert(Seq::<char>::empty() + high =~= high);
    assert(text::digits_value(Seq::<char>::empty()) == 0);
    lemma_three_digits_read(Seq::empty(), n / 1000);
    lemma_three_digits_read(high, n % 1000);
    assert forall|i: int| 0 <= i < digits.len() implies text::is_digit(#[trigger] digits[i]) by {
        if i < 3 {
            assert(digits[i] == high[i]);
        } else {
            assert(digits[i] == low[i - 3]);
        }
    }
}

/// Four bytes are a number with the highest first.
pub proof fn law_the_highest_byte_comes_first(bytes: Seq<u8>)
    requires
        bytes.len() == 4,
    ensures
        be_value(bytes) == crate::pmtiles::header::le_value(bytes.reverse(), 0, 4),
{
    reveal_with_fuel(crate::pmtiles::header::le_value, 5);
}

/// A window closes at the fifth wrong code, and the right one opens nothing
/// after that; four wrong ones leave it open.
pub proof fn law_the_fifth_wrong_code_closes_the_window(code: Seq<char>, guesses: Seq<Seq<char>>)
    requires
        forall|i: int| 0 <= i < guesses.len() ==> !codes_agree(code, #[trigger] guesses[i]),
    ensures
        (WindowView { code: Some(code), failed: 0 }).present_all(guesses).present(code).0
            <==> guesses.len() <= 4,
{
    law_wrong_guesses_close_the_window(code, guesses);
}

/// A device pairs exactly with a name that is more than white space and a code
/// that was accepted; the name is looked at first.
pub proof fn law_pairing_wants_a_name_and_a_code(name: Seq<char>, accepted: bool)
    ensures
        pair_refusal(name, accepted) is None <==> text::trimmed(name).len() > 0 && accepted,
        pair_refusal(name, accepted) matches Some(p) ==> p.status == (if text::trimmed(name).len()
            == 0 {
            400u16
        } else {
            403u16
        }),
        unauthorized_view().status == 401,
{
}

/// The record of a pairing names the device, its class and what it may do.
pub proof fn law_pairings_are_recorded(
    device: crate::identity::DeviceView,
    scopes: Seq<Seq<char>>,
    now: Timestamp,
)
    ensures
        ({
            let r = paired_event(device, scopes, now);
            &&& r.occurred_at == now
            &&& r.actor == "system"@
            &&& r.event_type == "device.paired"@
            &&& text::stripped(r.target, "device:"@) == Some(device.id)
            &&& r.payload.len() == 3
            &&& r.payload[0] == ("deviceName"@, audit::ValueView::Text(device.name))
            &&& r.payload[1] == ("deviceClass"@, audit::ValueView::Text(device.class.name()@))
            &&& r.payload[2] == ("scopes"@, audit::ValueView::Texts(scopes))
        }),
{
    text::law_a_prefix_is_taken_off(seq![], "device:"@, device.id);
}

/// The protocols that are offered stand in the order of their lines, and within
/// a line in the order of their commas.
pub proof fn law_protocols_keep_their_order(a: Seq<Seq<char>>, b: Seq<Seq<char>>, line: Seq<char>, i: int)
    ensures
        offered(a + b) == offered(a) + offered(b),
        offered(seq![line]).len() == text::split_at_each(line, ',').len(),
        0 <= i < offered(seq![line]).len() ==> offered(seq![line])[i] == text::trimmed(
            text::split_at_each(line, ',')[i],
        ),
    decreases b.len(),
{
    assert(seq![line].drop_last() =~= Seq::<Seq<char>>::empty());
    assert(seq![line].last() == line);
    assert(offered(Seq::<Seq<char>>::empty()) =~= Seq::<Seq<char>>::empty());
    if b.len() == 0 {
        assert(a + b =~= a);
        assert(offered(a) + offered(b) =~= offered(a));
    } else {
        law_protocols_keep_their_order(a, b.drop_last(), line, i);
        assert((a + b).drop_last() =~= a + b.drop_last());
        assert(offered(a + b) =~= offered(a) + offered(b));
    }
}

/// Where a request's token comes from: what follows `Bearer` in the header, and
/// else the second protocol of a handshake whose first is the device protocol.
/// A header of any other kind does not stand in the handshake's way, and no
/// other request has a token.
pub proof fn law_tokens_come_from_the_header_or_the_handshake(
    authorization: Option<Seq<char>>,
    h: Handshake,
    token: Seq<char>,
)
    ensures
        token_of(Some("Bearer "@ + token), h) == Some(token),
        (authorization is None || !"Bearer "@.is_prefix_of(authorization->0)) ==> {
            let o = offered(text::views(h.protocols@));
            &&& token_of(authorization, h) is Some <==> {
                &&& h.has_key
                &&& h.upgrade is Some
                &&& names_websocket(h.upgrade->0@)
                &&& o.len() >= 2
                &&& o[0] == "jarvis.device.v1"@
            }
            &&& token_of(authorization, h) is Some ==> token_of(authorization, h)->0 == o[1]
        },
{
    text::law_a_prefix_is_taken_off(seq![], "Bearer "@, token);
}

/// The protocol a handshake asks for is `websocket`, in capitals or not.
pub proof fn law_the_upgrade_is_websocket_in_either_case(bytes: Seq<u8>)
    ensures
        names_websocket(bytes) <==> bytes.len() == 9 && forall|i: int|
            0 <= i < 9 ==> #[trigger] bytes[i] as int == "websocket"@[i] as int || bytes[i] as int
                == "WEBSOCKET"@[i] as int,
{
    reveal_strlit("websocket");
    reveal_strlit("WEBSOCKET");
    let word = seq![119u8, 101u8, 98u8, 115u8, 111u8, 99u8, 107u8, 101u8, 116u8];
    let lowered = bytes.map_values(|b: u8| lower_byte(b));
    assert forall|i: int| 0 <= i < 9 implies word[i] as int == "websocket"@[i] as int && word[i]
        - 32 == "WEBSOCKET"@[i] as int by {}
    if names_websocket(bytes) {
        assert(lowered.len() == 9);
        assert forall|i: int| 0 <= i < 9 implies #[trigger] bytes[i] as int == "websocket"@[i] as int
            || bytes[i] as int == "WEBSOCKET"@[i] as int by {
            assert(lowered[i] == word[i]);
        }
    }
    if bytes.len() == 9 && (forall|i: int|
        0 <= i < 9 ==> #[trigger] bytes[i] as int == "websocket"@[i] as int || bytes[i] as int
            == "WEBSOCKET"@[i] as int) {
        assert forall|i: int| 0 <= i < 9 implies lowered[i] == word[i] by {
            assert(bytes[i] as int == "websocket"@[i] as int || bytes[i] as int
                == "WEBSOCKET"@[i] as int);
        }
        assert(lowered =~= word);
    }
}

/// What a look for the device behind a token is answered with.
pub open spec fn lets_in(
    r: Result<DeviceContext, ProblemDetails>,
    found: Result<Option<Device>, RepositoryError>,
    scopes: Vec<String>,
) -> bool {
    match found {
        Ok(Some(device)) => r matches Ok(c) && c.device_id@ == device.id@ && c.user_id@
            == device.user_id@ && c.class == device.class && c.scopes == scopes,
        Ok(None) => r matches Err(e) && e@ == unauthorized_view(),
        Err(_) => r matches Err(e) && e@ == crate::problem::problem_of(
            503,
            ErrorCode::ProviderUnavailable,
            "identity store unavailable"@,
            None,
        ),
    }
}

/// A request comes in exactly under a device that the store found for its token,
/// as that device and with its scopes. A token that belongs to no device is
/// unauthorized, and a broken store lets nobody in.
pub proof fn law_a_request_comes_in_as_its_device(
    r: Result<DeviceContext, ProblemDetails>,
    found: Result<Option<Device>, RepositoryError>,
    scopes: Vec<String>,
)
    requires
        lets_in(r, found, scopes),
    ensures
        r is Ok <==> found is Ok && found->Ok_0 is Some,
        r matches Ok(c) ==> {
            let device = found->Ok_0->0;
            &&& c.device_id@ == device.id@
            &&& c.user_id@ == device.user_id@
            &&& c.class == device.class
            &&& c.scopes == scopes
        },
        r matches Err(e) ==> e.status == (if found is Ok {
            401u16
        } else {
            503u16
        }),
{
}

/// A pairing makes a fresh device of the name and the class that were asked for:
/// it was never seen and never revoked, it is made known by the hash of its token
/// alone, and the token is in the answer and nowhere else.
pub proof fn law_a_pairing_makes_a_fresh_device(
    p: Pairing,
    name: Seq<char>,
    class: DeviceClass,
    scopes: Seq<Seq<char>>,
    now: Timestamp,
)
    requires
        pairing_ok(p, name, class, scopes, now),
    ensures
        p.device.name@ == name,
        p.device.class == class,
        p.device.created_at == now,
        p.device.last_seen_at is None && p.device.revoked_at is None,
        p.device.revoked_reason is None,
        p.device.token_hash@ == digest::text_digest_of(p.response.device_token@),
        p.response.device_token@.len() == 64,
        p.response.device_id@ == p.device.id@,
        DeviceClass::named(p.response.device_class@) == Some(class),
        text::views(p.response.scopes@) == scopes,
        ids::is_ulid(p.device.id@) && ids::is_ulid(p.device.user_id@),
{
    crate::identity::law_class_names_round_trip(class);
}

/// The codes that a client that is not let in branches on.
pub proof fn law_auth_problems_have_their_codes()
    ensures
        pairing_failed_view().status == 403 && pairing_failed_view().code is AuthPairingInvalid,
        unauthorized_view().status == 401 && unauthorized_view().code is AuthInvalidToken,
{
}

} // verus!
