//! Devices, their classes and what a caller may do.

use vstd::prelude::*;

use crate::text;
use crate::time::Timestamp;

verus! {

/// What kind of client a device is.
#[derive(Debug, Clone, Copy, PartialEq, Eq, Structural)]
pub enum DeviceClass {
    /// The owner's own client: the one class that carries tool authority.
    OwnerUi,
    DisplayNode,
    VoiceNode,
    RoomNode,
}

impl DeviceClass {
    pub open spec fn name(self) -> &'static str {
        match self {
            DeviceClass::OwnerUi => "owner-ui",
            DeviceClass::DisplayNode => "display-node",
            DeviceClass::VoiceNode => "voice-node",
            DeviceClass::RoomNode => "room-node",
        }
    }

    pub fn as_str(self) -> (s: &'static str)
        ensures
            s == self.name(),
    {
        match self {
            DeviceClass::OwnerUi => "owner-ui",
            DeviceClass::DisplayNode => "display-node",
            DeviceClass::VoiceNode => "voice-node",
            DeviceClass::RoomNode => "room-node",
        }
    }

    pub open spec fn named(raw: Seq<char>) -> Option<DeviceClass> {
        if raw == "owner-ui"@ {
            Some(DeviceClass::OwnerUi)
        } else if raw == "display-node"@ {
            Some(DeviceClass::DisplayNode)
        } else if raw == "voice-node"@ {
            Some(DeviceClass::VoiceNode)
        } else if raw == "room-node"@ {
            Some(DeviceClass::RoomNode)
        } else {
            None
        }
    }

    /// The class with the given name.
    pub fn parse(raw: &str) -> (r: Option<DeviceClass>)
        ensures
            r == Self::named(raw@),
    {
        if text::same(raw, "owner-ui") {
            Some(DeviceClass::OwnerUi)
        } else if text::same(raw, "display-node") {
            Some(DeviceClass::DisplayNode)
        } else if text::same(raw, "voice-node") {
            Some(DeviceClass::VoiceNode)
        } else if text::same(raw, "room-node") {
            Some(DeviceClass::RoomNode)
        } else {
            None
        }
    }
}

/// Reading a class by its name gives the class.
pub proof fn law_class_names_round_trip(class: DeviceClass)
    ensures
        DeviceClass::named(class.name()@) == Some(class),
{
    reveal_strlit("owner-ui");
    reveal_strlit("display-node");
    reveal_strlit("voice-node");
    reveal_strlit("room-node");
    assert("owner-ui"@.len() == 8);
    assert("display-node"@.len() == 12);
    assert("voice-node"@.len() == 10);
    assert("room-node"@.len() == 9);
}

/// The scope that only the owner's own clients hold.
pub const UI_SCOPE: &'static str = "ui";

/// A paired device.
#[derive(Debug)]
pub struct Device {
    pub id: String,
    pub user_id: String,
    pub name: String,
    /// Digest of the token; the token itself is never kept.
    pub token_hash: String,
    pub public_key: Option<String>,
    pub class: DeviceClass,
    pub created_at: Timestamp,
    pub last_seen_at: Option<Timestamp>,
    pub revoked_at: Option<Timestamp>,
    pub revoked_reason: Option<String>,
}

/// What a device is, as values.
#[verifier::ext_equal]
pub struct DeviceView {
    pub id: Seq<char>,
    pub user_id: Seq<char>,
    pub name: Seq<char>,
    pub token_hash: Seq<char>,
    pub public_key: Option<Seq<char>>,
    pub class: DeviceClass,
    pub created_at: Timestamp,
    pub last_seen_at: Option<Timestamp>,
    pub revoked_at: Option<Timestamp>,
    pub revoked_reason: Option<Seq<char>>,
}

impl View for Device {
    type V = DeviceView;

    open spec fn view(&self) -> DeviceView {
        DeviceView {
            id: self.id@,
            user_id: self.user_id@,
            name: self.name@,
            token_hash: self.token_hash@,
            public_key: text::opt_view(self.public_key),
            class: self.class,
            created_at: self.created_at,
            last_seen_at: self.last_seen_at,
            revoked_at: self.revoked_at,
            revoked_reason: text::opt_view(self.revoked_reason),
        }
    }
}

impl Device {
    /// A device that was not revoked.
    pub fn is_active(&self) -> (b: bool)
        ensures
            b == (self.revoked_at is None),
    {
        self.revoked_at.is_none()
    }
}

/// Identity attached to an authenticated request.
#[derive(Debug)]
pub struct DeviceContext {
    pub device_id: String,
    pub user_id: String,
    /// What kind of client this is; the source of `scopes`.
    pub class: DeviceClass,
    /// Derived from `class`, never read back from storage.
    pub scopes: Vec<String>,
}

impl DeviceContext {
    pub open spec fn spec_holds(self, scope: Seq<char>) -> bool {
        text::views(self.scopes@).contains(scope)
    }

    pub fn holds(&self, scope: &str) -> (b: bool)
        ensures
            b == self.spec_holds(scope@),
    {
        text::contains_text(&self.scopes, scope)
    }

    /// Whether the caller holds the owner's scope.
    pub fn holds_ui(&self) -> (b: bool)
        ensures
            b == self.spec_holds(UI_SCOPE@),
    {
        self.holds(UI_SCOPE)
    }
}

} // verus!
