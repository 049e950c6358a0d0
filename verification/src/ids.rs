//! Identifiers of the federation: server names, users, rooms, events.
//!
//! The surrounding router parses identifiers off the wire; this library
//! receives them already split into their meaningful parts, so that every
//! rule that reads a part (a user's server, a host under an operator ban)
//! is stated and proved over plain values.

use vstd::prelude::*;
use vstd::string::StringExecFns;

verus! {

/// The name of a homeserver: a host, optionally with an explicit port.
///
/// Two server names denote the same server exactly when both parts agree.
#[derive(Debug, PartialEq, Eq)]
pub struct ServerName {
    pub host: String,
    pub port: Option<u16>,
}

impl ServerName {
    /// Mathematical equality of two server names.
    pub open spec fn same(self, other: ServerName) -> bool {
        self.host@ == other.host@ && self.port == other.port
    }

    /// Decides whether `self` and `other` name the same server.
    pub fn matches(&self, other: &ServerName) -> (r: bool)
        ensures
            r == self.same(*other),
    {
        if self.host == other.host {
            match (&self.port, &other.port) {
                (Some(a), Some(b)) => *a == *b,
                (None, None) => true,
                _ => false,
            }
        } else {
            false
        }
    }
}

/// A user identifier: a local part qualified by the server the user
/// belongs to, written `@localpart:server` on the wire.
#[derive(Debug, PartialEq, Eq)]
pub struct UserId {
    pub localpart: String,
    pub server: ServerName,
}

impl UserId {
    /// Mathematical equality of two user identifiers.
    pub open spec fn same(self, other: UserId) -> bool {
        self.localpart@ == other.localpart@ && self.server.same(other.server)
    }

    /// Decides whether `self` and `other` identify the same user.
    pub fn matches(&self, other: &UserId) -> (r: bool)
        ensures
            r == self.same(*other),
    {
        self.localpart == other.localpart && self.server.matches(&other.server)
    }

    /// The identifier as written on the wire: the `@` sigil, the local
    /// part, a colon, and the server's host.  No port is rendered — the
    /// rules in this crate compare server names by their parts and never
    /// re-parse rendered text.
    pub open spec fn full_spec(self) -> Seq<char> {
        seq!['@'] + self.localpart@ + seq![':'] + self.server.host@
    }

    /// Renders the identifier as it appears on the wire:
    /// `@localpart:host`.
    pub fn render(&self) -> (r: String)
        ensures
            r@ == self.full_spec(),
    {
        proof {
            reveal_strlit("@");
            reveal_strlit(":");
        }
        let mut out = String::from_str("@");
        out.append(self.localpart.as_str());
        out.append(":");
        out.append(self.server.host.as_str());
        proof {
            assert(out@ =~= self.full_spec());
        }
        out
    }
}

/// A room identifier: an opaque local part assigned by the server that
/// created the room, which may carry that server's name.
#[derive(Debug, PartialEq, Eq)]
pub struct RoomId {
    pub opaque: String,
    pub server: Option<ServerName>,
}

impl RoomId {
    /// Mathematical equality of two room identifiers.
    pub open spec fn same(self, other: RoomId) -> bool {
        self.opaque@ == other.opaque@ && match (self.server, other.server) {
            (Some(a), Some(b)) => a.same(b),
            (None, None) => true,
            _ => false,
        }
    }

    /// Decides whether `self` and `other` identify the same room.
    pub fn matches(&self, other: &RoomId) -> (r: bool)
        ensures
            r == self.same(*other),
    {
        if self.opaque == other.opaque {
            match (&self.server, &other.server) {
                (Some(a), Some(b)) => a.matches(b),
                (None, None) => true,
                _ => false,
            }
        } else {
            false
        }
    }
}

/// An event identifier, derived by the store from the event's content hash
/// and opaque to every rule in this crate.
#[derive(Debug, PartialEq, Eq)]
pub struct EventId {
    pub id: String,
}

impl EventId {
    /// Mathematical equality of two event identifiers.
    pub open spec fn same(self, other: EventId) -> bool {
        self.id@ == other.id@
    }

    /// Decides whether `self` and `other` identify the same event.
    pub fn matches(&self, other: &EventId) -> (r: bool)
        ensures
            r == self.same(*other),
    {
        self.id == other.id
    }
}

impl Clone for ServerName {
    /// A copy indistinguishable from the original.
    fn clone(&self) -> (res: Self)
        ensures
            res == *self,
    {
        ServerName { host: self.host.clone(), port: self.port }
    }
}

impl Clone for UserId {
    /// A copy indistinguishable from the original.
    fn clone(&self) -> (res: Self)
        ensures
            res == *self,
    {
        UserId { localpart: self.localpart.clone(), server: self.server.clone() }
    }
}

impl Clone for RoomId {
    /// A copy indistinguishable from the original.
    fn clone(&self) -> (res: Self)
        ensures
            res == *self,
    {
        RoomId {
            opaque: self.opaque.clone(),
            server: match &self.server {
                Some(s) => Some(s.clone()),
                None => None,
            },
        }
    }
}

impl Clone for EventId {
    /// A copy indistinguishable from the original.
    fn clone(&self) -> (res: Self)
        ensures
            res == *self,
    {
        EventId { id: self.id.clone() }
    }
}

/// The membership a user holds in a room.
#[derive(Clone, Copy, Debug, PartialEq, Eq, Structural)]
pub enum Membership {
    Join,
    Invite,
    Knock,
    Leave,
    Ban,
}

} // verus!
