//! The composite authorization predicate gating inbound federation
//! requests.
//!
//! Five independent sub-checks are fetched (in the real server,
//! concurrently — none may observe another's result) and then combined by
//! a fixed, ordered decision rule.  The rule itself is a pure function of
//! the five results, kept separate so it is provable and testable on its
//! own.

use vstd::prelude::*;

use crate::error::Error;
use crate::ids::{EventId, RoomId, ServerName};
use crate::store::Homeserver;

verus! {

/// The resolved results of the five sub-checks for one request.
pub struct AccessInputs {
    /// Does the room's access-control list admit the origin server?
    pub acl_ok: bool,
    /// Is the room's history visible to any server?
    pub world_readable: bool,
    /// Does any user of the origin server have a non-left, non-banned
    /// membership in the room?
    pub server_in_room: bool,
    /// How many users of this server are mid-knock in the room (a local
    /// knocker must be able to see enough of the room to finish the
    /// knock).
    pub knock_count: usize,
    /// Whether the origin may see the specific event asked about; absent
    /// when no event was named.
    pub visible_at_event: Option<bool>,
}

/// The fixed decision rule over the five resolved sub-checks, evaluated in
/// this order: an access-control denial first, then absence from the room
/// (unless world readable or carved out by a local knocker), then
/// event-level visibility; otherwise the request is allowed.
pub open spec fn decision_spec(i: AccessInputs) -> Option<Error> {
    if !i.acl_ok {
        Some(Error::ServerAccessDenied)
    } else if !i.world_readable && !i.server_in_room && i.knock_count == 0 {
        Some(Error::ServerNotInRoom)
    } else if i.visible_at_event == Some(false) {
        Some(Error::EventNotVisible)
    } else {
        None
    }
}

/// Combines the five resolved sub-checks.  The result is a pure function
/// of the inputs and follows [`decision_spec`] exactly, so every boolean
/// combination is pinned down.
pub fn decide(i: &AccessInputs) -> (r: Result<(), Error>)
    ensures
        match decision_spec(*i) {
            Some(e) => r == Result::<(), Error>::Err(e),
            None => r is Ok,
        },
{
    if !i.acl_ok {
        Err(Error::ServerAccessDenied)
    } else if !i.world_readable && !i.server_in_room && i.knock_count == 0 {
        Err(Error::ServerNotInRoom)
    } else {
        match i.visible_at_event {
            Some(false) => Err(Error::EventNotVisible),
            _ => Ok(()),
        }
    }
}

/// One inbound federation request to be gated: the requesting server, the
/// room it asks about, and optionally one specific event.
pub struct AccessCheck {
    pub origin: ServerName,
    pub room_id: RoomId,
    pub event_id: Option<EventId>,
}

impl AccessCheck {
    /// What the whole predicate decides for this request against the
    /// server's data: the five sub-checks resolved from the tables, then
    /// the ordered decision rule.
    pub open spec fn verdict_spec(self, hs: Homeserver) -> Option<Error> {
        decision_spec(
            AccessInputs {
                acl_ok: hs.acl_ok_spec(self.origin, self.room_id),
                world_readable: hs.world_readable_spec(self.room_id),
                server_in_room: hs.server_in_room_spec(self.origin, self.room_id),
                // Only whether the count is zero matters to the rule, so
                // any witness count stands for the real one here.
                knock_count: if hs.knock_count_spec(self.room_id) == 0 {
                    0
                } else {
                    1
                },
                visible_at_event: match self.event_id {
                    Some(e) => Some(hs.can_see_spec(self.origin, self.room_id, e)),
                    None => None,
                },
            },
        )
    }

    /// Gates the request: resolves the five sub-checks against the
    /// server's data and applies the decision rule.
    pub fn check(&self, hs: &Homeserver) -> (r: Result<(), Error>)
        ensures
            match self.verdict_spec(*hs) {
                Some(e) => r == Result::<(), Error>::Err(e),
                None => r is Ok,
            },
    {
        let inputs = AccessInputs {
            acl_ok: hs.acl_check(&self.origin, &self.room_id),
            world_readable: hs.is_world_readable(&self.room_id),
            server_in_room: hs.server_in_room(&self.origin, &self.room_id),
            knock_count: hs.room_members_knocked(&self.room_id),
            visible_at_event: match &self.event_id {
                Some(e) => Some(hs.server_can_see_event(&self.origin, &self.room_id, e)),
                None => None,
            },
        };
        decide(&inputs)
    }
}

/// Gates one inbound request: the five sub-checks are resolved against
/// the server's data and combined by the ordered decision rule.
pub fn check_access(
    hs: &Homeserver,
    origin: &ServerName,
    room_id: &RoomId,
    event_id: Option<&EventId>,
) -> (r: Result<(), Error>)
    ensures
        ({
            let gate = AccessCheck {
                origin: *origin,
                room_id: *room_id,
                event_id: match event_id {
                    Some(e) => Some(*e),
                    None => None,
                },
            };
            match gate.verdict_spec(*hs) {
                Some(e) => r == Result::<(), Error>::Err(e),
                None => r is Ok,
            }
        }),
{
    let gate = AccessCheck {
        origin: origin.clone(),
        room_id: room_id.clone(),
        event_id: match event_id {
            Some(e) => Some(e.clone()),
            None => None,
        },
    };
    gate.check(hs)
}

} // verus!
