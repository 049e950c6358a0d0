//! Events (PDUs) and their wire form.

use vstd::prelude::*;

use crate::ids::{EventId, Membership, RoomId, UserId};
use crate::version::RoomVersion;

verus! {

/// The content of an event as every rule in this crate reads it: the
/// signed, immutable record minus its identifier.  The fields this
/// subsystem never inspects (signatures, hashes, timestamps, free-form
/// content) are owned by the store and stay outside the model.
#[derive(Debug, PartialEq, Eq)]
pub struct PduBody {
    /// The room the event belongs to.
    pub room_id: RoomId,
    /// The user the event was sent on behalf of.
    pub sender: UserId,
    /// The event type, such as `m.room.member`.
    pub kind: String,
    /// The state key, present exactly for state events.
    pub state_key: Option<String>,
    /// The membership the content declares, for membership events.
    pub membership: Option<Membership>,
    /// The identifiers of the events that authorize this event's existence.
    pub auth_events: Vec<EventId>,
}

/// Mathematical equality of two event bodies: every field agrees, the
/// authorizing identifiers as a sequence.
pub open spec fn same_body(a: PduBody, b: PduBody) -> bool {
    &&& a.room_id == b.room_id
    &&& a.sender == b.sender
    &&& a.kind == b.kind
    &&& a.state_key == b.state_key
    &&& a.membership == b.membership
    &&& a.auth_events@ == b.auth_events@
}

/// A stored event: its content-derived identifier and its body.
#[derive(Debug, PartialEq, Eq)]
pub struct Pdu {
    pub id: EventId,
    pub body: PduBody,
}

/// An event as transmitted to a peer: the body unchanged, and the event id
/// as an explicit field exactly where the formatting rule asks for it.
#[derive(Debug, PartialEq, Eq)]
pub struct WireEvent {
    pub event_id: Option<EventId>,
    pub body: PduBody,
}

impl Clone for PduBody {
    /// A copy indistinguishable from the original.
    fn clone(&self) -> (res: Self)
        ensures
            same_body(res, *self),
    {
        let mut auth_events: Vec<EventId> = Vec::new();
        let mut i: usize = 0;
        while i < self.auth_events.len()
            invariant
                i <= self.auth_events.len(),
                auth_events@.len() == i as int,
                forall|j: int| 0 <= j < i ==> auth_events@[j] == self.auth_events@[j],
            decreases self.auth_events.len() - i,
        {
            auth_events.push(self.auth_events[i].clone());
            i = i + 1;
        }
        proof {
            assert(auth_events@ =~= self.auth_events@);
        }
        PduBody {
            room_id: self.room_id.clone(),
            sender: self.sender.clone(),
            kind: self.kind.clone(),
            state_key: match &self.state_key {
                Some(k) => Some(k.clone()),
                None => None,
            },
            membership: self.membership,
            auth_events,
        }
    }
}

impl Clone for Pdu {
    /// A copy indistinguishable from the original.
    fn clone(&self) -> (res: Self)
        ensures
            res.id == self.id,
            same_body(res.body, self.body),
    {
        Pdu { id: self.id.clone(), body: self.body.clone() }
    }
}

/// Whether a wire event is the correct transmission of `pdu` under
/// `version`: `None` selects the general rule, which omits the event id;
/// `Some(v)` includes the id exactly for versions below 3.
pub open spec fn formatted_spec(pdu: Pdu, version: Option<RoomVersion>, wire: WireEvent) -> bool {
    &&& same_body(wire.body, pdu.body)
    &&& match version {
        Some(v) => if v.event_id_on_wire() {
            wire.event_id == Some(pdu.id)
        } else {
            wire.event_id is None
        },
        None => wire.event_id is None,
    }
}

/// Formats a stored event for transmission.  With `Some(version)` the
/// version-specific rule applies: versions below 3 include the event id as
/// an explicit field, later versions omit it.  With `None` the general
/// federation rule applies, which omits the id.
pub fn format_pdu(pdu: &Pdu, version: Option<&RoomVersion>) -> (wire: WireEvent)
    ensures
        formatted_spec(
            *pdu,
            match version {
                Some(v) => Some(*v),
                None => None,
            },
            wire,
        ),
{
    let with_id = match version {
        Some(v) => v.wire_includes_event_id(),
        None => false,
    };
    WireEvent {
        event_id: if with_id {
            Some(pdu.id.clone())
        } else {
            None
        },
        body: pdu.body.clone(),
    }
}

/// Formatting changes only the presence of the `event_id` field: whatever
/// two version rules are chosen, the transmitted bodies are identical, and
/// whenever the id is present it is the event's true id.
pub proof fn lemma_format_content_identical(
    pdu: Pdu,
    va: Option<RoomVersion>,
    vb: Option<RoomVersion>,
    wa: WireEvent,
    wb: WireEvent,
)
    requires
        formatted_spec(pdu, va, wa),
        formatted_spec(pdu, vb, wb),
    ensures
        same_body(wa.body, wb.body),
        wa.event_id is Some ==> wa.event_id == Some(pdu.id),
        wb.event_id is Some ==> wb.event_id == Some(pdu.id),
{
}

} // verus!
