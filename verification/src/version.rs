//! Room versions and the capability table keyed on them.

use vstd::prelude::*;

verus! {

/// Protocol-rule selector for a room, fixed when the room is created.
///
/// Versions form an ordered enumeration; the rules that depend on them
/// (knock support, event-id serialization) are given by the capability
/// methods below rather than by scattered literal comparisons.
#[derive(Clone, Copy, Debug, PartialEq, Eq, Structural, Hash)]
pub enum RoomVersion {
    V1,
    V2,
    V3,
    V4,
    V5,
    V6,
    V7,
    V8,
    V9,
    V10,
    V11,
}

impl RoomVersion {
    /// The first six historical versions predate the knock membership state;
    /// every later version supports knocking.
    pub open spec fn knock_capable(self) -> bool {
        !(self == RoomVersion::V1 || self == RoomVersion::V2 || self == RoomVersion::V3
            || self == RoomVersion::V4 || self == RoomVersion::V5 || self == RoomVersion::V6)
    }

    /// Versions below 3 carry the event id as an explicit field in the
    /// transmitted form of an event; from version 3 on the id is derivable
    /// from the content hash and is omitted on the wire.
    pub open spec fn event_id_on_wire(self) -> bool {
        self == RoomVersion::V1 || self == RoomVersion::V2
    }

    /// Whether a knock may be created in a room of this version.
    pub fn supports_knocking(&self) -> (r: bool)
        ensures
            r == self.knock_capable(),
    {
        match self {
            RoomVersion::V1 | RoomVersion::V2 | RoomVersion::V3 | RoomVersion::V4
            | RoomVersion::V5 | RoomVersion::V6 => false,
            _ => true,
        }
    }

    /// Whether the wire format of an event of this version carries the
    /// event id as an explicit field.
    pub fn wire_includes_event_id(&self) -> (r: bool)
        ensures
            r == self.event_id_on_wire(),
    {
        match self {
            RoomVersion::V1 | RoomVersion::V2 => true,
            _ => false,
        }
    }
}

} // verus!
