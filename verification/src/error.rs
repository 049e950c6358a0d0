//! The rejections a federation request can meet.

use vstd::prelude::*;

use crate::version::RoomVersion;

verus! {

/// The coarse kind of a rejection, deciding how a caller may react:
/// `Forbidden` is an authorization denial, never retried; `NotFound` says the
/// referenced room or history is absent here, so the peer may ask elsewhere;
/// `IncompatibleRoomVersion` is a version-negotiation mismatch; `Internal`
/// is a store fault that must not be masked as any of the former.
#[derive(Clone, Copy, Debug, PartialEq, Eq, Structural)]
pub enum ErrorKind {
    Forbidden,
    NotFound,
    IncompatibleRoomVersion,
    Internal,
}

/// One specific rejection.  Every variant corresponds to exactly one failing
/// rule, so contracts can say precisely which rejection an input earns.
#[derive(Clone, Copy, Debug, PartialEq, Eq, Structural)]
pub enum Error {
    /// The room's access-control list denies the origin server.
    ServerAccessDenied,
    /// The origin server is neither in the room, nor is the room world
    /// readable, nor is any local user mid-knock there.
    ServerNotInRoom,
    /// The origin server may not see the specific event it asked about.
    EventNotVisible,
    /// The room is not known to this server.
    RoomUnknown,
    /// A server may only knock on behalf of its own users.
    ForeignUser,
    /// The room's access-control list bans the knocking server.
    ServerBanned,
    /// The operator's policy forbids the server name outright.
    ServerNameForbidden,
    /// The room's version rules out the request; carries that version so
    /// the peer can decide whether to retry with other capabilities.
    IncompatibleRoomVersion(RoomVersion),
    /// A user cannot knock on a room they are banned from.
    UserBanned,
    /// No state snapshot is recorded for the referenced event.
    PduStateNotFound,
    /// The store lacks an event document it itself indexed.
    MissingEvent,
}

impl Error {
    /// The kind a rejection surfaces as.
    pub open spec fn kind_spec(self) -> ErrorKind {
        match self {
            Error::ServerAccessDenied => ErrorKind::Forbidden,
            Error::ServerNotInRoom => ErrorKind::Forbidden,
            Error::EventNotVisible => ErrorKind::Forbidden,
            Error::RoomUnknown => ErrorKind::NotFound,
            Error::ForeignUser => ErrorKind::Forbidden,
            Error::ServerBanned => ErrorKind::Forbidden,
            Error::ServerNameForbidden => ErrorKind::Forbidden,
            Error::IncompatibleRoomVersion(_) => ErrorKind::IncompatibleRoomVersion,
            Error::UserBanned => ErrorKind::Forbidden,
            Error::PduStateNotFound => ErrorKind::NotFound,
            Error::MissingEvent => ErrorKind::Internal,
        }
    }

    /// Returns the kind of this rejection.
    pub fn kind(&self) -> (r: ErrorKind)
        ensures
            r == self.kind_spec(),
    {
        match self {
            Error::ServerAccessDenied => ErrorKind::Forbidden,
            Error::ServerNotInRoom => ErrorKind::Forbidden,
            Error::EventNotVisible => ErrorKind::Forbidden,
            Error::RoomUnknown => ErrorKind::NotFound,
            Error::ForeignUser => ErrorKind::Forbidden,
            Error::ServerBanned => ErrorKind::Forbidden,
            Error::ServerNameForbidden => ErrorKind::Forbidden,
            Error::IncompatibleRoomVersion(_) => ErrorKind::IncompatibleRoomVersion,
            Error::UserBanned => ErrorKind::Forbidden,
            Error::PduStateNotFound => ErrorKind::NotFound,
            Error::MissingEvent => ErrorKind::Internal,
        }
    }

    /// The human-readable reason attached to the rejection on the wire.
    pub fn message(&self) -> (r: &'static str)
        ensures
            self == Error::ServerAccessDenied ==> r@ == "Server access denied."@,
            self == Error::ServerNotInRoom ==> r@ == "Server is not in room."@,
            self == Error::EventNotVisible ==> r@ == "Server is not allowed to see event."@,
            self == Error::RoomUnknown ==> r@ == "Room is unknown to this server."@,
            self == Error::ForeignUser ==> r@
                == "Not allowed to knock on behalf of another server/user."@,
            self == Error::ServerBanned ==> r@ == "Server is banned."@,
            self == Error::ServerNameForbidden ==> r@ == "Server is banned on this homeserver."@,
            self is IncompatibleRoomVersion ==> r@ == "Room version is incompatible."@,
            self == Error::UserBanned ==> r@
                == "You cannot knock on a room you are banned from."@,
            self == Error::PduStateNotFound ==> r@ == "PDU state not found."@,
            self == Error::MissingEvent ==> r@ == "Event is indexed but not stored."@,
    {
        match self {
            Error::ServerAccessDenied => "Server access denied.",
            Error::ServerNotInRoom => "Server is not in room.",
            Error::EventNotVisible => "Server is not allowed to see event.",
            Error::RoomUnknown => "Room is unknown to this server.",
            Error::ForeignUser => "Not allowed to knock on behalf of another server/user.",
            Error::ServerBanned => "Server is banned.",
            Error::ServerNameForbidden => "Server is banned on this homeserver.",
            Error::IncompatibleRoomVersion(_) => "Room version is incompatible.",
            Error::UserBanned => "You cannot knock on a room you are banned from.",
            Error::PduStateNotFound => "PDU state not found.",
            Error::MissingEvent => "Event is indexed but not stored.",
        }
    }
}

} // verus!
