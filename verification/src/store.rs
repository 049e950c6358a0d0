//! The homeserver's view of the federation, as plain data.
//!
//! The real server reads rooms, memberships, state indexes and policy from
//! an external event-graph store; this module models exactly the rows that
//! the access, knock and snapshot rules consume, so that every rule is a
//! verified function of this data.  Each table answers by its first
//! matching row.

use vstd::prelude::*;

use crate::ids::{EventId, Membership, RoomId, ServerName, UserId};
use crate::lock::LockTable;
use crate::pdu::Pdu;
use crate::table::{first, lemma_first};
use crate::version::RoomVersion;

verus! {

/// One user's membership row in a room.
pub struct Member {
    pub user: UserId,
    pub membership: Membership,
}

/// A room known to this server, with the state the rules read: its
/// version, its history-visibility flag, the servers its access-control
/// list rejects, and its membership rows.
pub struct Room {
    pub id: RoomId,
    pub version: RoomVersion,
    pub world_readable: bool,
    pub acl_denied: Vec<ServerName>,
    pub members: Vec<Member>,
}

/// An event's link to the snapshot of full room state as of that event,
/// by surrogate key.
pub struct StateLink {
    pub event: EventId,
    pub shortstatehash: u64,
}

/// The state events a short-state-hash stands for, one event id per
/// distinct state key.
pub struct StateSet {
    pub shortstatehash: u64,
    pub state_ids: Vec<EventId>,
}

/// One row of the event-graph visibility judgment: the server may see the
/// event in the room.
pub struct VisibilityRow {
    pub server: ServerName,
    pub room: RoomId,
    pub event: EventId,
}

/// Matches the room with the given id.
pub open spec fn room_has_id(id: RoomId) -> spec_fn(Room) -> bool {
    |r: Room| r.id.same(id)
}

/// Matches the membership row of the given user.
pub open spec fn member_of(user: UserId) -> spec_fn(Member) -> bool {
    |m: Member| m.user.same(user)
}

/// Matches the stored event with the given id.
pub open spec fn pdu_has_id(id: EventId) -> spec_fn(Pdu) -> bool {
    |p: Pdu| p.id.same(id)
}

/// Matches the state link of the given event.
pub open spec fn link_of(event: EventId) -> spec_fn(StateLink) -> bool {
    |l: StateLink| l.event.same(event)
}

/// Matches the state set of the given surrogate key.
pub open spec fn set_with_hash(hash: u64) -> spec_fn(StateSet) -> bool {
    |s: StateSet| s.shortstatehash == hash
}

/// A membership that keeps a user's server "in" the room: anything but
/// having left or being banned.
pub open spec fn present_membership(m: Membership) -> bool {
    m != Membership::Leave && m != Membership::Ban
}

/// Matches a membership row that keeps `origin` in the room.
pub open spec fn presence_of(origin: ServerName) -> spec_fn(Member) -> bool {
    |m: Member| m.user.server.same(origin) && present_membership(m.membership)
}

/// Matches a row of a user of this server whose membership is `knock`.
pub open spec fn local_knock(local: ServerName) -> spec_fn(Member) -> bool {
    |m: Member| m.user.server.same(local) && m.membership == Membership::Knock
}

/// The homeserver: its own name, the operator's forbidden-server policy,
/// and its view of rooms, events, state snapshots, visibility judgments
/// and per-room locks.
pub struct Homeserver {
    pub server_name: ServerName,
    pub forbidden_hosts: Vec<String>,
    pub rooms: Vec<Room>,
    pub pdus: Vec<Pdu>,
    pub event_state: Vec<StateLink>,
    pub state_sets: Vec<StateSet>,
    pub visible: Vec<VisibilityRow>,
    pub locks: LockTable,
}

impl Homeserver {
    /// The index of the room with this id, if the room is known here.
    pub open spec fn room_ix_spec(self, id: RoomId) -> Option<int> {
        first(self.rooms@, room_has_id(id))
    }

    /// The room with this id, if known here.
    pub open spec fn room_spec(self, id: RoomId) -> Option<Room> {
        match self.room_ix_spec(id) {
            Some(i) => Some(self.rooms@[i]),
            None => None,
        }
    }

    /// Whether the room's access-control list admits `origin`: an unknown
    /// room carries no policy, so the policy lookup passes.
    pub open spec fn acl_ok_spec(self, origin: ServerName, room_id: RoomId) -> bool {
        match self.room_spec(room_id) {
            Some(room) => !(exists|i: int|
                0 <= i < room.acl_denied@.len() && room.acl_denied@[i].same(origin)),
            None => true,
        }
    }

    /// Whether the room's history is visible to any server.
    pub open spec fn world_readable_spec(self, room_id: RoomId) -> bool {
        match self.room_spec(room_id) {
            Some(room) => room.world_readable,
            None => false,
        }
    }

    /// Whether any user of `origin` currently has a non-left, non-banned
    /// membership in the room.
    pub open spec fn server_in_room_spec(self, origin: ServerName, room_id: RoomId) -> bool {
        match self.room_spec(room_id) {
            Some(room) => exists|i: int|
                0 <= i < room.members@.len() && (presence_of(origin))(room.members@[i]),
            None => false,
        }
    }

    /// How many users of this server are mid-knock in the room.
    pub open spec fn knock_count_spec(self, room_id: RoomId) -> int {
        match self.room_spec(room_id) {
            Some(room) => room.members@.filter(local_knock(self.server_name)).len() as int,
            None => 0,
        }
    }

    /// Whether the visibility judgment lets `origin` see `event` in the
    /// room.
    pub open spec fn can_see_spec(self, origin: ServerName, room_id: RoomId, event: EventId) -> bool {
        exists|i: int|
            0 <= i < self.visible@.len() && self.visible@[i].server.same(origin)
                && self.visible@[i].room.same(room_id) && self.visible@[i].event.same(event)
    }

    /// Whether the operator's policy forbids a server whose host is
    /// `host`.
    pub open spec fn host_forbidden_spec(self, host: Seq<char>) -> bool {
        exists|i: int| 0 <= i < self.forbidden_hosts@.len() && self.forbidden_hosts@[i]@ == host
    }

    /// The user's membership row in the room, if any.
    pub open spec fn member_spec(self, room_id: RoomId, user: UserId) -> Option<Membership> {
        match self.room_spec(room_id) {
            Some(room) => match first(room.members@, member_of(user)) {
                Some(i) => Some(room.members@[i].membership),
                None => None,
            },
            None => None,
        }
    }

    /// The short-state-hash recorded for the event, if any.
    pub open spec fn shortstatehash_spec(self, event: EventId) -> Option<u64> {
        match first(self.event_state@, link_of(event)) {
            Some(i) => Some(self.event_state@[i].shortstatehash),
            None => None,
        }
    }

    /// The state event ids a short-state-hash stands for; a key without a
    /// recorded set stands for the empty set.
    pub open spec fn state_ids_spec(self, hash: u64) -> Seq<EventId> {
        match first(self.state_sets@, set_with_hash(hash)) {
            Some(i) => self.state_sets@[i].state_ids@,
            None => Seq::empty(),
        }
    }

    /// The stored event with this id, if any.
    pub open spec fn pdu_spec(self, id: EventId) -> Option<Pdu> {
        match first(self.pdus@, pdu_has_id(id)) {
            Some(i) => Some(self.pdus@[i]),
            None => None,
        }
    }

    /// Looks up the index of the room with this id.
    pub fn room_ix(&self, id: &RoomId) -> (r: Option<usize>)
        ensures
            match r {
                Some(i) => self.room_ix_spec(*id) == Some(i as int),
                None => self.room_ix_spec(*id) is None,
            },
    {
        let ghost p = room_has_id(*id);
        let mut i: usize = 0;
        while i < self.rooms.len()
            invariant
                i <= self.rooms@.len(),
                crate::table::first_from(self.rooms@, p, 0) == crate::table::first_from(
                    self.rooms@,
                    p,
                    i as int,
                ),
                p == room_has_id(*id),
            decreases self.rooms@.len() - i,
        {
            if self.rooms[i].id.matches(id) {
                proof {
                    assert(p(self.rooms@[i as int]));
                }
                return Some(i);
            }
            proof {
                assert(!p(self.rooms@[i as int]));
            }
            i = i + 1;
        }
        None
    }

    /// Evaluates the room's access-control list against `origin`.
    pub fn acl_check(&self, origin: &ServerName, room_id: &RoomId) -> (r: bool)
        ensures
            r == self.acl_ok_spec(*origin, *room_id),
    {
        match self.room_ix(room_id) {
            None => true,
            Some(rx) => {
                proof {
                    lemma_first(self.rooms@, room_has_id(*room_id));
                }
                let mut i: usize = 0;
                while i < self.rooms[rx].acl_denied.len()
                    invariant
                        rx < self.rooms@.len(),
                        self.room_ix_spec(*room_id) == Some(rx as int),
                        i <= self.rooms@[rx as int].acl_denied@.len(),
                        forall|j: int|
                            0 <= j < i ==> !self.rooms@[rx as int].acl_denied@[j].same(*origin),
                    decreases self.rooms@[rx as int].acl_denied@.len() - i,
                {
                    if self.rooms[rx].acl_denied[i].matches(origin) {
                        return false;
                    }
                    i = i + 1;
                }
                true
            },
        }
    }

    /// Reads the room's world-readability; an unknown room is not
    /// world readable.
    pub fn is_world_readable(&self, room_id: &RoomId) -> (r: bool)
        ensures
            r == self.world_readable_spec(*room_id),
    {
        match self.room_ix(room_id) {
            None => false,
            Some(rx) => {
                proof {
                    lemma_first(self.rooms@, room_has_id(*room_id));
                }
                self.rooms[rx].world_readable
            },
        }
    }

    /// Decides whether any user of `origin` is present in the room.
    pub fn server_in_room(&self, origin: &ServerName, room_id: &RoomId) -> (r: bool)
        ensures
            r == self.server_in_room_spec(*origin, *room_id),
    {
        match self.room_ix(room_id) {
            None => false,
            Some(rx) => {
                proof {
                    lemma_first(self.rooms@, room_has_id(*room_id));
                }
                let mut i: usize = 0;
                while i < self.rooms[rx].members.len()
                    invariant
                        rx < self.rooms@.len(),
                        self.room_ix_spec(*room_id) == Some(rx as int),
                        i <= self.rooms@[rx as int].members@.len(),
                        forall|j: int|
                            0 <= j < i ==> !(presence_of(*origin))(
                                self.rooms@[rx as int].members@[j],
                            ),
                    decreases self.rooms@[rx as int].members@.len() - i,
                {
                    let m = &self.rooms[rx].members[i];
                    let present = match m.membership {
                        Membership::Leave => false,
                        Membership::Ban => false,
                        _ => true,
                    };
                    if present && m.user.server.matches(origin) {
                        proof {
                            assert((presence_of(*origin))(self.rooms@[rx as int].members@[i as int]));
                        }
                        return true;
                    }
                    proof {
                        assert(!(presence_of(*origin))(self.rooms@[rx as int].members@[i as int]));
                    }
                    i = i + 1;
                }
                false
            },
        }
    }

    /// Counts the users of this server mid-knock in the room.
    pub fn room_members_knocked(&self, room_id: &RoomId) -> (r: usize)
        ensures
            r as int == self.knock_count_spec(*room_id),
    {
        let ghost p = local_knock(self.server_name);
        match self.room_ix(room_id) {
            None => 0,
            Some(rx) => {
                proof {
                    lemma_first(self.rooms@, room_has_id(*room_id));
                }
                let mut count: usize = 0;
                let mut i: usize = 0;
                while i < self.rooms[rx].members.len()
                    invariant
                        rx < self.rooms@.len(),
                        self.room_ix_spec(*room_id) == Some(rx as int),
                        i <= self.rooms@[rx as int].members@.len(),
                        count as int == self.rooms@[rx as int].members@.take(i as int).filter(
                            p,
                        ).len(),
                        count <= i,
                        p == local_knock(self.server_name),
                    decreases self.rooms@[rx as int].members@.len() - i,
                {
                    let ghost members = self.rooms@[rx as int].members@;
                    proof {
                        assert(members.take(i as int + 1) =~= members.take(i as int).push(
                            members[i as int],
                        ));
                        crate::table::lemma_filter_push(
                            members.take(i as int),
                            p,
                            members[i as int],
                        );
                    }
                    let m = &self.rooms[rx].members[i];
                    let is_knock = match m.membership {
                        Membership::Knock => true,
                        _ => false,
                    };
                    if is_knock && m.user.server.matches(&self.server_name) {
                        proof {
                            assert(p(members[i as int]));
                        }
                        count = count + 1;
                    } else {
                        proof {
                            assert(!p(members[i as int]));
                        }
                    }
                    i = i + 1;
                }
                proof {
                    let members = self.rooms@[rx as int].members@;
                    assert(members.take(members.len() as int) =~= members);
                }
                count
            },
        }
    }

    /// Consults the visibility judgment for `origin` and `event` in the
    /// room.
    pub fn server_can_see_event(&self, origin: &ServerName, room_id: &RoomId, event: &EventId) -> (r:
        bool)
        ensures
            r == self.can_see_spec(*origin, *room_id, *event),
    {
        let mut i: usize = 0;
        while i < self.visible.len()
            invariant
                i <= self.visible@.len(),
                forall|j: int|
                    0 <= j < i ==> !(self.visible@[j].server.same(*origin)
                        && self.visible@[j].room.same(*room_id) && self.visible@[j].event.same(
                        *event,
                    )),
            decreases self.visible@.len() - i,
        {
            let row = &self.visible[i];
            if row.server.matches(origin) && row.room.matches(room_id) && row.event.matches(event) {
                return true;
            }
            i = i + 1;
        }
        false
    }

    /// Decides whether the operator's policy forbids this host.
    pub fn host_forbidden(&self, host: &String) -> (r: bool)
        ensures
            r == self.host_forbidden_spec(host@),
    {
        let mut i: usize = 0;
        while i < self.forbidden_hosts.len()
            invariant
                i <= self.forbidden_hosts@.len(),
                forall|j: int| 0 <= j < i ==> self.forbidden_hosts@[j]@ != host@,
            decreases self.forbidden_hosts@.len() - i,
        {
            if self.forbidden_hosts[i] == *host {
                return true;
            }
            i = i + 1;
        }
        false
    }

    /// Looks up the user's membership in the room.
    pub fn get_member(&self, room_id: &RoomId, user: &UserId) -> (r: Option<Membership>)
        ensures
            r == self.member_spec(*room_id, *user),
    {
        let ghost p = member_of(*user);
        match self.room_ix(room_id) {
            None => None,
            Some(rx) => {
                proof {
                    lemma_first(self.rooms@, room_has_id(*room_id));
                }
                let mut i: usize = 0;
                while i < self.rooms[rx].members.len()
                    invariant
                        rx < self.rooms@.len(),
                        self.room_ix_spec(*room_id) == Some(rx as int),
                        i <= self.rooms@[rx as int].members@.len(),
                        crate::table::first_from(self.rooms@[rx as int].members@, p, 0)
                            == crate::table::first_from(
                            self.rooms@[rx as int].members@,
                            p,
                            i as int,
                        ),
                        p == member_of(*user),
                    decreases self.rooms@[rx as int].members@.len() - i,
                {
                    if self.rooms[rx].members[i].user.matches(user) {
                        proof {
                            assert(p(self.rooms@[rx as int].members@[i as int]));
                        }
                        return Some(self.rooms[rx].members[i].membership);
                    }
                    proof {
                        assert(!p(self.rooms@[rx as int].members@[i as int]));
                    }
                    i = i + 1;
                }
                None
            },
        }
    }

    /// Resolves the event's short-state-hash, if one is recorded.
    pub fn pdu_shortstatehash(&self, event: &EventId) -> (r: Option<u64>)
        ensures
            r == self.shortstatehash_spec(*event),
    {
        let ghost p = link_of(*event);
        let mut i: usize = 0;
        while i < self.event_state.len()
            invariant
                i <= self.event_state@.len(),
                crate::table::first_from(self.event_state@, p, 0) == crate::table::first_from(
                    self.event_state@,
                    p,
                    i as int,
                ),
                p == link_of(*event),
            decreases self.event_state@.len() - i,
        {
            if self.event_state[i].event.matches(event) {
                proof {
                    assert(p(self.event_state@[i as int]));
                }
                return Some(self.event_state[i].shortstatehash);
            }
            proof {
                assert(!p(self.event_state@[i as int]));
            }
            i = i + 1;
        }
        None
    }

    /// Looks up the index of the state set stored under this key.
    pub fn state_set_ix(&self, hash: u64) -> (r: Option<usize>)
        ensures
            match r {
                Some(i) => first(self.state_sets@, set_with_hash(hash)) == Some(i as int),
                None => first(self.state_sets@, set_with_hash(hash)) is None,
            },
    {
        let ghost p = set_with_hash(hash);
        let mut i: usize = 0;
        while i < self.state_sets.len()
            invariant
                i <= self.state_sets@.len(),
                crate::table::first_from(self.state_sets@, p, 0) == crate::table::first_from(
                    self.state_sets@,
                    p,
                    i as int,
                ),
                p == set_with_hash(hash),
            decreases self.state_sets@.len() - i,
        {
            if self.state_sets[i].shortstatehash == hash {
                proof {
                    assert(p(self.state_sets@[i as int]));
                }
                return Some(i);
            }
            proof {
                assert(!p(self.state_sets@[i as int]));
            }
            i = i + 1;
        }
        None
    }

    /// Looks up the index of the stored event with this id.
    pub fn pdu_ix(&self, id: &EventId) -> (r: Option<usize>)
        ensures
            match r {
                Some(i) => first(self.pdus@, pdu_has_id(*id)) == Some(i as int),
                None => first(self.pdus@, pdu_has_id(*id)) is None,
            },
    {
        let ghost p = pdu_has_id(*id);
        let mut i: usize = 0;
        while i < self.pdus.len()
            invariant
                i <= self.pdus@.len(),
                crate::table::first_from(self.pdus@, p, 0) == crate::table::first_from(
                    self.pdus@,
                    p,
                    i as int,
                ),
                p == pdu_has_id(*id),
            decreases self.pdus@.len() - i,
        {
            if self.pdus[i].id.matches(id) {
                proof {
                    assert(p(self.pdus@[i as int]));
                }
                return Some(i);
            }
            proof {
                assert(!p(self.pdus@[i as int]));
            }
            i = i + 1;
        }
        None
    }

    /// Whether the room with this id is known to this server.
    pub fn room_exists(&self, id: &RoomId) -> (r: bool)
        ensures
            r == (self.room_spec(*id) is Some),
    {
        self.room_ix(id).is_some()
    }
}

} // verus!
