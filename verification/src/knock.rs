//! The knock admission protocol.
//!
//! A remote user asks to knock on a room: a strictly ordered chain of
//! gates (room known, self-knock only, access-control list, operator
//! policy, room-version capability, version negotiation) must all pass
//! before the per-room mutation lock is taken; under the lock the user's
//! current membership is re-read (a ban forbids knocking) and only then is
//! the knock membership event built, recorded and the membership row
//! updated, the lock being released before the event is formatted for the
//! wire.  The first failing gate decides the rejection and nothing is
//! mutated before every gate has passed.

use vstd::prelude::*;
use vstd::string::StringExecFns;

use crate::error::Error;
use crate::ids::{EventId, Membership, RoomId, ServerName, UserId};
use crate::pdu::{format_pdu, formatted_spec, Pdu, PduBody, WireEvent};
use crate::lock::keep_other;
use crate::store::{member_of, room_has_id, Homeserver, Member, Room};
use crate::table::{first, lemma_filter_all, lemma_filter_push, lemma_first, lemma_first_from_congruent};
use crate::version::RoomVersion;

verus! {

/// The identifier the model's event pipeline derives for a knock event:
/// a content-derived tag over the room and the knocking user, standing in
/// for the content hash the real signing pipeline computes.
pub open spec fn knock_event_id_spec(room_id: RoomId, user: UserId) -> Seq<char> {
    seq!['$'] + room_id.opaque@ + seq![':'] + user.full_spec()
}

/// Whether `b` is the body of a knock membership event for `user` in
/// `room_id`: a state event of type `m.room.member`, its state key the
/// knocking user's id, its declared membership `knock`, with no
/// authorizing events chosen yet.
pub open spec fn knock_body_ok(b: PduBody, room_id: RoomId, user: UserId) -> bool {
    &&& b.room_id == room_id
    &&& b.sender == user
    &&& b.kind@ == "m.room.member"@
    &&& match b.state_key {
        Some(k) => k@ == user.full_spec(),
        None => false,
    }
    &&& b.membership == Some(Membership::Knock)
    &&& b.auth_events@.len() == 0
}

/// Whether `p` is the knock membership event for `user` in `room_id`.
pub open spec fn knock_pdu_ok(p: Pdu, room_id: RoomId, user: UserId) -> bool {
    p.id.id@ == knock_event_id_spec(room_id, user) && knock_body_ok(p.body, room_id, user)
}

/// The verdict of the pre-lock gates, in their declared order; the first
/// failing gate decides.
pub open spec fn knock_gate_spec(
    hs: Homeserver,
    origin: ServerName,
    room_id: RoomId,
    user: UserId,
    supported: Seq<RoomVersion>,
) -> Option<Error> {
    match hs.room_spec(room_id) {
        None => Some(Error::RoomUnknown),
        Some(room) => if !user.server.same(origin) {
            Some(Error::ForeignUser)
        } else if !hs.acl_ok_spec(origin, room_id) {
            Some(Error::ServerBanned)
        } else if hs.host_forbidden_spec(origin.host@) {
            Some(Error::ServerNameForbidden)
        } else if (match room_id.server {
            Some(s) => hs.host_forbidden_spec(s.host@),
            None => false,
        }) {
            Some(Error::ServerNameForbidden)
        } else if !room.version.knock_capable() {
            Some(Error::IncompatibleRoomVersion(room.version))
        } else if !supported.contains(room.version) {
            Some(Error::IncompatibleRoomVersion(room.version))
        } else {
            None
        },
    }
}

/// The verdict of the whole chain: the pre-lock gates, then — under the
/// lock — the ban check against the user's current membership.
pub open spec fn knock_verdict_spec(
    hs: Homeserver,
    origin: ServerName,
    room_id: RoomId,
    user: UserId,
    supported: Seq<RoomVersion>,
) -> Option<Error> {
    match knock_gate_spec(hs, origin, room_id, user, supported) {
        Some(e) => Some(e),
        None => if hs.member_spec(room_id, user) == Some(Membership::Ban) {
            Some(Error::UserBanned)
        } else {
            None
        },
    }
}

/// The membership rows after the knock is committed: the user's first row
/// is set to `knock`, or a `knock` row is appended for a user without one;
/// every other row keeps its place.
pub open spec fn members_after_knock(members: Seq<Member>, user: UserId) -> Seq<Member> {
    match first(members, member_of(user)) {
        Some(k) => members.update(
            k,
            Member { user: members[k].user, membership: Membership::Knock },
        ),
        None => members.push(Member { user, membership: Membership::Knock }),
    }
}

/// Whether `post` is `pre` with nothing changed: every table equal, and
/// the lock table holding the same rooms in the same order.
pub open spec fn tables_unchanged(pre: Homeserver, post: Homeserver) -> bool {
    &&& post.server_name == pre.server_name
    &&& post.forbidden_hosts == pre.forbidden_hosts
    &&& post.rooms == pre.rooms
    &&& post.pdus == pre.pdus
    &&& post.event_state == pre.event_state
    &&& post.state_sets == pre.state_sets
    &&& post.visible == pre.visible
    &&& post.locks.held@ == pre.locks.held@
}

/// Whether `post` is `pre` with exactly the knock of `user` on the room at
/// index `rx` committed: the knock event appended to the store, the user's
/// membership row set to `knock`, and everything else — the room's other
/// fields, every other room, every other table, the lock table — as it
/// was.
pub open spec fn knock_committed(
    pre: Homeserver,
    post: Homeserver,
    rx: int,
    room_id: RoomId,
    user: UserId,
) -> bool {
    &&& post.pdus@.len() == pre.pdus@.len() + 1
    &&& post.pdus@.drop_last() == pre.pdus@
    &&& knock_pdu_ok(post.pdus@.last(), room_id, user)
    &&& post.rooms@.len() == pre.rooms@.len()
    &&& forall|j: int| 0 <= j < pre.rooms@.len() && j != rx ==> post.rooms@[j] == pre.rooms@[j]
    &&& post.rooms@[rx].id == pre.rooms@[rx].id
    &&& post.rooms@[rx].version == pre.rooms@[rx].version
    &&& post.rooms@[rx].world_readable == pre.rooms@[rx].world_readable
    &&& post.rooms@[rx].acl_denied == pre.rooms@[rx].acl_denied
    &&& post.rooms@[rx].members@ == members_after_knock(pre.rooms@[rx].members@, user)
    &&& post.server_name == pre.server_name
    &&& post.forbidden_hosts == pre.forbidden_hosts
    &&& post.event_state == pre.event_state
    &&& post.state_sets == pre.state_sets
    &&& post.visible == pre.visible
    &&& post.locks.held@ == pre.locks.held@
}

/// Renders the model's content-derived identifier for a knock event.
fn knock_event_id(room_id: &RoomId, user: &UserId) -> (r: String)
    ensures
        r@ == knock_event_id_spec(*room_id, *user),
{
    proof {
        reveal_strlit("$");
        reveal_strlit(":");
    }
    let mut out = String::from_str("$");
    out.append(room_id.opaque.as_str());
    out.append(":");
    let full = user.render();
    out.append(full.as_str());
    proof {
        assert(out@ =~= knock_event_id_spec(*room_id, *user));
    }
    out
}

/// Builds the knock membership event the store is asked to record.
fn build_knock_pdu(room_id: &RoomId, user: &UserId) -> (p: Pdu)
    ensures
        knock_pdu_ok(p, *room_id, *user),
{
    Pdu {
        id: EventId { id: knock_event_id(room_id, user) },
        body: PduBody {
            room_id: room_id.clone(),
            sender: user.clone(),
            kind: String::from_str("m.room.member"),
            state_key: Some(user.render()),
            membership: Some(Membership::Knock),
            auth_events: Vec::new(),
        },
    }
}

/// Finds the index of the user's membership row.
fn member_ix(members: &Vec<Member>, user: &UserId) -> (r: Option<usize>)
    ensures
        match r {
            Some(k) => first(members@, member_of(*user)) == Some(k as int),
            None => first(members@, member_of(*user)) is None,
        },
{
    let ghost p = member_of(*user);
    let mut k: usize = 0;
    while k < members.len()
        invariant
            k <= members@.len(),
            crate::table::first_from(members@, p, 0) == crate::table::first_from(
                members@,
                p,
                k as int,
            ),
            p == member_of(*user),
        decreases members@.len() - k,
    {
        if members[k].user.matches(user) {
            proof {
                assert(p(members@[k as int]));
            }
            return Some(k);
        }
        proof {
            assert(!p(members@[k as int]));
        }
        k = k + 1;
    }
    None
}

/// Validates and executes a remote user's request to knock on a room.
///
/// The gates run strictly in order and the first failure is returned with
/// nothing changed.  When every gate passes, the room's mutation lock is
/// taken, the ban check and the write happen under that one acquisition,
/// the lock is released, and the recorded event is formatted for the
/// room's version — below version 3 with its id as an explicit field —
/// and returned beside that version.
///
/// The caller hands the call the room's lock free, as the surrounding
/// scheduler does by blocking until any concurrent mutation of the same
/// room has finished.
pub fn create_knock(
    hs: &mut Homeserver,
    origin: &ServerName,
    room_id: &RoomId,
    user_id: &UserId,
    supported_versions: &Vec<RoomVersion>,
) -> (r: Result<(RoomVersion, WireEvent), Error>)
    requires
        !old(hs).locks.holds(*room_id),
    ensures
        match knock_verdict_spec(*old(hs), *origin, *room_id, *user_id, supported_versions@) {
            Some(e) => r == Result::<(RoomVersion, WireEvent), Error>::Err(e)
                && tables_unchanged(*old(hs), *final(hs)),
            None => match r {
                Ok((v, wire)) => {
                    &&& match old(hs).room_ix_spec(*room_id) {
                        Some(rx) => knock_committed(*old(hs), *final(hs), rx, *room_id, *user_id),
                        None => false,
                    }
                    &&& match old(hs).room_spec(*room_id) {
                        Some(room) => v == room.version,
                        None => false,
                    }
                    &&& formatted_spec(final(hs).pdus@.last(), Some(v), wire)
                },
                Err(_) => false,
            },
        },
        !final(hs).locks.holds(*room_id),
{
    // Gate 1: the room must be known to this server.
    let rx = match hs.room_ix(room_id) {
        None => {
            return Err(Error::RoomUnknown);
        },
        Some(rx) => rx,
    };
    proof {
        lemma_first(hs.rooms@, room_has_id(*room_id));
    }

    // Gate 2: a server may only knock on behalf of its own users.
    if !user_id.server.matches(origin) {
        return Err(Error::ForeignUser);
    }

    // Gate 3: the room's access-control list must admit the origin.
    if !hs.acl_check(origin, room_id) {
        return Err(Error::ServerBanned);
    }

    // Gate 4: the origin's host must not be forbidden by the operator.
    if hs.host_forbidden(&origin.host) {
        return Err(Error::ServerNameForbidden);
    }

    // Gate 5: neither may the server named inside the room id.
    match &room_id.server {
        Some(s) => {
            if hs.host_forbidden(&s.host) {
                return Err(Error::ServerNameForbidden);
            }
        },
        None => {},
    }

    // Gate 6: the room's version must support knocking at all.
    let version = hs.rooms[rx].version;
    if !version.supports_knocking() {
        return Err(Error::IncompatibleRoomVersion(version));
    }

    // Gate 7: the requester must support the room's version.
    let mut has_version = false;
    let mut vi: usize = 0;
    while vi < supported_versions.len()
        invariant
            vi <= supported_versions@.len(),
            has_version == exists|j: int|
                0 <= j < vi as int && supported_versions@[j] == version,
        decreases supported_versions@.len() - vi,
    {
        if supported_versions[vi] == version {
            has_version = true;
        }
        vi = vi + 1;
    }
    if !has_version {
        return Err(Error::IncompatibleRoomVersion(version));
    }

    // Gate 8: take the room's mutation lock.
    // The lock is free by the caller's obligation, so it is granted.
    let guard = match hs.locks.lock(room_id) {
        Some(g) => g,
        None => vstd::pervasive::unreached(),
    };

    // Gate 9, under the lock: a banned user cannot knock.
    let banned = match hs.get_member(room_id, user_id) {
        Some(Membership::Ban) => true,
        _ => false,
    };
    if banned {
        let ghost groom = guard.room;
        hs.locks.unlock(guard);
        proof {
            lemma_filter_push(old(hs).locks.held@, keep_other(groom), *room_id);
            lemma_filter_all(old(hs).locks.held@, keep_other(groom));
        }
        return Err(Error::UserBanned);
    }

    // Step 10, still under the lock: build, record and index the event.
    let pdu = build_knock_pdu(room_id, user_id);
    hs.pdus.push(pdu);

    let mut room = Room {
        id: RoomId { opaque: String::new(), server: None },
        version: RoomVersion::V1,
        world_readable: false,
        acl_denied: Vec::new(),
        members: Vec::new(),
    };
    hs.rooms.set_and_swap(rx, &mut room);

    let found = member_ix(&room.members, user_id);
    match found {
        Some(k) => {
            proof {
                lemma_first(room.members@, member_of(*user_id));
            }
            let u = room.members[k].user.clone();
            room.members.set(k, Member { user: u, membership: Membership::Knock });
        },
        None => {
            room.members.push(Member { user: user_id.clone(), membership: Membership::Knock });
        },
    }
    hs.rooms.set(rx, room);
    proof {
        assert(hs.rooms@ =~= old(hs).rooms@.update(rx as int, hs.rooms@[rx as int]));
    }

    // Step 11: release the lock before any further formatting work.
    let ghost groom = guard.room;
    hs.locks.unlock(guard);
    proof {
        lemma_filter_push(old(hs).locks.held@, keep_other(groom), *room_id);
        lemma_filter_all(old(hs).locks.held@, keep_other(groom));
        assert(hs.pdus@.drop_last() =~= old(hs).pdus@);
    }

    // Steps 12 and 13: only now, off the critical section, format the
    // recorded event for the room's version and return it beside it.
    let wire = format_pdu(&hs.pdus[hs.pdus.len() - 1], Some(&version));
    Ok((version, wire))
}

/// The gates are checked strictly in their declared order: when the
/// self-knock rule fails, its rejection is returned even if a later gate
/// — the room-version rule, say — would fail as well.
pub proof fn lemma_foreign_user_decided_first(
    hs: Homeserver,
    origin: ServerName,
    room_id: RoomId,
    user: UserId,
    supported: Seq<RoomVersion>,
)
    requires
        hs.room_spec(room_id) is Some,
        !user.server.same(origin),
    ensures
        knock_verdict_spec(hs, origin, room_id, user, supported) == Some(Error::ForeignUser),
{
}

/// A room of one of the six legacy versions never admits a knock: once
/// the gates before the version rule pass, the verdict is the version
/// rejection carrying the room's version, whatever else the request
/// brings.
pub proof fn lemma_legacy_version_refuses_knock(
    hs: Homeserver,
    origin: ServerName,
    room_id: RoomId,
    user: UserId,
    supported: Seq<RoomVersion>,
)
    requires
        match hs.room_spec(room_id) {
            Some(room) => !room.version.knock_capable(),
            None => false,
        },
        user.server.same(origin),
        hs.acl_ok_spec(origin, room_id),
        !hs.host_forbidden_spec(origin.host@),
        match room_id.server {
            Some(s) => !hs.host_forbidden_spec(s.host@),
            None => true,
        },
    ensures
        match hs.room_spec(room_id) {
            Some(room) => knock_verdict_spec(hs, origin, room_id, user, supported) == Some(
                Error::IncompatibleRoomVersion(room.version),
            ),
            None => false,
        },
{
}

/// A knock-capable room version that the requester does not declare among
/// its supported versions is refused with the same version rejection.
pub proof fn lemma_unsupported_version_refuses_knock(
    hs: Homeserver,
    origin: ServerName,
    room_id: RoomId,
    user: UserId,
    supported: Seq<RoomVersion>,
)
    requires
        match hs.room_spec(room_id) {
            Some(room) => room.version.knock_capable() && !supported.contains(room.version),
            None => false,
        },
        user.server.same(origin),
        hs.acl_ok_spec(origin, room_id),
        !hs.host_forbidden_spec(origin.host@),
        match room_id.server {
            Some(s) => !hs.host_forbidden_spec(s.host@),
            None => true,
        },
    ensures
        match hs.room_spec(room_id) {
            Some(room) => knock_verdict_spec(hs, origin, room_id, user, supported) == Some(
                Error::IncompatibleRoomVersion(room.version),
            ),
            None => false,
        },
{
}

/// A committed knock is observable: once the mutation is applied — as it
/// is before the room's lock is released — any later lookup under or
/// after that lock sees the user's membership read `knock`.
pub proof fn lemma_committed_knock_is_visible(
    pre: Homeserver,
    post: Homeserver,
    rx: int,
    room_id: RoomId,
    user: UserId,
)
    requires
        pre.room_ix_spec(room_id) == Some(rx),
        knock_committed(pre, post, rx, room_id, user),
    ensures
        post.member_spec(room_id, user) == Some(Membership::Knock),
{
    lemma_first(pre.rooms@, room_has_id(room_id));
    lemma_first_from_congruent(post.rooms@, pre.rooms@, room_has_id(room_id), 0);
    assert(post.room_ix_spec(room_id) == Some(rx));
    let m0 = pre.rooms@[rx].members@;
    let m1 = post.rooms@[rx].members@;
    let p = member_of(user);
    lemma_first(m0, p);
    match first(m0, p) {
        Some(k) => {
            assert(m1 == m0.update(k, Member { user: m0[k].user, membership: Membership::Knock }));
            lemma_first_from_congruent(m1, m0, p, 0);
            assert(m1[k].membership == Membership::Knock);
        },
        None => {
            assert(m1 == m0.push(Member { user, membership: Membership::Knock }));
            assert(p(m1[m0.len() as int]));
            lemma_first(m1, p);
            match first(m1, p) {
                Some(k) => {
                    if k < m0.len() {
                        assert(m1[k] == m0[k]);
                        assert(!p(m0[k]));
                    }
                    assert(k == m0.len());
                    assert(m1[k].membership == Membership::Knock);
                },
                None => {
                    assert(!p(m1[m0.len() as int]));
                },
            }
        },
    }
}

} // verus!
