use federation_gate::access::{check_access, decide, AccessCheck, AccessInputs};
use federation_gate::error::{Error, ErrorKind};
use federation_gate::ids::{EventId, Membership, RoomId, ServerName, UserId};
use federation_gate::lock::LockTable;
use federation_gate::store::{Homeserver, Member, Room, VisibilityRow};
use federation_gate::version::RoomVersion;
use federation_gate::QueryParams;

fn server(host: &str) -> ServerName {
    ServerName { host: host.to_string(), port: None }
}

fn user(local: &str, host: &str) -> UserId {
    UserId { localpart: local.to_string(), server: server(host) }
}

fn room_id(opaque: &str, host: &str) -> RoomId {
    RoomId { opaque: opaque.to_string(), server: Some(server(host)) }
}

fn base_homeserver() -> Homeserver {
    Homeserver {
        server_name: server("example.org"),
        forbidden_hosts: vec![],
        rooms: vec![],
        pdus: vec![],
        event_state: vec![],
        state_sets: vec![],
        visible: vec![],
        locks: LockTable { held: vec![] },
    }
}

/// The fixed rule table of the access predicate, written out by hand.
fn expected(
    acl_ok: bool,
    world_readable: bool,
    server_in_room: bool,
    knock_count: usize,
    visible_at_event: Option<bool>,
) -> Result<(), Error> {
    if !acl_ok {
        Err(Error::ServerAccessDenied)
    } else if !world_readable && !server_in_room && knock_count == 0 {
        Err(Error::ServerNotInRoom)
    } else if visible_at_event == Some(false) {
        Err(Error::EventNotVisible)
    } else {
        Ok(())
    }
}

#[test]
fn decision_matches_rule_table_for_all_combinations() {
    for &acl_ok in &[false, true] {
        for &world_readable in &[false, true] {
            for &server_in_room in &[false, true] {
                for &knock_count in &[0usize, 1] {
                    for &visible_at_event in &[None, Some(false), Some(true)] {
                        let inputs = AccessInputs {
                            acl_ok,
                            world_readable,
                            server_in_room,
                            knock_count,
                            visible_at_event,
                        };
                        assert_eq!(
                            decide(&inputs),
                            expected(
                                acl_ok,
                                world_readable,
                                server_in_room,
                                knock_count,
                                visible_at_event
                            ),
                            "inputs: {acl_ok} {world_readable} {server_in_room} {knock_count} {visible_at_event:?}"
                        );
                    }
                }
            }
        }
    }
}

#[test]
fn decision_order_acl_first() {
    // An access-control denial wins over every other failure.
    let inputs = AccessInputs {
        acl_ok: false,
        world_readable: false,
        server_in_room: false,
        knock_count: 0,
        visible_at_event: Some(false),
    };
    assert_eq!(decide(&inputs), Err(Error::ServerAccessDenied));
}

#[test]
fn check_denies_server_not_in_unknown_room() {
    let hs = base_homeserver();
    let gate = AccessCheck {
        origin: server("other.org"),
        room_id: room_id("!r", "example.org"),
        event_id: None,
    };
    let r = gate.check(&hs);
    assert_eq!(r, Err(Error::ServerNotInRoom));
    assert_eq!(r.unwrap_err().kind(), ErrorKind::Forbidden);
}

#[test]
fn check_allows_world_readable_room() {
    let mut hs = base_homeserver();
    hs.rooms.push(Room {
        id: room_id("!r", "example.org"),
        version: RoomVersion::V9,
        world_readable: true,
        acl_denied: vec![],
        members: vec![],
    });
    let gate = AccessCheck {
        origin: server("other.org"),
        room_id: room_id("!r", "example.org"),
        event_id: None,
    };
    assert_eq!(gate.check(&hs), Ok(()));
}

#[test]
fn check_acl_denial_wins_over_membership() {
    let mut hs = base_homeserver();
    hs.rooms.push(Room {
        id: room_id("!r", "example.org"),
        version: RoomVersion::V9,
        world_readable: true,
        acl_denied: vec![server("other.org")],
        members: vec![Member { user: user("bob", "other.org"), membership: Membership::Join }],
    });
    let gate = AccessCheck {
        origin: server("other.org"),
        room_id: room_id("!r", "example.org"),
        event_id: None,
    };
    assert_eq!(gate.check(&hs), Err(Error::ServerAccessDenied));
}

#[test]
fn check_membership_admits_server() {
    let mut hs = base_homeserver();
    hs.rooms.push(Room {
        id: room_id("!r", "example.org"),
        version: RoomVersion::V9,
        world_readable: false,
        acl_denied: vec![],
        members: vec![Member { user: user("bob", "other.org"), membership: Membership::Join }],
    });
    let gate = AccessCheck {
        origin: server("other.org"),
        room_id: room_id("!r", "example.org"),
        event_id: None,
    };
    assert_eq!(gate.check(&hs), Ok(()));
}

#[test]
fn check_left_or_banned_membership_does_not_admit() {
    let mut hs = base_homeserver();
    hs.rooms.push(Room {
        id: room_id("!r", "example.org"),
        version: RoomVersion::V9,
        world_readable: false,
        acl_denied: vec![],
        members: vec![
            Member { user: user("bob", "other.org"), membership: Membership::Leave },
            Member { user: user("carl", "other.org"), membership: Membership::Ban },
        ],
    });
    let gate = AccessCheck {
        origin: server("other.org"),
        room_id: room_id("!r", "example.org"),
        event_id: None,
    };
    assert_eq!(gate.check(&hs), Err(Error::ServerNotInRoom));
}

#[test]
fn check_local_knocker_carve_out_admits() {
    // A local user mid-knock must keep the room reachable for this server.
    let mut hs = base_homeserver();
    hs.rooms.push(Room {
        id: room_id("!r", "example.org"),
        version: RoomVersion::V9,
        world_readable: false,
        acl_denied: vec![],
        members: vec![Member {
            user: user("alice", "example.org"),
            membership: Membership::Knock,
        }],
    });
    let gate = AccessCheck {
        origin: server("example.org"),
        room_id: room_id("!r", "example.org"),
        event_id: None,
    };
    assert_eq!(gate.check(&hs), Ok(()));
}

#[test]
fn check_event_visibility_is_last_gate() {
    let mut hs = base_homeserver();
    hs.rooms.push(Room {
        id: room_id("!r", "example.org"),
        version: RoomVersion::V9,
        world_readable: true,
        acl_denied: vec![],
        members: vec![],
    });
    let seen = EventId { id: "$seen".to_string() };
    let hidden = EventId { id: "$hidden".to_string() };
    hs.visible.push(VisibilityRow {
        server: server("other.org"),
        room: room_id("!r", "example.org"),
        event: seen.clone(),
    });

    let visible_gate = AccessCheck {
        origin: server("other.org"),
        room_id: room_id("!r", "example.org"),
        event_id: Some(seen),
    };
    assert_eq!(visible_gate.check(&hs), Ok(()));

    let hidden_gate = AccessCheck {
        origin: server("other.org"),
        room_id: room_id("!r", "example.org"),
        event_id: Some(hidden),
    };
    let r = hidden_gate.check(&hs);
    assert_eq!(r, Err(Error::EventNotVisible));
    assert_eq!(r.unwrap_err().message(), "Server is not allowed to see event.");
}

#[test]
fn check_access_entry_point_matches_the_gate() {
    let mut hs = base_homeserver();
    hs.rooms.push(Room {
        id: room_id("!r", "example.org"),
        version: RoomVersion::V9,
        world_readable: true,
        acl_denied: vec![server("rogue.example")],
        members: vec![],
    });
    let room = room_id("!r", "example.org");
    assert_eq!(check_access(&hs, &server("other.org"), &room, None), Ok(()));
    assert_eq!(
        check_access(&hs, &server("rogue.example"), &room, None),
        Err(Error::ServerAccessDenied)
    );
    let unseen = EventId { id: "$unseen".to_string() };
    assert_eq!(
        check_access(&hs, &server("other.org"), &room, Some(&unseen)),
        Err(Error::EventNotVisible)
    );
}

#[test]
fn query_params_carry_optional_fields() {
    let q = QueryParams { access_token: Some("token".to_string()), user_id: None };
    assert!(q.access_token.is_some());
    assert!(q.user_id.is_none());
}
