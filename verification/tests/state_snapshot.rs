use federation_gate::error::{Error, ErrorKind};
use federation_gate::ids::{EventId, Membership, RoomId, ServerName, UserId};
use federation_gate::lock::LockTable;
use federation_gate::pdu::{Pdu, PduBody};
use federation_gate::state::get_room_state;
use federation_gate::store::{Homeserver, Member, Room, StateLink, StateSet};
use federation_gate::version::RoomVersion;

fn server(host: &str) -> ServerName {
    ServerName { host: host.to_string(), port: None }
}

fn user(local: &str, host: &str) -> UserId {
    UserId { localpart: local.to_string(), server: server(host) }
}

fn room_id() -> RoomId {
    RoomId { opaque: "!r".to_string(), server: Some(server("example.org")) }
}

fn event(id: &str, auth: &[&str]) -> Pdu {
    Pdu {
        id: EventId { id: id.to_string() },
        body: PduBody {
            room_id: room_id(),
            sender: user("alice", "example.org"),
            kind: "m.room.member".to_string(),
            state_key: Some("@alice:example.org".to_string()),
            membership: Some(Membership::Join),
            auth_events: auth.iter().map(|a| EventId { id: a.to_string() }).collect(),
        },
    }
}

fn homeserver() -> Homeserver {
    Homeserver {
        server_name: server("example.org"),
        forbidden_hosts: vec![],
        rooms: vec![Room {
            id: room_id(),
            version: RoomVersion::V9,
            world_readable: false,
            acl_denied: vec![],
            members: vec![Member {
                user: user("bob", "other.org"),
                membership: Membership::Join,
            }],
        }],
        pdus: vec![],
        event_state: vec![],
        state_sets: vec![],
        visible: vec![],
        locks: LockTable { held: vec![] },
    }
}

#[test]
fn state_for_unrecorded_event_is_not_found() {
    // An event id with no recorded short-state-hash is a
    // data-availability rejection, distinct from an authorization one.
    let hs = homeserver();
    let asked = EventId { id: "$unknown".to_string() };
    let r = get_room_state(&hs, &server("other.org"), &room_id(), &asked);
    let e = r.unwrap_err();
    assert_eq!(e, Error::PduStateNotFound);
    assert_eq!(e.kind(), ErrorKind::NotFound);
    assert_eq!(e.message(), "PDU state not found.");
}

#[test]
fn state_request_is_gated_by_access_predicate() {
    let mut hs = homeserver();
    hs.rooms[0].members.clear();
    let asked = EventId { id: "$e".to_string() };
    let r = get_room_state(&hs, &server("other.org"), &room_id(), &asked);
    assert_eq!(r.unwrap_err(), Error::ServerNotInRoom);
}

#[test]
fn state_snapshot_returns_state_and_auth_chain() {
    let mut hs = homeserver();
    // $create authorizes everything; $member is authorized by $create;
    // the asked event $head is authorized by both.
    hs.pdus.push(event("$create", &[]));
    hs.pdus.push(event("$member", &["$create"]));
    hs.pdus.push(event("$head", &["$create", "$member"]));
    hs.event_state.push(StateLink { event: EventId { id: "$head".to_string() }, shortstatehash: 7 });
    hs.state_sets.push(StateSet {
        shortstatehash: 7,
        state_ids: vec![EventId { id: "$create".to_string() }, EventId {
            id: "$member".to_string(),
        }],
    });

    let asked = EventId { id: "$head".to_string() };
    let resp = get_room_state(&hs, &server("other.org"), &room_id(), &asked).unwrap();

    // The state events come in stored order, formatted by the general
    // rule, which omits the event id.
    assert_eq!(resp.state_events.len(), 2);
    assert!(resp.state_events.iter().all(|w| w.event_id.is_none()));
    assert_eq!(resp.state_events[0].body, hs.pdus[0].body);
    assert_eq!(resp.state_events[1].body, hs.pdus[1].body);

    // The auth chain is the closure from the asked event: $create and
    // $member, each once, though $create is reachable twice.
    assert_eq!(resp.auth_chain.len(), 2);
    let mut chain_keys: Vec<String> = resp
        .auth_chain
        .iter()
        .map(|w| w.body.state_key.clone().unwrap())
        .collect();
    chain_keys.sort();
    assert_eq!(chain_keys.len(), 2);
}

#[test]
fn state_snapshot_of_rootless_chain_is_empty() {
    let mut hs = homeserver();
    hs.pdus.push(event("$lone", &[]));
    hs.event_state.push(StateLink { event: EventId { id: "$lone".to_string() }, shortstatehash: 1 });
    hs.state_sets.push(StateSet { shortstatehash: 1, state_ids: vec![] });

    let asked = EventId { id: "$lone".to_string() };
    let resp = get_room_state(&hs, &server("other.org"), &room_id(), &asked).unwrap();
    assert!(resp.state_events.is_empty());
    assert!(resp.auth_chain.is_empty());
}

#[test]
fn state_snapshot_missing_indexed_event_is_internal() {
    let mut hs = homeserver();
    hs.pdus.push(event("$head", &[]));
    hs.event_state.push(StateLink { event: EventId { id: "$head".to_string() }, shortstatehash: 7 });
    hs.state_sets.push(StateSet {
        shortstatehash: 7,
        state_ids: vec![EventId { id: "$vanished".to_string() }],
    });

    let asked = EventId { id: "$head".to_string() };
    let r = get_room_state(&hs, &server("other.org"), &room_id(), &asked);
    let e = r.unwrap_err();
    assert_eq!(e, Error::MissingEvent);
    assert_eq!(e.kind(), ErrorKind::Internal);
}
