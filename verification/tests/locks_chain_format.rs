use federation_gate::chain::auth_chain_ids;
use federation_gate::error::Error;
use federation_gate::ids::{EventId, Membership, RoomId, ServerName, UserId};
use federation_gate::lock::LockTable;
use federation_gate::pdu::{format_pdu, Pdu, PduBody};
use federation_gate::store::Homeserver;
use federation_gate::version::RoomVersion;

fn server(host: &str) -> ServerName {
    ServerName { host: host.to_string(), port: None }
}

fn rid(opaque: &str) -> RoomId {
    RoomId { opaque: opaque.to_string(), server: Some(server("example.org")) }
}

fn event(id: &str, auth: &[&str]) -> Pdu {
    Pdu {
        id: EventId { id: id.to_string() },
        body: PduBody {
            room_id: rid("!r"),
            sender: UserId { localpart: "alice".to_string(), server: server("example.org") },
            kind: "m.room.member".to_string(),
            state_key: Some(id.to_string()),
            membership: Some(Membership::Join),
            auth_events: auth.iter().map(|a| EventId { id: a.to_string() }).collect(),
        },
    }
}

fn store_with(pdus: Vec<Pdu>) -> Homeserver {
    Homeserver {
        server_name: server("example.org"),
        forbidden_hosts: vec![],
        rooms: vec![],
        pdus,
        event_state: vec![],
        state_sets: vec![],
        visible: vec![],
        locks: LockTable { held: vec![] },
    }
}

fn chain_set(hs: &Homeserver, root: &str) -> Vec<String> {
    let mut ids: Vec<String> = auth_chain_ids(hs, &EventId { id: root.to_string() })
        .into_iter()
        .map(|e| e.id)
        .collect();
    ids.sort();
    ids
}

#[test]
fn lock_is_exclusive_per_room() {
    // Two acquisitions of the same room cannot both be outstanding.
    let mut t = LockTable::new();
    let g = t.lock(&rid("!a")).expect("free lock must be granted");
    assert!(t.lock(&rid("!a")).is_none());
    // A different room is unaffected.
    let other = t.lock(&rid("!b")).expect("other room is free");
    t.unlock(other);
    // Releasing frees exactly the guard's room.
    t.unlock(g);
    assert!(t.lock(&rid("!a")).is_some());
}

#[test]
fn format_below_version_three_carries_the_event_id() {
    let pdu = event("$e", &["$a"]);
    for v in [RoomVersion::V1, RoomVersion::V2] {
        let wire = format_pdu(&pdu, Some(&v));
        assert_eq!(wire.event_id.as_ref().map(|e| e.id.as_str()), Some("$e"));
        assert_eq!(wire.body, pdu.body);
    }
}

#[test]
fn format_from_version_three_omits_the_event_id() {
    let pdu = event("$e", &["$a"]);
    for v in [RoomVersion::V3, RoomVersion::V6, RoomVersion::V9, RoomVersion::V11] {
        let wire = format_pdu(&pdu, Some(&v));
        assert!(wire.event_id.is_none());
        assert_eq!(wire.body, pdu.body);
    }
    let general = format_pdu(&pdu, None);
    assert!(general.event_id.is_none());
    assert_eq!(general.body, pdu.body);
}

#[test]
fn formats_differ_only_in_the_event_id_field() {
    let pdu = event("$e", &["$a", "$b"]);
    let old_form = format_pdu(&pdu, Some(&RoomVersion::V2));
    let new_form = format_pdu(&pdu, Some(&RoomVersion::V9));
    assert_eq!(old_form.body, new_form.body);
    assert_eq!(old_form.event_id.unwrap(), pdu.id);
    assert!(new_form.event_id.is_none());
}

#[test]
fn chain_of_root_without_auth_events_is_empty() {
    let hs = store_with(vec![event("$root", &[])]);
    assert!(chain_set(&hs, "$root").is_empty());
}

#[test]
fn chain_of_unknown_root_is_empty() {
    let hs = store_with(vec![event("$other", &["$a"])]);
    assert!(chain_set(&hs, "$nowhere").is_empty());
}

#[test]
fn chain_is_transitive_and_deduplicated() {
    // $root -> $b, $c; $b -> $d; $c -> $d: the closure lists $d once.
    let hs = store_with(vec![
        event("$root", &["$b", "$c"]),
        event("$b", &["$d"]),
        event("$c", &["$d"]),
        event("$d", &[]),
    ]);
    let ids = chain_set(&hs, "$root");
    assert_eq!(ids, vec!["$b".to_string(), "$c".to_string(), "$d".to_string()]);
}

#[test]
fn chain_traversal_is_idempotent() {
    // Running the traversal twice from the same root yields the same set.
    let hs = store_with(vec![
        event("$root", &["$b"]),
        event("$b", &["$c", "$d"]),
        event("$c", &["$d"]),
        event("$d", &[]),
    ]);
    assert_eq!(chain_set(&hs, "$root"), chain_set(&hs, "$root"));
    assert_eq!(chain_set(&hs, "$root"), vec![
        "$b".to_string(),
        "$c".to_string(),
        "$d".to_string(),
    ]);
}

#[test]
fn chain_follows_dangling_references_as_leaves() {
    // An auth reference with no stored event is still part of the closure;
    // it simply declares nothing further.
    let hs = store_with(vec![event("$root", &["$ghost"])]);
    assert_eq!(chain_set(&hs, "$root"), vec!["$ghost".to_string()]);
}

#[test]
fn error_messages_are_exact() {
    assert_eq!(Error::ServerAccessDenied.message(), "Server access denied.");
    assert_eq!(Error::ServerNotInRoom.message(), "Server is not in room.");
    assert_eq!(
        Error::EventNotVisible.message(),
        "Server is not allowed to see event."
    );
    assert_eq!(Error::RoomUnknown.message(), "Room is unknown to this server.");
    assert_eq!(
        Error::ForeignUser.message(),
        "Not allowed to knock on behalf of another server/user."
    );
    assert_eq!(Error::ServerBanned.message(), "Server is banned.");
    assert_eq!(
        Error::ServerNameForbidden.message(),
        "Server is banned on this homeserver."
    );
    assert_eq!(
        Error::IncompatibleRoomVersion(RoomVersion::V3).message(),
        "Room version is incompatible."
    );
    assert_eq!(
        Error::UserBanned.message(),
        "You cannot knock on a room you are banned from."
    );
    assert_eq!(Error::PduStateNotFound.message(), "PDU state not found.");
    assert_eq!(Error::MissingEvent.message(), "Event is indexed but not stored.");
}

#[test]
fn user_id_renders_with_sigil_and_server() {
    let alice = UserId { localpart: "alice".to_string(), server: server("example.org") };
    assert_eq!(alice.render(), "@alice:example.org");
}

#[test]
fn version_capability_table() {
    let no_knock = [
        RoomVersion::V1,
        RoomVersion::V2,
        RoomVersion::V3,
        RoomVersion::V4,
        RoomVersion::V5,
        RoomVersion::V6,
    ];
    for v in no_knock {
        assert!(!v.supports_knocking());
    }
    let knocking = [
        RoomVersion::V7,
        RoomVersion::V8,
        RoomVersion::V9,
        RoomVersion::V10,
        RoomVersion::V11,
    ];
    for v in knocking {
        assert!(v.supports_knocking());
    }
}
