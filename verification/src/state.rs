//! The room-state snapshot protocol.
//!
//! A peer reconstructing history it is missing asks for the full room
//! state as of one event, together with the authorization-chain closure
//! it needs to re-verify that state.  The request is first gated by the
//! access predicate at room level; a missing state snapshot is a
//! data-availability rejection distinct from an authorization one; and
//! every returned event is reformatted under the general federation rule.

use vstd::prelude::*;

use crate::access::AccessCheck;
use crate::chain::{auth_chain_ids, chain_ids_ok, in_chain};
use crate::error::Error;
use crate::ids::{EventId, RoomId, ServerName};
use crate::pdu::{format_pdu, formatted_spec, Pdu, WireEvent};
use crate::store::{pdu_has_id, set_with_hash, Homeserver};
use crate::table::lemma_first;

verus! {

/// The snapshot returned to the peer: the state events as of the asked
/// event, and the authorization chain backing them.
#[derive(Debug)]
pub struct StateResponse {
    pub state_events: Vec<WireEvent>,
    pub auth_chain: Vec<WireEvent>,
}

/// Whether some stored event's identifier reads `b`.
pub open spec fn present_view(pdus: Seq<Pdu>, b: Seq<char>) -> bool {
    exists|j: int| 0 <= j < pdus.len() && pdus[j].id.id@ == b
}

/// Whether the store holds every event in the list.
pub open spec fn all_present(hs: Homeserver, ids: Seq<EventId>) -> bool {
    forall|k: int| 0 <= k < ids.len() ==> hs.pdu_spec(#[trigger] ids[k]) is Some
}

/// Whether the store holds every event of the authorization chain of
/// `root`.
pub open spec fn chain_all_present(hs: Homeserver, root: Seq<char>) -> bool {
    forall|b: Seq<char>| #[trigger] in_chain(hs.pdus@, root, b) ==> present_view(hs.pdus@, b)
}

/// Whether `wires` lists, in order, the general-rule wire form of the
/// stored event of each identifier in `ids`.
pub open spec fn formats_all(hs: Homeserver, ids: Seq<EventId>, wires: Seq<WireEvent>) -> bool {
    &&& wires.len() == ids.len()
    &&& forall|k: int|
        0 <= k < ids.len() ==> match hs.pdu_spec(#[trigger] ids[k]) {
            Some(p) => formatted_spec(p, None, wires[k]),
            None => false,
        }
}

/// The verdict of the snapshot protocol: the room-level access gate
/// first, then the state lookup — no recorded snapshot is a
/// data-availability rejection — and a store that lost an indexed event
/// is an internal fault.
pub open spec fn snapshot_verdict_spec(
    hs: Homeserver,
    origin: ServerName,
    room_id: RoomId,
    event_id: EventId,
) -> Option<Error> {
    let gate = AccessCheck { origin, room_id, event_id: None };
    match gate.verdict_spec(hs) {
        Some(e) => Some(e),
        None => match hs.shortstatehash_spec(event_id) {
            None => Some(Error::PduStateNotFound),
            Some(h) => if !all_present(hs, hs.state_ids_spec(h)) {
                Some(Error::MissingEvent)
            } else if !chain_all_present(hs, event_id.id@) {
                Some(Error::MissingEvent)
            } else {
                None
            },
        },
    }
}

/// Retrieves the room state as of `event_id` for a peer, with its
/// authorization chain.
///
/// The access predicate gates the request at room level; an event with no
/// recorded state snapshot is answered `PduStateNotFound`.  On success the
/// response lists, under the general formatting rule, the state events of
/// the recorded snapshot in their stored order, and the authorization
/// chain of the asked event — exactly the reachable events, each once,
/// their order not part of the contract since the chain is a set.
#[verifier::loop_isolation(false)]
pub fn get_room_state(
    hs: &Homeserver,
    origin: &ServerName,
    room_id: &RoomId,
    event_id: &EventId,
) -> (r: Result<StateResponse, Error>)
    ensures
        match snapshot_verdict_spec(*hs, *origin, *room_id, *event_id) {
            Some(e) => r == Result::<StateResponse, Error>::Err(e),
            None => match r {
                Ok(resp) => {
                    &&& match hs.shortstatehash_spec(*event_id) {
                        Some(h) => formats_all(*hs, hs.state_ids_spec(h), resp.state_events@),
                        None => false,
                    }
                    &&& exists|ids: Seq<EventId>|
                        #![trigger chain_ids_ok(hs.pdus@, event_id.id@, ids)]
                        chain_ids_ok(hs.pdus@, event_id.id@, ids) && formats_all(
                            *hs,
                            ids,
                            resp.auth_chain@,
                        )
                },
                Err(_) => false,
            },
        },
{
    let gate = AccessCheck {
        origin: origin.clone(),
        room_id: room_id.clone(),
        event_id: None,
    };
    match gate.check(hs) {
        Err(e) => {
            return Err(e);
        },
        Ok(()) => {},
    }
    proof {
        assert((AccessCheck {
            origin: *origin,
            room_id: *room_id,
            event_id: None::<EventId>,
        }).verdict_spec(*hs) is None);
    }

    let h = match hs.pdu_shortstatehash(event_id) {
        None => {
            return Err(Error::PduStateNotFound);
        },
        Some(h) => h,
    };

    let mut state_events: Vec<WireEvent> = Vec::new();
    match hs.state_set_ix(h) {
        Some(si) => {
            proof {
                lemma_first(hs.state_sets@, set_with_hash(h));
            }
            let mut k: usize = 0;
            while k < hs.state_sets[si].state_ids.len()
                invariant
                    si < hs.state_sets@.len(),
                    crate::table::first(hs.state_sets@, set_with_hash(h)) == Some(si as int),
                    hs.state_ids_spec(h) == hs.state_sets@[si as int].state_ids@,
                    k <= hs.state_sets@[si as int].state_ids@.len(),
                    state_events@.len() == k,
                    forall|t: int|
                        0 <= t < k ==> match hs.pdu_spec(
                            #[trigger] hs.state_sets@[si as int].state_ids@[t],
                        ) {
                            Some(p) => formatted_spec(p, None, state_events@[t]),
                            None => false,
                        },
                decreases hs.state_sets@[si as int].state_ids@.len() - k,
            {
                let id = &hs.state_sets[si].state_ids[k];
                match hs.pdu_ix(id) {
                    None => {
                        proof {
                            lemma_first(hs.pdus@, pdu_has_id(*id));
                            assert(hs.pdu_spec(hs.state_ids_spec(h)[k as int]) is None);
                        }
                        return Err(Error::MissingEvent);
                    },
                    Some(pj) => {
                        proof {
                            lemma_first(hs.pdus@, pdu_has_id(*id));
                        }
                        state_events.push(format_pdu(&hs.pdus[pj], None));
                    },
                }
                k = k + 1;
            }
            proof {
                assert forall|t: int|
                    0 <= t < hs.state_ids_spec(h).len() implies (match hs.pdu_spec(
                    #[trigger] hs.state_ids_spec(h)[t],
                ) {
                    Some(p) => formatted_spec(p, None, state_events@[t]),
                    None => false,
                }) by {
                    assert(hs.state_ids_spec(h)[t] == hs.state_sets@[si as int].state_ids@[t]);
                }
                assert(formats_all(*hs, hs.state_ids_spec(h), state_events@));
                assert(all_present(*hs, hs.state_ids_spec(h)));
            }
        },
        None => {
            proof {
                assert(hs.state_ids_spec(h).len() == 0);
                assert(formats_all(*hs, hs.state_ids_spec(h), state_events@));
                assert(all_present(*hs, hs.state_ids_spec(h)));
            }
        },
    }

    let chain = auth_chain_ids(hs, event_id);
    let mut auth_chain: Vec<WireEvent> = Vec::new();
    let mut k: usize = 0;
    while k < chain.len()
        invariant
            chain_ids_ok(hs.pdus@, event_id.id@, chain@),
            k <= chain@.len(),
            auth_chain@.len() == k,
            forall|t: int|
                0 <= t < k ==> match hs.pdu_spec(#[trigger] chain@[t]) {
                    Some(p) => formatted_spec(p, None, auth_chain@[t]),
                    None => false,
                },
        decreases chain@.len() - k,
    {
        let id = &chain[k];
        match hs.pdu_ix(id) {
            None => {
                proof {
                    lemma_first(hs.pdus@, pdu_has_id(*id));
                    assert(in_chain(hs.pdus@, event_id.id@, chain@[k as int].id@));
                    assert forall|j: int|
                        0 <= j < hs.pdus@.len() implies hs.pdus@[j].id.id@ != chain@[
                        k as int
                    ].id@ by {
                        assert(!(pdu_has_id(chain@[k as int])(hs.pdus@[j])));
                    }
                    assert(!present_view(hs.pdus@, chain@[k as int].id@));
                }
                return Err(Error::MissingEvent);
            },
            Some(pj) => {
                proof {
                    lemma_first(hs.pdus@, pdu_has_id(*id));
                }
                auth_chain.push(format_pdu(&hs.pdus[pj], None));
            },
        }
        k = k + 1;
    }

    proof {
        // Everything indexed was found, so no rejection is owed: the state
        // list is wholly present, and so is every chain member.
        assert forall|b: Seq<char>|
            #[trigger] in_chain(hs.pdus@, event_id.id@, b) implies present_view(
            hs.pdus@,
            b,
        ) by {
            let ii = choose|ii: int| 0 <= ii < chain@.len() && chain@[ii].id@ == b;
            assert(hs.pdu_spec(chain@[ii]) is Some);
            lemma_first(hs.pdus@, pdu_has_id(chain@[ii]));
        }
        assert(chain_ids_ok(hs.pdus@, event_id.id@, chain@));
        assert(formats_all(*hs, chain@, auth_chain@));
        assert(chain_all_present(*hs, event_id.id@));
        assert(snapshot_verdict_spec(*hs, *origin, *room_id, *event_id) is None);
        assert(exists|ids: Seq<EventId>|
            #![trigger chain_ids_ok(hs.pdus@, event_id.id@, ids)]
            chain_ids_ok(hs.pdus@, event_id.id@, ids) && formats_all(*hs, ids, auth_chain@));
    }

    Ok(StateResponse { state_events, auth_chain })
}

} // verus!
