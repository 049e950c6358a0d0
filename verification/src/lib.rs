//! Federation access control and room-state synchronization.
//!
//! A homeserver on a federated messaging network must decide, for every
//! inbound request from a peer server, whether the peer may see or extend a
//! room's history.  This crate holds the three pieces of that boundary and
//! proves their decision rules:
//!
//! * [`access::AccessCheck`] — the composite authorization predicate gating
//!   every inbound federation request against a room;
//! * [`knock::create_knock`] — the admission protocol by which a remote user
//!   requests entry to a room, a strictly ordered gate chain followed by a
//!   guarded mutation under a per-room lock;
//! * [`state::get_room_state`] — the snapshot protocol by which a peer
//!   reconstructs the room state at an event, together with the
//!   authorization-chain closure needed to re-verify it.
//!
//! The event store, membership cache and policy tables that the real server
//! reads are modelled as plain data on [`store::Homeserver`]; the decision
//! logic over that data is verified in full.

use vstd::prelude::*;

pub mod access;
pub mod chain;
pub mod error;
pub mod ids;
pub mod knock;
pub mod lock;
pub mod pdu;
pub mod state;
pub mod store;
pub mod table;
pub mod version;

verus! {

/// Authentication parameters accepted in the query string of an inbound
/// request, handed to the library by the surrounding router once decoded.
pub struct QueryParams {
    pub access_token: Option<String>,
    pub user_id: Option<String>,
}

} // verus!
