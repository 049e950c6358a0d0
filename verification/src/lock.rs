//! The per-room mutation lock table.
//!
//! Constructing and persisting a state-changing event for a room must be
//! serialized per room: the table hands out at most one outstanding guard
//! per room id, and every room-mutating path is expected to go through it.
//! Entries are created on demand and a room is free again as soon as its
//! guard is returned.

use vstd::prelude::*;

use crate::ids::RoomId;
use crate::table::lemma_filter_push;

verus! {

/// Matches the entries of every room but `room`: what remains held once
/// `room` is freed.
pub open spec fn keep_other(room: RoomId) -> spec_fn(RoomId) -> bool {
    |r: RoomId| !r.same(room)
}

/// Witness of one acquisition of a room's mutation lock, as
/// [`LockTable::lock`] hands it out: holding it stands for the exclusive
/// right to mutate the room's state until it is given back to
/// [`LockTable::unlock`].
pub struct Guard {
    pub room: RoomId,
}

/// The process-wide table of per-room mutation locks, keyed by room id.
pub struct LockTable {
    pub held: Vec<RoomId>,
}

impl LockTable {
    /// Whether the lock of `room` is currently held.
    pub open spec fn holds(self, room: RoomId) -> bool {
        exists|i: int| 0 <= i < self.held@.len() && self.held@[i].same(room)
    }

    /// A table with every room's lock free.
    pub fn new() -> (t: LockTable)
        ensures
            t.held@.len() == 0,
            forall|r: RoomId| !t.holds(r),
    {
        LockTable { held: Vec::new() }
    }

    /// Tries to acquire the lock of `room`.  While an earlier acquisition
    /// is outstanding the attempt yields nothing and changes nothing — the
    /// caller must wait and retry; otherwise it yields the guard and the
    /// room is marked held.
    pub fn lock(&mut self, room: &RoomId) -> (g: Option<Guard>)
        ensures
            old(self).holds(*room) ==> g is None && *final(self) == *old(self),
            !old(self).holds(*room) ==> match g {
                Some(gu) => gu.room == *room && final(self).held@ == old(self).held@.push(*room),
                None => false,
            },
    {
        let mut i: usize = 0;
        while i < self.held.len()
            invariant
                i <= self.held@.len(),
                forall|j: int| 0 <= j < i ==> !self.held@[j].same(*room),
            decreases self.held@.len() - i,
        {
            if self.held[i].matches(room) {
                return None;
            }
            i = i + 1;
        }
        self.held.push(room.clone());
        Some(Guard { room: room.clone() })
    }

    /// Returns a guard, freeing its room: afterwards the table holds
    /// exactly the entries of other rooms, in their old order.
    pub fn unlock(&mut self, g: Guard)
        ensures
            final(self).held@ == old(self).held@.filter(keep_other(g.room)),
            !final(self).holds(g.room),
    {
        let ghost p = keep_other(g.room);
        let mut kept: Vec<RoomId> = Vec::new();
        let mut i: usize = 0;
        while i < self.held.len()
            invariant
                i <= self.held@.len(),
                kept@ == self.held@.take(i as int).filter(p),
                p == keep_other(g.room),
            decreases self.held@.len() - i,
        {

            proof {
                assert(self.held@.take(i as int + 1) =~= self.held@.take(i as int).push(
                    self.held@[i as int],
                ));
                lemma_filter_push(self.held@.take(i as int), p, self.held@[i as int]);
            }
            if !self.held[i].matches(&g.room) {
                kept.push(self.held[i].clone());
            }
            i = i + 1;
        }
        proof {
            assert(self.held@.take(self.held@.len() as int) =~= self.held@);
        }
        self.held = kept;
        proof {
            assert forall|k: int| 0 <= k < self.held@.len() implies !self.held@[k].same(
                g.room,
            ) by {
                old(self).held@.lemma_filter_pred(p, k);
            }
        }
    }
}

/// Mutual exclusion: while one acquisition of a room's lock is
/// outstanding, no acquisition of the same room can succeed, so two
/// holders of one room cannot exist at once.
pub proof fn lemma_lock_exclusive(t: LockTable, before: LockTable, room: RoomId, again: RoomId)
    requires
        !before.holds(room),
        t.held@ == before.held@.push(room),
        again.same(room),
    ensures
        t.holds(again),
{
    assert(t.held@[before.held@.len() as int].same(again));
}

} // verus!
