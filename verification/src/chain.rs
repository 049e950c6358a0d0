//! The authorization-chain closure.
//!
//! Every event declares the events that authorize its existence; the
//! closure of that relation from a starting event is what a peer needs to
//! re-verify a state snapshot.  The closure is a set: its membership must
//! not depend on traversal order, the same roots must always yield the
//! same set, and no event may appear twice.  The traversal below is an
//! explicit worklist with a visited set — no recursion — and is proved to
//! return exactly the reachable events, each once.

use vstd::prelude::*;

use crate::ids::EventId;
use crate::pdu::Pdu;
use crate::store::Homeserver;
use crate::table::{first, lemma_first};

verus! {

broadcast use vstd::seq_lib::seq_to_set_is_finite;

/// Matches the stored event whose identifier reads `a`.
pub open spec fn pdu_with_view(a: Seq<char>) -> spec_fn(Pdu) -> bool {
    |p: Pdu| p.id.id@ == a
}

/// The identifiers the event `a` declares as authorizing it; an id with
/// no stored event declares none.
pub open spec fn successors(pdus: Seq<Pdu>, a: Seq<char>) -> Seq<EventId> {
    match first(pdus, pdu_with_view(a)) {
        Some(i) => pdus[i].body.auth_events@,
        None => Seq::empty(),
    }
}

/// One authorization edge: `a` declares `b` among its auth events.
pub open spec fn step(pdus: Seq<Pdu>, a: Seq<char>, b: Seq<char>) -> bool {
    exists|k: int| 0 <= k < successors(pdus, a).len() && successors(pdus, a)[k].id@ == b
}

/// `b` is reachable from `root` in exactly `n + 1` authorization edges.
pub open spec fn reach(pdus: Seq<Pdu>, root: Seq<char>, b: Seq<char>, n: nat) -> bool
    decreases n,
{
    if n == 0 {
        step(pdus, root, b)
    } else {
        exists|m: Seq<char>| reach(pdus, root, m, (n - 1) as nat) && step(pdus, m, b)
    }
}

/// `b` lies in the authorization chain of `root`: reachable over at least
/// one edge, so a root declaring no auth events has an empty chain.
pub open spec fn in_chain(pdus: Seq<Pdu>, root: Seq<char>, b: Seq<char>) -> bool {
    exists|n: nat| reach(pdus, root, b, n)
}

/// Whether some element of `s` has the identifier view `a`.
pub open spec fn has_view(s: Seq<EventId>, a: Seq<char>) -> bool {
    exists|i: int| 0 <= i < s.len() && s[i].id@ == a
}

/// Whether `out` together with the root is closed under authorization
/// edges.
pub open spec fn closed_under_step(pdus: Seq<Pdu>, root: Seq<char>, out: Seq<EventId>) -> bool {
    forall|a: Seq<char>, b: Seq<char>|
        ((a == root || has_view(out, a)) && #[trigger] step(pdus, a, b)) ==> has_view(out, b)
}

/// What the traversal must return: the authorization chain of `root`,
/// exactly — every listed event reachable, every reachable event listed,
/// and no identifier listed twice.
pub open spec fn chain_ids_ok(pdus: Seq<Pdu>, root: Seq<char>, out: Seq<EventId>) -> bool {
    &&& forall|i: int, j: int| 0 <= i < j < out.len() ==> out[i].id@ != out[j].id@
    &&& forall|i: int| 0 <= i < out.len() ==> in_chain(pdus, root, #[trigger] out[i].id@)
    &&& forall|b: Seq<char>| #[trigger] in_chain(pdus, root, b) ==> has_view(out, b)
}

/// Extending a chain of edges by one more edge keeps it a chain.
proof fn lemma_chain_step(pdus: Seq<Pdu>, root: Seq<char>, a: Seq<char>, b: Seq<char>)
    requires
        in_chain(pdus, root, a),
        step(pdus, a, b),
    ensures
        in_chain(pdus, root, b),
{
    let n = choose|n: nat| reach(pdus, root, a, n);
    assert(reach(pdus, root, a, n) && step(pdus, a, b));
    assert(reach(pdus, root, b, n + 1));
}

/// A set closed under edges contains everything reachable.
proof fn lemma_closed_complete(
    pdus: Seq<Pdu>,
    root: Seq<char>,
    out: Seq<EventId>,
    b: Seq<char>,
    n: nat,
)
    requires
        closed_under_step(pdus, root, out),
        reach(pdus, root, b, n),
    ensures
        has_view(out, b),
    decreases n,
{
    if n == 0 {
        assert((root == root || has_view(out, root)) && step(pdus, root, b));
    } else {
        let m = choose|m: Seq<char>|
            reach(pdus, root, m, (n - 1) as nat) && step(pdus, m, b);
        lemma_closed_complete(pdus, root, out, m, (n - 1) as nat);
    }
}

/// The identifier views of a list of event ids.
pub open spec fn id_views(s: Seq<EventId>) -> Seq<Seq<char>> {
    s.map_values(|e: EventId| e.id@)
}

/// Every identifier any stored event declares as authorizing, in store
/// order: the ground every traversal moves over.
pub open spec fn all_targets(pdus: Seq<Pdu>) -> Seq<Seq<char>>
    decreases pdus.len(),
{
    if pdus.len() == 0 {
        Seq::empty()
    } else {
        id_views(pdus[0].body.auth_events@) + all_targets(pdus.drop_first())
    }
}

/// A declared auth identifier of any stored event occurs among the
/// targets.
proof fn lemma_target_in_all(pdus: Seq<Pdu>, i: int, k: int)
    requires
        0 <= i < pdus.len(),
        0 <= k < pdus[i].body.auth_events@.len(),
    ensures
        all_targets(pdus).contains(pdus[i].body.auth_events@[k].id@),
    decreases i,
{
    let target = pdus[i].body.auth_events@[k].id@;
    let head = id_views(pdus[0].body.auth_events@);
    if i == 0 {
        assert(head[k] == target);
        assert(all_targets(pdus)[k] == target);
    } else {
        lemma_target_in_all(pdus.drop_first(), i - 1, k);
        let rest = all_targets(pdus.drop_first());
        let j = choose|j: int| 0 <= j < rest.len() && rest[j] == target;
        assert(all_targets(pdus)[head.len() + j] == target);
    }
}

/// The far end of any edge occurs among the targets.
proof fn lemma_step_target(pdus: Seq<Pdu>, a: Seq<char>, b: Seq<char>)
    requires
        step(pdus, a, b),
    ensures
        all_targets(pdus).to_set().contains(b),
{
    lemma_first(pdus, pdu_with_view(a));
    let k = choose|k: int|
        0 <= k < successors(pdus, a).len() && successors(pdus, a)[k].id@ == b;
    match first(pdus, pdu_with_view(a)) {
        Some(i) => {
            lemma_target_in_all(pdus, i, k);
        },
        None => {},
    }
}

/// Looks up the index of the stored event whose identifier reads as
/// `id` does.
fn pdu_ix_by_view(hs: &Homeserver, id: &EventId) -> (r: Option<usize>)
    ensures
        match r {
            Some(i) => first(hs.pdus@, pdu_with_view(id.id@)) == Some(i as int),
            None => first(hs.pdus@, pdu_with_view(id.id@)) is None,
        },
{
    let ghost p = pdu_with_view(id.id@);
    let mut i: usize = 0;
    while i < hs.pdus.len()
        invariant
            i <= hs.pdus@.len(),
            crate::table::first_from(hs.pdus@, p, 0) == crate::table::first_from(
                hs.pdus@,
                p,
                i as int,
            ),
            p == pdu_with_view(id.id@),
        decreases hs.pdus@.len() - i,
    {
        if hs.pdus[i].id.matches(id) {
            proof {
                assert(p(hs.pdus@[i as int]));
            }
            return Some(i);
        }
        proof {
            assert(!p(hs.pdus@[i as int]));
        }
        i = i + 1;
    }
    None
}

/// Whether the list already carries this identifier.
fn has_id(list: &Vec<EventId>, id: &EventId) -> (r: bool)
    ensures
        r == has_view(list@, id.id@),
{
    let mut i: usize = 0;
    while i < list.len()
        invariant
            i <= list@.len(),
            forall|j: int| 0 <= j < i ==> list@[j].id@ != id.id@,
        decreases list@.len() - i,
    {
        if list[i].matches(id) {
            return true;
        }
        i = i + 1;
    }
    false
}

/// Collects the authorization-chain closure of `root` over the stored
/// events: every event reachable over one or more `auth_events` edges,
/// each exactly once, in discovery order.  Membership in the result is a
/// set — two runs from the same root list the same identifiers.
#[verifier::rlimit(30)]
pub fn auth_chain_ids(hs: &Homeserver, root: &EventId) -> (out: Vec<EventId>)
    ensures
        chain_ids_ok(hs.pdus@, root.id@, out@),
{
    let ghost pdus = hs.pdus@;
    let ghost rootv = root.id@;
    let ghost uni = all_targets(pdus).to_set();
    proof {
        vstd::seq_lib::seq_to_set_is_finite(all_targets(pdus));
    }

    let mut out: Vec<EventId> = Vec::new();
    let mut frontier: Vec<EventId> = Vec::new();
    let ghost mut oset = Set::<Seq<char>>::empty();

    // Seed the worklist with the root's declared auth events.
    match pdu_ix_by_view(hs, root) {
        Some(i) => {
            proof {
                lemma_first(pdus, pdu_with_view(rootv));
            }
            let mut k: usize = 0;
            while k < hs.pdus[i].body.auth_events.len()
                invariant
                    pdus == hs.pdus@,
                    rootv == root.id@,
                    uni == all_targets(pdus).to_set(),
                    i < pdus.len(),
                    first(pdus, pdu_with_view(rootv)) == Some(i as int),
                    k <= pdus[i as int].body.auth_events@.len(),
                    frontier@.len() == k,
                    forall|t: int|
                        0 <= t < k ==> frontier@[t] == pdus[i as int].body.auth_events@[t],
                decreases pdus[i as int].body.auth_events@.len() - k,
            {
                frontier.push(hs.pdus[i].body.auth_events[k].clone());
                k = k + 1;
            }
            proof {
                // Every seeded entry is one edge from the root, and every
                // first edge is seeded.
                assert forall|t: int| 0 <= t < frontier@.len() implies step(
                    pdus,
                    rootv,
                    #[trigger] frontier@[t].id@,
                ) by {
                    assert(successors(pdus, rootv)[t].id@ == frontier@[t].id@);
                }
                assert forall|t: int| 0 <= t < frontier@.len() implies in_chain(
                    pdus,
                    rootv,
                    #[trigger] frontier@[t].id@,
                ) by {
                    assert(reach(pdus, rootv, frontier@[t].id@, 0));
                }
                assert forall|t: int| 0 <= t < frontier@.len() implies uni.contains(
                    #[trigger] frontier@[t].id@,
                ) by {
                    lemma_step_target(pdus, rootv, frontier@[t].id@);
                }
                assert forall|b: Seq<char>| #[trigger] step(pdus, rootv, b) implies has_view(
                    frontier@,
                    b,
                ) by {
                    let kk = choose|kk: int|
                        0 <= kk < successors(pdus, rootv).len() && successors(
                            pdus,
                            rootv,
                        )[kk].id@ == b;
                    assert(frontier@[kk].id@ == b);
                }
            }
        },
        None => {
            proof {
                assert forall|b: Seq<char>| #[trigger] step(pdus, rootv, b) implies has_view(
                    frontier@,
                    b,
                ) by {
                    assert(successors(pdus, rootv).len() == 0);
                }
            }
        },
    }

    while frontier.len() > 0
        invariant
            pdus == hs.pdus@,
            rootv == root.id@,
            uni == all_targets(pdus).to_set(),
            uni.finite(),
            forall|ii: int|
                0 <= ii < out@.len() ==> in_chain(pdus, rootv, #[trigger] out@[ii].id@),
            forall|ii: int|
                0 <= ii < frontier@.len() ==> in_chain(pdus, rootv, #[trigger] frontier@[ii].id@),
            forall|ii: int, jj: int| 0 <= ii < jj < out@.len() ==> out@[ii].id@ != out@[jj].id@,
            forall|a: Seq<char>, b: Seq<char>|
                ((a == rootv || has_view(out@, a)) && #[trigger] step(pdus, a, b)) ==> (has_view(
                    out@,
                    b,
                ) || has_view(frontier@, b)),
            forall|x: Seq<char>| #[trigger] oset.contains(x) <==> has_view(out@, x),
            oset.finite(),
            oset.subset_of(uni),
            forall|ii: int| 0 <= ii < frontier@.len() ==> uni.contains(#[trigger] frontier@[ii].id@),
        decreases uni.difference(oset).len(), frontier@.len(),
    {
        let ghost f0 = frontier@;
        let ghost out0 = out@;
        let x = match frontier.pop() {
            Some(x) => x,
            None => vstd::pervasive::unreached(),
        };
        let ghost xv = x.id@;
        proof {
            assert(x == f0[f0.len() - 1]);
            assert(in_chain(pdus, rootv, f0[f0.len() - 1].id@));
            assert(uni.contains(f0[f0.len() - 1].id@));
        }
        if !has_id(&out, &x) {
            out.push(x.clone());
            proof {
                uni.lemma_set_insert_diff_decreases(oset, xv);
                oset = oset.insert(xv);
            }
            let ghost f1 = frontier@;
            match pdu_ix_by_view(hs, &x) {
                Some(pi) => {
                    proof {
                        lemma_first(pdus, pdu_with_view(xv));
                    }
                    let mut k: usize = 0;
                    while k < hs.pdus[pi].body.auth_events.len()
                        invariant
                            pdus == hs.pdus@,
                            rootv == root.id@,
                            uni == all_targets(pdus).to_set(),
                            pi < pdus.len(),
                            first(pdus, pdu_with_view(xv)) == Some(pi as int),
                            in_chain(pdus, rootv, xv),
                            k <= pdus[pi as int].body.auth_events@.len(),
                            frontier@.len() == f1.len() + k,
                            forall|t: int| 0 <= t < f1.len() ==> frontier@[t] == f1[t],
                            forall|t: int|
                                0 <= t < k ==> frontier@[f1.len() + t] == pdus[
                                    pi as int
                                ].body.auth_events@[t],
                            forall|ii: int|
                                f1.len() <= ii < frontier@.len() ==> in_chain(
                                    pdus,
                                    rootv,
                                    #[trigger] frontier@[ii].id@,
                                ),
                            forall|ii: int|
                                f1.len() <= ii < frontier@.len() ==> uni.contains(
                                    #[trigger] frontier@[ii].id@,
                                ),
                        decreases pdus[pi as int].body.auth_events@.len() - k,
                    {
                        let e = hs.pdus[pi].body.auth_events[k].clone();
                        let ghost ev = e;
                        let ghost f2 = frontier@;
                        proof {
                            assert(successors(pdus, xv)[k as int].id@ == ev.id@);
                            assert(step(pdus, xv, ev.id@));
                            lemma_chain_step(pdus, rootv, xv, ev.id@);
                            lemma_step_target(pdus, xv, ev.id@);
                        }
                        frontier.push(e);
                        proof {
                            assert forall|ii: int|
                                f1.len() <= ii < frontier@.len() implies in_chain(
                                pdus,
                                rootv,
                                #[trigger] frontier@[ii].id@,
                            ) by {
                                if ii == frontier@.len() - 1 {
                                    assert(frontier@[ii] == ev);
                                    assert(in_chain(pdus, rootv, ev.id@));
                                } else {
                                    assert(frontier@[ii] == f2[ii]);
                                    assert(in_chain(pdus, rootv, f2[ii].id@));
                                }
                            }
                            assert forall|ii: int|
                                f1.len() <= ii < frontier@.len() implies uni.contains(
                                #[trigger] frontier@[ii].id@,
                            ) by {
                                if ii == frontier@.len() - 1 {
                                    assert(frontier@[ii] == ev);
                                    assert(uni.contains(ev.id@));
                                } else {
                                    assert(frontier@[ii] == f2[ii]);
                                    assert(uni.contains(f2[ii].id@));
                                }
                            }
                        }
                        k = k + 1;
                    }
                    proof {
                        assert forall|b: Seq<char>| #[trigger] step(pdus, xv, b) implies has_view(
                            frontier@,
                            b,
                        ) by {
                            let kk = choose|kk: int|
                                0 <= kk < successors(pdus, xv).len() && successors(
                                    pdus,
                                    xv,
                                )[kk].id@ == b;
                            assert(frontier@[f1.len() + kk].id@ == b);
                        }
                        assert forall|ii: int| 0 <= ii < frontier@.len() implies in_chain(
                            pdus,
                            rootv,
                            #[trigger] frontier@[ii].id@,
                        ) by {
                            if ii < f1.len() {
                                assert(frontier@[ii] == f1[ii]);
                                assert(f1[ii] == f0[ii]);
                                assert(in_chain(pdus, rootv, f0[ii].id@));
                            } else {
                                assert(f1.len() <= ii < frontier@.len());
                            }
                        }
                        assert forall|ii: int| 0 <= ii < frontier@.len() implies uni.contains(
                            #[trigger] frontier@[ii].id@,
                        ) by {
                            if ii < f1.len() {
                                assert(frontier@[ii] == f1[ii]);
                                assert(f1[ii] == f0[ii]);
                                assert(uni.contains(f0[ii].id@));
                            } else {
                                assert(f1.len() <= ii < frontier@.len());
                            }
                        }
                    }
                },
                None => {
                    proof {
                        assert forall|b: Seq<char>| #[trigger] step(pdus, xv, b) implies false by {
                            assert(successors(pdus, xv).len() == 0);
                        }
                        assert(frontier@ == f0.subrange(0, f0.len() - 1));
                        assert forall|ii: int| 0 <= ii < frontier@.len() implies in_chain(
                            pdus,
                            rootv,
                            #[trigger] frontier@[ii].id@,
                        ) by {
                            assert(frontier@[ii] == f0[ii]);
                            assert(in_chain(pdus, rootv, f0[ii].id@));
                        }
                        assert forall|ii: int| 0 <= ii < frontier@.len() implies uni.contains(
                            #[trigger] frontier@[ii].id@,
                        ) by {
                            assert(frontier@[ii] == f0[ii]);
                            assert(uni.contains(f0[ii].id@));
                        }
                    }
                },
            }
            proof {
                assert forall|a: Seq<char>, b: Seq<char>|
                    ((a == rootv || has_view(out@, a)) && #[trigger] step(
                        pdus,
                        a,
                        b,
                    )) implies (has_view(out@, b) || has_view(frontier@, b)) by {
                    if a == xv {
                        assert(has_view(frontier@, b));
                    } else {
                        if has_view(out@, a) {
                            let ii = choose|ii: int| 0 <= ii < out@.len() && out@[ii].id@ == a;
                            assert(out0[ii].id@ == a);
                        }
                        assert(has_view(out0, b) || has_view(f0, b));
                        if has_view(out0, b) {
                            let ii = choose|ii: int| 0 <= ii < out0.len() && out0[ii].id@ == b;
                            assert(out@[ii].id@ == b);
                        } else {
                            let ii = choose|ii: int| 0 <= ii < f0.len() && f0[ii].id@ == b;
                            if b == xv {
                                assert(out@[out@.len() - 1].id@ == b);
                            } else {
                                assert(ii < f0.len() - 1);
                                assert(f1 == f0.subrange(0, f0.len() - 1));
                                assert(f1[ii] == f0.subrange(0, f0.len() - 1)[ii]);
                                assert(frontier@[ii] == f1[ii]);
                                assert(frontier@[ii].id@ == b);
                            }
                        }
                    }
                }
                assert forall|y: Seq<char>| #[trigger] oset.contains(y) <==> has_view(
                    out@,
                    y,
                ) by {
                    if y == xv {
                        assert(out@[out@.len() - 1].id@ == y);
                    } else {
                        if has_view(out0, y) {
                            let ii = choose|ii: int| 0 <= ii < out0.len() && out0[ii].id@ == y;
                            assert(out@[ii].id@ == y);
                        }
                        if has_view(out@, y) {
                            let ii = choose|ii: int| 0 <= ii < out@.len() && out@[ii].id@ == y;
                            assert(ii < out0.len());
                            assert(out0[ii].id@ == y);
                        }
                    }
                }
            }
        } else {
            proof {
                assert(frontier@ == f0.subrange(0, f0.len() - 1));
                assert forall|ii: int| 0 <= ii < frontier@.len() implies in_chain(
                    pdus,
                    rootv,
                    #[trigger] frontier@[ii].id@,
                ) by {
                    assert(frontier@[ii] == f0[ii]);
                    assert(in_chain(pdus, rootv, f0[ii].id@));
                }
                assert forall|ii: int| 0 <= ii < frontier@.len() implies uni.contains(
                    #[trigger] frontier@[ii].id@,
                ) by {
                    assert(frontier@[ii] == f0[ii]);
                    assert(uni.contains(f0[ii].id@));
                }
                assert forall|a: Seq<char>, b: Seq<char>|
                    ((a == rootv || has_view(out@, a)) && #[trigger] step(
                        pdus,
                        a,
                        b,
                    )) implies (has_view(out@, b) || has_view(frontier@, b)) by {
                    assert(has_view(out0, b) || has_view(f0, b));
                    if has_view(f0, b) && !has_view(out0, b) {
                        let ii = choose|ii: int| 0 <= ii < f0.len() && f0[ii].id@ == b;
                        if b == xv {
                            assert(has_view(out@, b));
                        } else {
                            assert(ii < f0.len() - 1);
                            assert(frontier@ == f0.subrange(0, f0.len() - 1));
                            assert(f0.subrange(0, f0.len() - 1)[ii] == f0[ii]);
                            assert(frontier@[ii].id@ == b);
                        }
                    }
                }
            }
        }
    }

    proof {
        assert forall|b: Seq<char>| #[trigger] in_chain(pdus, rootv, b) implies has_view(
            out@,
            b,
        ) by {
            let n = choose|n: nat| reach(pdus, rootv, b, n);
            lemma_closed_complete(pdus, rootv, out@, b, n);
        }
    }
    out
}

/// No chain of edges leaves a root that declares no auth events.
proof fn lemma_no_successor_no_reach(pdus: Seq<Pdu>, root: Seq<char>, b: Seq<char>, n: nat)
    requires
        successors(pdus, root).len() == 0,
    ensures
        !reach(pdus, root, b, n),
    decreases n,
{
    if n > 0 {
        assert forall|m: Seq<char>|
            !(reach(pdus, root, m, (n - 1) as nat) && step(pdus, m, b)) by {
            lemma_no_successor_no_reach(pdus, root, m, (n - 1) as nat);
        }
    }
}

/// A root with no declared auth events has an empty authorization chain.
pub proof fn lemma_no_auth_events_empty_chain(pdus: Seq<Pdu>, root: Seq<char>)
    requires
        successors(pdus, root).len() == 0,
    ensures
        forall|b: Seq<char>| !in_chain(pdus, root, b),
{
    assert forall|b: Seq<char>| !in_chain(pdus, root, b) by {
        if in_chain(pdus, root, b) {
            let n = choose|n: nat| reach(pdus, root, b, n);
            lemma_no_successor_no_reach(pdus, root, b, n);
            assert(!reach(pdus, root, b, n));
        }
    }
}

/// The authorization chain is a set determined by the store and the root
/// alone: any two traversals meeting the contract list exactly the same
/// identifiers, so running the traversal twice yields the same set.
pub proof fn lemma_chain_deterministic(
    pdus: Seq<Pdu>,
    root: Seq<char>,
    out1: Seq<EventId>,
    out2: Seq<EventId>,
)
    requires
        chain_ids_ok(pdus, root, out1),
        chain_ids_ok(pdus, root, out2),
    ensures
        forall|b: Seq<char>| has_view(out1, b) <==> has_view(out2, b),
{
    assert forall|b: Seq<char>| has_view(out1, b) <==> has_view(out2, b) by {
        if has_view(out1, b) {
            let i = choose|i: int| 0 <= i < out1.len() && out1[i].id@ == b;
            assert(in_chain(pdus, root, out1[i].id@));
        }
        if has_view(out2, b) {
            let i = choose|i: int| 0 <= i < out2.len() && out2[i].id@ == b;
            assert(in_chain(pdus, root, out2[i].id@));
        }
    }
}

} // verus!
