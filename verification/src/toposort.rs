//! Deterministic topological ordering of feature names.
//!
//! Nodes are byte-string names, handed in sorted strictly ascending; an edge
//! `from -> to` means `from` must precede `to`. The order emits, at every
//! step, the lexicographically smallest node with no incoming edge from the
//! nodes still waiting, so the output depends only on the node set and the
//! edge relation. When no node is ready, the remaining nodes witness a
//! cycle: every one of them has an incoming edge from another of them.

use vstd::prelude::*;

use crate::bytes::{eq_bytes, lex_lt, seq_contains};

verus! {

/// A precedence edge: `from` must precede `to`.
pub struct Edge {
    pub from: Vec<u8>,
    pub to: Vec<u8>,
}

#[verifier::ext_equal]
pub ghost struct EdgeV {
    pub from: Seq<u8>,
    pub to: Seq<u8>,
}

impl View for Edge {
    type V = EdgeV;

    open spec fn view(&self) -> EdgeV {
        EdgeV { from: self.from@, to: self.to@ }
    }
}

pub open spec fn edges_view(v: Seq<Edge>) -> Seq<EdgeV> {
    Seq::new(v.len(), |i: int| v[i]@)
}

/// Strictly ascending lexicographic order, hence no duplicates.
pub open spec fn strictly_sorted(s: Seq<Seq<u8>>) -> bool {
    forall|i: int, j: int| 0 <= i < j < s.len() ==> lex_lt(#[trigger] s[i], #[trigger] s[j])
}

/// `a` occurs before `b` in `s`.
pub open spec fn precedes(s: Seq<Seq<u8>>, a: Seq<u8>, b: Seq<u8>) -> bool {
    exists|i: int, j: int| 0 <= i < j < s.len() && s[i] =~= a && s[j] =~= b
}

/// `v` has an incoming edge whose source is still in `rem`.
pub open spec fn blocked(rem: Seq<Seq<u8>>, edges: Seq<EdgeV>, v: Seq<u8>) -> bool {
    exists|k: int| 0 <= k < edges.len() && (#[trigger] edges[k]).to =~= v && seq_contains(
        rem,
        edges[k].from,
    )
}

/// First index at or after `k` of a node with no incoming edge from
/// `rem`, or `-1`.
pub open spec fn first_ready_from(rem: Seq<Seq<u8>>, edges: Seq<EdgeV>, k: int) -> int
    decreases rem.len() - k,
{
    if k < 0 || k >= rem.len() {
        -1
    } else if !blocked(rem, edges, rem[k]) {
        k
    } else {
        first_ready_from(rem, edges, k + 1)
    }
}

proof fn lemma_first_ready_at(rem: Seq<Seq<u8>>, edges: Seq<EdgeV>, kk: int)
    requires
        0 <= kk < rem.len(),
        !blocked(rem, edges, rem[kk]),
        forall|m: int| 0 <= m < kk ==> blocked(rem, edges, #[trigger] rem[m]),
    ensures
        first_ready_from(rem, edges, 0) == kk,
{
    lemma_first_ready_step(rem, edges, 0, kk);
}

proof fn lemma_first_ready_step(rem: Seq<Seq<u8>>, edges: Seq<EdgeV>, s: int, kk: int)
    requires
        0 <= s <= kk < rem.len(),
        !blocked(rem, edges, rem[kk]),
        forall|m: int| 0 <= m < kk ==> blocked(rem, edges, #[trigger] rem[m]),
    ensures
        first_ready_from(rem, edges, s) == kk,
    decreases kk - s,
{
    if s < kk {
        lemma_first_ready_step(rem, edges, s + 1, kk);
    }
}

proof fn lemma_first_ready_none(rem: Seq<Seq<u8>>, edges: Seq<EdgeV>, s: int)
    requires
        0 <= s,
        forall|m: int| 0 <= m < rem.len() ==> blocked(rem, edges, #[trigger] rem[m]),
    ensures
        first_ready_from(rem, edges, s) == -1,
    decreases rem.len() - s,
{
    if s < rem.len() {
        lemma_first_ready_none(rem, edges, s + 1);
    }
}

/// The order Kahn's algorithm produces when it always emits the first
/// (i.e. lexicographically smallest, for a sorted node list) ready node;
/// `None` when it gets stuck on a cycle. The output is a function of the
/// node list and the edge relation alone.
pub open spec fn spec_kahn(rem: Seq<Seq<u8>>, edges: Seq<EdgeV>) -> Option<Seq<Seq<u8>>>
    decreases rem.len(),
{
    if rem.len() == 0 {
        Some(Seq::empty())
    } else {
        let k = first_ready_from(rem, edges, 0);
        if k < 0 || k >= rem.len() {
            None
        } else {
            match spec_kahn(rem.remove(k), edges) {
                Some(rest) => Some(seq![rem[k]] + rest),
                None => None,
            }
        }
    }
}

/// A prefix already emitted, glued onto what remains to emit.
pub open spec fn spec_kahn_extend(prefix: Seq<Seq<u8>>, rest: Option<Seq<Seq<u8>>>) -> Option<
    Seq<Seq<u8>>,
> {
    match rest {
        Some(r) => Some(prefix + r),
        None => None,
    }
}

fn is_blocked(rem: &Vec<Vec<u8>>, edges: &Vec<Edge>, v: &Vec<u8>) -> (r: bool)
    ensures
        r == blocked(rem.deep_view(), edges_view(edges@), v@),
{
    let ghost ev = edges_view(edges@);
    let mut k: usize = 0;
    while k < edges.len()
        invariant
            ev == edges_view(edges@),
            ev.len() == edges@.len(),
            0 <= k <= edges.len(),
            forall|m: int|
                0 <= m < k ==> !((#[trigger] ev[m]).to =~= v@ && seq_contains(
                    rem.deep_view(),
                    ev[m].from,
                )),
        decreases edges.len() - k,
    {
        assert(ev[k as int] == edges@[k as int]@);
        if eq_bytes(&edges[k].to, v) {
            if crate::bytes::contains_bytes(rem, &edges[k].from) {
                return true;
            }
        }
        k = k + 1;
    }
    false
}

/// Kahn's algorithm with the smallest-name tie-break. `Ok` returns the
/// total order; `Err` returns the nodes left on a cycle.
///
/// On success, the order is a permutation of the nodes, and for every edge
/// whose endpoints are both among the nodes, the source precedes the
/// target. On failure, the returned nodes are a nonempty subset of the
/// input in which every node has an incoming edge from another.
pub fn toposort(nodes: &Vec<Vec<u8>>, edges: &Vec<Edge>) -> (r: Result<Vec<Vec<u8>>, Vec<Vec<u8>>>)
    requires
        strictly_sorted(nodes.deep_view()),
    ensures
        match r {
            Ok(order) => {
                &&& Some(order.deep_view()) == spec_kahn(nodes.deep_view(), edges_view(edges@))
                &&& order.deep_view().to_multiset() == nodes.deep_view().to_multiset()
                &&& forall|k: int|
                    0 <= k < edges@.len() && seq_contains(
                        nodes.deep_view(),
                        (#[trigger] edges@[k])@.from,
                    ) && seq_contains(nodes.deep_view(), edges@[k]@.to) ==> precedes(
                        order.deep_view(),
                        edges@[k]@.from,
                        edges@[k]@.to,
                    )
            },
            Err(cyc) => {
                &&& spec_kahn(nodes.deep_view(), edges_view(edges@)) is None
                &&& cyc.deep_view().len() > 0
                &&& forall|i: int|
                    0 <= i < cyc.deep_view().len() ==> seq_contains(
                        nodes.deep_view(),
                        #[trigger] cyc.deep_view()[i],
                    )
                &&& forall|i: int|
                    0 <= i < cyc.deep_view().len() ==> blocked(
                        cyc.deep_view(),
                        edges_view(edges@),
                        #[trigger] cyc.deep_view()[i],
                    )
            },
        },
{
    broadcast use vstd::seq_lib::group_to_multiset_ensures;

    let ghost nv = nodes.deep_view();
    let ghost ev = edges_view(edges@);
    let mut remaining: Vec<Vec<u8>> = Vec::new();
    let mut i: usize = 0;
    proof {
        assert(remaining.deep_view() =~= nv.take(0));
    }
    while i < nodes.len()
        invariant
            nv == nodes.deep_view(),
            nv.len() == nodes@.len(),
            0 <= i <= nodes.len(),
            remaining.deep_view() =~= nv.take(i as int),
        decreases nodes.len() - i,
    {
        let ghost pre = remaining.deep_view();
        assert(nv[i as int] == nodes@[i as int]@);
        let c = nodes[i].clone();
        remaining.push(c);
        proof {
            assert(remaining.deep_view() =~~= pre.push(nv[i as int]));
            assert(pre.push(nv[i as int]) =~= nv.take(i + 1));
        }
        i = i + 1;
    }
    proof {
        assert(remaining.deep_view() =~= nv);
    }
    let mut order: Vec<Vec<u8>> = Vec::new();
    proof {
        assert(spec_kahn_extend(order.deep_view(), spec_kahn(remaining.deep_view(), ev))
            == spec_kahn(nv, ev)) by {
            match spec_kahn(nv, ev) {
                Some(r) => {
                    assert(order.deep_view() + r =~= r);
                },
                None => {},
            }
        }
    }
    while remaining.len() > 0
        invariant
            nv == nodes.deep_view(),
            ev == edges_view(edges@),
            ev.len() == edges@.len(),
            spec_kahn_extend(order.deep_view(), spec_kahn(remaining.deep_view(), ev))
                == spec_kahn(nv, ev),
            strictly_sorted(remaining.deep_view()),
            order.deep_view().to_multiset().add(remaining.deep_view().to_multiset())
                =~= nv.to_multiset(),
            forall|v: Seq<u8>|
                seq_contains(nv, v) ==> seq_contains(order.deep_view(), v) || seq_contains(
                    remaining.deep_view(),
                    v,
                ),
            forall|v: Seq<u8>|
                #[trigger] seq_contains(remaining.deep_view(), v) ==> seq_contains(nv, v),
            forall|v: Seq<u8>|
                #[trigger] seq_contains(order.deep_view(), v) ==> seq_contains(nv, v),
            forall|k: int|
                0 <= k < ev.len() && seq_contains(nv, (#[trigger] ev[k]).from) && seq_contains(
                    order.deep_view(),
                    ev[k].to,
                ) ==> precedes(order.deep_view(), ev[k].from, ev[k].to),
            forall|v: Seq<u8>|
                #[trigger] seq_contains(order.deep_view(), v) ==> !seq_contains(
                    remaining.deep_view(),
                    v,
                ),
        decreases remaining.len(),
    {
        let ghost rem0 = remaining.deep_view();
        let ghost ord0 = order.deep_view();
        // find the first node with no incoming edge from the rest
        let mut k: usize = 0;
        let mut found: Option<usize> = None;
        while k < remaining.len() && found.is_none()
            invariant
                rem0 == remaining.deep_view(),
                rem0.len() == remaining@.len(),
                ev == edges_view(edges@),
                0 <= k <= remaining.len(),
                found is None ==> forall|m: int| 0 <= m < k ==> blocked(rem0, ev, #[trigger] rem0[m]),
                found is Some ==> {
                    &&& 0 <= found->0 < remaining.len()
                    &&& found->0 == k
                    &&& !blocked(rem0, ev, rem0[found->0 as int])
                    &&& forall|m: int|
                        0 <= m < found->0 ==> blocked(rem0, ev, #[trigger] rem0[m])
                },
            decreases remaining.len() - k + (if found is Some { 0int } else { 1int }),
        {
            assert(rem0[k as int] == remaining@[k as int]@);
            if !is_blocked(&remaining, edges, &remaining[k]) {
                found = Some(k);
            } else {
                k = k + 1;
            }
        }
        match found {
            None => {
                proof {
                    assert(forall|m: int| 0 <= m < rem0.len() ==> blocked(rem0, ev, #[trigger] rem0[m]));
                    lemma_first_ready_none(rem0, ev, 0);
                    assert(rem0.len() > 0);
                    assert(spec_kahn(rem0, ev) is None);
                    assert(spec_kahn(nv, ev) is None);
                    assert forall|idx: int| 0 <= idx < rem0.len() implies seq_contains(
                        nv,
                        #[trigger] rem0[idx],
                    ) by {
                        assert(seq_contains(rem0, rem0[idx]));
                    }
                    assert forall|idx: int| 0 <= idx < rem0.len() implies blocked(
                        rem0,
                        ev,
                        #[trigger] rem0[idx],
                    ) by {}
                }
                return Err(remaining);
            },
            Some(kk) => {
                proof {
                    lemma_first_ready_at(rem0, ev, kk as int);
                }
                let picked = remaining.remove(kk);
                let ghost pv = picked@;
                proof {
                    assert(pv == rem0[kk as int]);
                    assert(remaining.deep_view() =~~= rem0.remove(kk as int));
                    let rem1 = remaining.deep_view();
                    // strict sortedness survives removal
                    assert forall|a: int, b: int| 0 <= a < b < rem1.len() implies lex_lt(
                        #[trigger] rem1[a],
                        #[trigger] rem1[b],
                    ) by {
                        let a0 = if a < kk { a } else { a + 1 };
                        let b0 = if b < kk { b } else { b + 1 };
                        assert(rem1[a] == rem0[a0]);
                        assert(rem1[b] == rem0[b0]);
                    }
                    // membership in the shrunk list
                    assert forall|v: Seq<u8>| #[trigger] seq_contains(rem1, v) implies seq_contains(
                        rem0,
                        v,
                    ) by {
                        let idx = choose|idx: int| 0 <= idx < rem1.len() && rem1[idx] =~= v;
                        let idx0 = if idx < kk { idx } else { idx + 1 };
                        assert(rem0[idx0] =~= v);
                    }
                    // a node of rem0 other than the picked one stays
                    assert forall|v: Seq<u8>|
                        seq_contains(rem0, v) && !(v =~= pv) implies #[trigger] seq_contains(
                        rem1,
                        v,
                    ) by {
                        let idx = choose|idx: int| 0 <= idx < rem0.len() && rem0[idx] =~= v;
                        if idx < kk {
                            assert(rem1[idx] =~= v);
                        } else {
                            // idx != kk since rem0[kk] == pv
                            assert(rem1[idx - 1] =~= v);
                        }
                    }
                }
                let ghost ord_pre = order.deep_view();
                order.push(picked);
                proof {
                    let ord1 = order.deep_view();
                    let rem1 = remaining.deep_view();
                    assert(ord1 =~~= ord_pre.push(pv));
                    // multiset bookkeeping
                    rem0.to_multiset_ensures();
                    ord_pre.to_multiset_ensures();
                    assert(rem0.remove(kk as int).to_multiset() =~= rem0.to_multiset().remove(pv));
                    assert(ord_pre.push(pv).to_multiset() =~= ord_pre.to_multiset().insert(pv));
                    assert(rem0.to_multiset().contains(pv));
                    assert(ord1.to_multiset().add(rem1.to_multiset()) =~= nv.to_multiset());
                    // membership: order grew by pv
                    assert forall|v: Seq<u8>| #[trigger] seq_contains(ord1, v) implies seq_contains(
                        ord_pre,
                        v,
                    ) || v =~= pv by {
                        let idx = choose|idx: int| 0 <= idx < ord1.len() && ord1[idx] =~= v;
                        if idx < ord_pre.len() {
                            assert(ord_pre[idx] =~= v);
                        }
                    }
                    assert forall|v: Seq<u8>| seq_contains(ord_pre, v) implies #[trigger] seq_contains(
                        ord1,
                        v,
                    ) by {
                        let idx = choose|idx: int| 0 <= idx < ord_pre.len() && ord_pre[idx] =~= v;
                        assert(ord1[idx] =~= v);
                    }
                    assert(seq_contains(ord1, pv)) by {
                        assert(ord1[ord_pre.len() as int] =~= pv);
                    }
                    assert(seq_contains(nv, pv)) by {
                        assert(seq_contains(rem0, pv)) by {
                            assert(rem0[kk as int] =~= pv);
                        }
                    }
                    // every node of nv is still in order or remaining
                    assert forall|v: Seq<u8>| seq_contains(nv, v) implies seq_contains(ord1, v)
                        || seq_contains(rem1, v) by {
                        if seq_contains(ord_pre, v) {
                        } else {
                            assert(seq_contains(rem0, v));
                            if v =~= pv {
                            } else {
                                assert(seq_contains(rem1, v));
                            }
                        }
                    }
                    // order stays disjoint from remaining
                    assert forall|v: Seq<u8>| #[trigger] seq_contains(ord1, v) implies !seq_contains(
                        rem1,
                        v,
                    ) by {
                        if seq_contains(ord_pre, v) {
                            if seq_contains(rem1, v) {
                                assert(seq_contains(rem0, v));
                            }
                        } else {
                            assert(v =~= pv);
                            if seq_contains(rem1, v) {
                                // pv cannot be in rem1: rem0 is strictly sorted, so pv
                                // occurs only at kk, which was removed
                                let idx = choose|idx: int|
                                    0 <= idx < rem1.len() && rem1[idx] =~= pv;
                                let idx0 = if idx < kk { idx } else { idx + 1 };
                                assert(rem0[idx0] =~= pv);
                                assert(rem0[kk as int] =~= pv);
                                if idx0 < kk {
                                    assert(lex_lt(rem0[idx0], rem0[kk as int]));
                                } else {
                                    assert(lex_lt(rem0[kk as int], rem0[idx0]));
                                }
                            }
                        }
                    }
                    // the emitted prefix still composes to the same mirror order
                    assert(spec_kahn(rem0, ev) == (match spec_kahn(rem0.remove(kk as int), ev) {
                        Some(rest) => Some(seq![pv] + rest),
                        None => None,
                    }));
                    assert(spec_kahn_extend(ord1, spec_kahn(rem1, ev)) == spec_kahn(nv, ev)) by {
                        assert(rem1 == rem0.remove(kk as int));
                        match spec_kahn(rem1, ev) {
                            Some(rest) => {
                                assert(spec_kahn(rem0, ev) == Some(seq![pv] + rest));
                                assert(ord_pre + (seq![pv] + rest) =~= ord1 + rest);
                                assert(spec_kahn_extend(ord_pre, spec_kahn(rem0, ev)) == Some(
                                    ord_pre + (seq![pv] + rest),
                                ));
                            },
                            None => {
                                assert(spec_kahn(rem0, ev) is None);
                            },
                        }
                    }
                    // precedence: any edge into a node of the new order is satisfied
                    assert forall|k2: int|
                        0 <= k2 < ev.len() && seq_contains(nv, (#[trigger] ev[k2]).from)
                            && seq_contains(ord1, ev[k2].to) implies precedes(
                        ord1,
                        ev[k2].from,
                        ev[k2].to,
                    ) by {
                        if seq_contains(ord_pre, ev[k2].to) {
                            assert(precedes(ord_pre, ev[k2].from, ev[k2].to));
                            let (a, b): (int, int) = choose|a: int, b: int|
                                0 <= a < b < ord_pre.len() && ord_pre[a] =~= ev[k2].from
                                    && ord_pre[b] =~= ev[k2].to;
                            assert(ord1[a] =~= ev[k2].from);
                            assert(ord1[b] =~= ev[k2].to);
                        } else {
                            assert(ev[k2].to =~= pv);
                            // pv was not blocked, so the source already left remaining
                            assert(!blocked(rem0, ev, pv));
                            assert(!seq_contains(rem0, ev[k2].from));
                            assert(seq_contains(ord_pre, ev[k2].from));
                            let a = choose|a: int|
                                0 <= a < ord_pre.len() && ord_pre[a] =~= ev[k2].from;
                            assert(ord1[a] =~= ev[k2].from);
                            assert(ord1[ord_pre.len() as int] =~= ev[k2].to);
                        }
                    }
                }
            },
        }
    }
    proof {
        let ord = order.deep_view();
        assert(remaining.deep_view().len() == 0);
        assert(spec_kahn(remaining.deep_view(), ev) == Some(Seq::<Seq<u8>>::empty()));
        assert(ord + Seq::<Seq<u8>>::empty() =~= ord);
        assert(Some(ord) == spec_kahn(nv, ev));
        assert(remaining.deep_view().to_multiset().len() == 0);
        assert(ord.to_multiset().add(remaining.deep_view().to_multiset()) =~= ord.to_multiset());
        assert forall|k2: int|
            0 <= k2 < edges@.len() && seq_contains(nv, (#[trigger] edges@[k2])@.from)
                && seq_contains(nv, edges@[k2]@.to) implies precedes(
            ord,
            edges@[k2]@.from,
            edges@[k2]@.to,
        ) by {
            assert(ev[k2] == edges@[k2]@);
            assert(seq_contains(ord, ev[k2].to) || seq_contains(
                remaining.deep_view(),
                ev[k2].to,
            ));
            assert(remaining.deep_view().len() == 0);
        }
    }
    Ok(order)
}

/// Determinism of the ordering: the node list handed to `toposort` is
/// required to be strictly sorted, and any two strictly sorted lists over
/// the same set of names are one and the same list. Together with the
/// edge relation this pins the output down as a function of the input
/// *set*, not of any arrival order.
pub proof fn lemma_sorted_input_unique(x: Seq<Seq<u8>>, y: Seq<Seq<u8>>)
    requires
        strictly_sorted(x),
        strictly_sorted(y),
        x.to_set() =~= y.to_set(),
    ensures
        x =~= y,
{
    broadcast use vstd::seq_lib::group_to_multiset_ensures;

    crate::bytes::lemma_lex_total_ordering();
    let leq = crate::bytes::lex_leq_fn();
    assert forall|i: int, j: int| 0 <= i < j < x.len() implies #[trigger] leq(x[i], x[j]) by {
        assert(lex_lt(x[i], x[j]));
    }
    assert forall|i: int, j: int| 0 <= i < j < y.len() implies #[trigger] leq(y[i], y[j]) by {
        assert(lex_lt(y[i], y[j]));
    }
    assert(x.no_duplicates()) by {
        assert forall|i: int, j: int| 0 <= i < x.len() && 0 <= j < x.len() && i != j implies x[i]
            != x[j] by {
            if i < j {
                assert(lex_lt(x[i], x[j]));
            } else {
                assert(lex_lt(x[j], x[i]));
            }
        }
    }
    assert(y.no_duplicates()) by {
        assert forall|i: int, j: int| 0 <= i < y.len() && 0 <= j < y.len() && i != j implies y[i]
            != y[j] by {
            if i < j {
                assert(lex_lt(y[i], y[j]));
            } else {
                assert(lex_lt(y[j], y[i]));
            }
        }
    }
    x.lemma_multiset_has_no_duplicates();
    y.lemma_multiset_has_no_duplicates();
    assert forall|e: Seq<u8>| true implies x.to_multiset().count(e) == y.to_multiset().count(
        e,
    ) by {
        if x.to_multiset().contains(e) {
            assert(x.contains(e));
            assert(x.to_set().contains(e));
            assert(y.to_set().contains(e));
            assert(y.contains(e));
            assert(y.to_multiset().contains(e));
        } else if y.to_multiset().contains(e) {
            assert(y.contains(e));
            assert(y.to_set().contains(e));
            assert(x.to_set().contains(e));
            assert(x.contains(e));
            assert(x.to_multiset().contains(e));
        }
    }
    assert(x.to_multiset() =~= y.to_multiset());
    vstd::seq_lib::lemma_sorted_unique(x, y, leq);
}

} // verus!
