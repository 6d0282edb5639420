//! Jokers: dependency edges between cards. `card_id` cannot be completed
//! before `joker_id` is done; jokers may have jokers of their own, forming a
//! tree under each card. The tree of a card is every card that a chain of
//! edges leads to from it, the card itself included.
use vstd::prelude::*;

use crate::models::{Card, CardJoker};
use crate::text::{ids, string_eq};

verus! {

broadcast use vstd::seq_lib::group_seq_properties;

/// Some joker edge leads from card `a` to card `b`.
pub open spec fn has_edge(edges: Seq<CardJoker>, a: Seq<char>, b: Seq<char>) -> bool {
    exists|i: int| 0 <= i < edges.len() && #[trigger] edges[i].card_id@ == a && edges[i].joker_id@ == b
}

/// `p` is a chain of cards, each linked to the next by a joker edge.
pub open spec fn is_path(edges: Seq<CardJoker>, p: Seq<Seq<char>>) -> bool {
    &&& p.len() >= 1
    &&& forall|k: int| 0 <= k < p.len() - 1 ==> has_edge(edges, #[trigger] p[k], p[k + 1])
}

/// `p` is a chain from `u` to `v`.
pub open spec fn walk(edges: Seq<CardJoker>, u: Seq<char>, v: Seq<char>, p: Seq<Seq<char>>) -> bool {
    is_path(edges, p) && p[0] == u && p.last() == v
}

/// Some chain of joker edges (possibly none) leads from `u` to `v`.
pub open spec fn reachable(edges: Seq<CardJoker>, u: Seq<char>, v: Seq<char>) -> bool {
    exists|p: Seq<Seq<char>>| #[trigger] walk(edges, u, v, p)
}

/// No chain of one or more edges leads from a card back to itself.
pub open spec fn acyclic(edges: Seq<CardJoker>) -> bool {
    forall|p: Seq<Seq<char>>| #[trigger] is_path(edges, p) && p.len() >= 2 ==> p[0] != p.last()
}

/// Every card reaches itself.
pub proof fn lemma_reachable_self(edges: Seq<CardJoker>, u: Seq<char>)
    ensures
        reachable(edges, u, u),
{
    assert(walk(edges, u, u, seq![u]));
}

/// A chain followed by one more edge.
pub proof fn lemma_walk_append(edges: Seq<CardJoker>, u: Seq<char>, w: Seq<char>, x: Seq<char>, p: Seq<Seq<char>>)
    requires
        walk(edges, u, w, p),
        has_edge(edges, w, x),
    ensures
        walk(edges, u, x, p.push(x)),
        reachable(edges, u, x),
{
    let q = p.push(x);
    assert forall|k: int| 0 <= k < q.len() - 1 implies has_edge(edges, #[trigger] q[k], q[k + 1]) by {
        if k < p.len() - 1 {
            assert(q[k] == p[k] && q[k + 1] == p[k + 1]);
        } else {
            assert(q[k] == w && q[k + 1] == x);
        }
    }
    assert(walk(edges, u, x, q));
}

/// Two chains joined end to end.
pub proof fn lemma_reachable_trans(edges: Seq<CardJoker>, u: Seq<char>, w: Seq<char>, v: Seq<char>)
    requires
        reachable(edges, u, w),
        reachable(edges, w, v),
    ensures
        reachable(edges, u, v),
{
    let p = choose|p: Seq<Seq<char>>| #[trigger] walk(edges, u, w, p);
    let q = choose|q: Seq<Seq<char>>| #[trigger] walk(edges, w, v, q);
    let r = p + q.drop_first();
    assert forall|k: int| 0 <= k < r.len() - 1 implies has_edge(edges, #[trigger] r[k], r[k + 1]) by {
        if k < p.len() - 1 {
            assert(r[k] == p[k] && r[k + 1] == p[k + 1]);
        } else {
            let j = k - (p.len() - 1);
            assert(r[k] == q[j]);
            assert(r[k + 1] == q[j + 1]);
        }
    }
    if q.len() == 1 {
        assert(r =~= p);
    } else {
        assert(r.last() == q.last());
    }
    assert(walk(edges, u, v, r));
}

/// Every card on a chain from `u` is reachable from `u`.
pub proof fn lemma_walk_prefix(edges: Seq<CardJoker>, u: Seq<char>, v: Seq<char>, p: Seq<Seq<char>>, k: int)
    requires
        walk(edges, u, v, p),
        0 <= k < p.len(),
    ensures
        reachable(edges, u, p[k]),
{
    let q = p.take(k + 1);
    assert forall|m: int| 0 <= m < q.len() - 1 implies has_edge(edges, #[trigger] q[m], q[m + 1]) by {
        assert(q[m] == p[m] && q[m + 1] == p[m + 1]);
    }
    assert(walk(edges, u, p[k], q));
}

/// Without cycles, no card appears twice on a chain.
pub proof fn lemma_acyclic_path_distinct(edges: Seq<CardJoker>, p: Seq<Seq<char>>)
    requires
        acyclic(edges),
        is_path(edges, p),
    ensures
        p.no_duplicates(),
{
    assert forall|i: int, j: int| 0 <= i < p.len() && 0 <= j < p.len() && i != j implies p[i] != p[j] by {
        let a = if i < j { i } else { j };
        let b = if i < j { j } else { i };
        let q = p.subrange(a, b + 1);
        assert forall|k: int| 0 <= k < q.len() - 1 implies has_edge(edges, #[trigger] q[k], q[k + 1]) by {
            assert(q[k] == p[a + k] && q[k + 1] == p[a + k + 1]);
        }
        assert(is_path(edges, q));
        assert(q[0] == p[a] && q.last() == p[b]);
    }
}

/// An edge followed by a chain.
proof fn lemma_reachable_prepend(edges: Seq<CardJoker>, u: Seq<char>, w: Seq<char>, v: Seq<char>)
    requires
        has_edge(edges, u, w),
        reachable(edges, w, v),
    ensures
        reachable(edges, u, v),
{
    lemma_walk_append(edges, u, u, w, seq![u]);
    lemma_reachable_trans(edges, u, w, v);
}

/// A chain in the graph with one more edge `c -> j` either is a chain of the
/// old graph, or the old graph leads from `u` to `c` and from `j` to `v`.
pub proof fn lemma_walk_split(edges: Seq<CardJoker>, e: CardJoker, u: Seq<char>, v: Seq<char>, p: Seq<Seq<char>>)
    requires
        walk(edges.push(e), u, v, p),
    ensures
        walk(edges, u, v, p) || (reachable(edges, u, e.card_id@) && reachable(edges, e.joker_id@, v)),
    decreases p.len(),
{
    let g = edges.push(e);
    if p.len() == 1 {
        assert(walk(edges, u, v, p));
    } else {
        let t = p.drop_first();
        let w = p[1];
        assert(has_edge(g, p[0], p[1]));
        assert forall|k: int| 0 <= k < t.len() - 1 implies has_edge(g, #[trigger] t[k], t[k + 1]) by {
            assert(t[k] == p[k + 1] && t[k + 1] == p[k + 2]);
        }
        assert(walk(g, w, v, t));
        lemma_walk_split(edges, e, w, v, t);
        let i = choose|i: int| 0 <= i < g.len() && #[trigger] g[i].card_id@ == p[0] && g[i].joker_id@ == p[1];
        if i < edges.len() {
            assert(g[i] == edges[i]);
            assert(has_edge(edges, u, w));
            if walk(edges, w, v, t) {
                assert forall|k: int| 0 <= k < p.len() - 1 implies has_edge(edges, #[trigger] p[k], p[k + 1]) by {
                    if k > 0 {
                        assert(p[k] == t[k - 1] && p[k + 1] == t[k]);
                    }
                }
                assert(walk(edges, u, v, p));
            } else {
                lemma_reachable_prepend(edges, u, w, e.card_id@);
            }
        } else {
            assert(g[i] == e);
            lemma_reachable_self(edges, u);
            if walk(edges, w, v, t) {
                assert(reachable(edges, e.joker_id@, v));
            }
        }
    }
}

/// Law: adding a joker edge `c -> j` keeps the joker graph free of cycles when
/// `c` is not in the tree of `j` — the check that `create_joker` makes.
pub proof fn lemma_new_joker_keeps_acyclic(edges: Seq<CardJoker>, e: CardJoker)
    requires
        acyclic(edges),
        !reachable(edges, e.joker_id@, e.card_id@),
    ensures
        acyclic(edges.push(e)),
{
    let g = edges.push(e);
    assert forall|p: Seq<Seq<char>>| #[trigger] is_path(g, p) && p.len() >= 2 implies p[0] != p.last() by {
        if p[0] == p.last() {
            let x = p[0];
            assert(walk(g, x, x, p));
            lemma_walk_split(edges, e, x, x, p);
            if walk(edges, x, x, p) {
                assert(is_path(edges, p));
            } else {
                lemma_reachable_trans(edges, e.joker_id@, x, e.card_id@);
            }
        }
    }
}

/// The card ids that the tree walk can ever meet: the root, and every edge's joker.
pub open spec fn tree_candidates(edges: Seq<CardJoker>, root: Seq<char>) -> Seq<Seq<char>> {
    seq![root] + edges.map_values(|e: CardJoker| e.joker_id@)
}

/// A list of distinct ids drawn from the root and the edges' jokers is no
/// longer than the number of edges plus one.
proof fn lemma_tree_bound(edges: Seq<CardJoker>, root: Seq<char>, r: Seq<Seq<char>>)
    requires
        r.no_duplicates(),
        forall|k: int| 0 <= k < r.len() ==> tree_candidates(edges, root).contains(#[trigger] r[k]),
    ensures
        r.len() <= edges.len() + 1,
{
    let t = tree_candidates(edges, root);
    r.unique_seq_to_set();
    assert(r.to_set().subset_of(t.to_set())) by {
        assert forall|x: Seq<char>| r.to_set().contains(x) implies t.to_set().contains(x) by {
            let k = choose|k: int| 0 <= k < r.len() && r[k] == x;
            assert(t.contains(r[k]));
        }
    }
    t.lemma_cardinality_of_set();
    vstd::set_lib::lemma_len_subset(r.to_set(), t.to_set());
}

/// Every id on a chain from the root lies in a list that holds the root and
/// holds, with each of its ids, every joker of that id.
proof fn lemma_closed_holds_walk(edges: Seq<CardJoker>, r: Seq<Seq<char>>, p: Seq<Seq<char>>, k: int)
    requires
        is_path(edges, p),
        r.contains(p[0]),
        0 <= k < p.len(),
        forall|m: int, i: int|
            0 <= m < r.len() && 0 <= i < edges.len() && #[trigger] edges[i].card_id@ == #[trigger] r[m]
                ==> r.contains(edges[i].joker_id@),
    ensures
        r.contains(p[k]),
    decreases k,
{
    if k > 0 {
        lemma_closed_holds_walk(edges, r, p, k - 1);
        assert(has_edge(edges, p[k - 1], p[k]));
        let i = choose|i: int| 0 <= i < edges.len() && #[trigger] edges[i].card_id@ == p[k - 1] && edges[i].joker_id@ == p[k];
        let m = choose|m: int| 0 <= m < r.len() && r[m] == p[k - 1];
        assert(edges[i].card_id@ == r[m]);
    }
}

/// The ids of the tree of `root`: `root` first, then every card that a chain
/// of joker edges leads to from it, each once.
pub fn tree_ids(edges: &Vec<CardJoker>, root: &String) -> (res: Vec<String>)
    ensures
        res.len() >= 1,
        res@[0]@ == root@,
        ids(res@).no_duplicates(),
        forall|v: Seq<char>| ids(res@).contains(v) <==> reachable(edges@, root@, v),
{
    let mut res: Vec<String> = Vec::new();
    res.push(root.clone());
    proof {
        lemma_reachable_self(edges@, root@);
        assert(ids(res@) =~= seq![root@]);
        assert(tree_candidates(edges@, root@)[0] == root@);
    }
    let mut done: usize = 0;
    while done < res.len()
        invariant
            1 <= res.len() <= edges.len() + 1,
            done <= res.len(),
            res@[0]@ == root@,
            ids(res@).no_duplicates(),
            forall|k: int| 0 <= k < res.len() ==> reachable(edges@, root@, #[trigger] ids(res@)[k]),
            forall|k: int| 0 <= k < res.len() ==> tree_candidates(edges@, root@).contains(#[trigger] ids(res@)[k]),
            forall|m: int, i: int|
                0 <= m < done && 0 <= i < edges.len() && #[trigger] edges@[i].card_id@ == #[trigger] ids(res@)[m]
                    ==> ids(res@).contains(edges@[i].joker_id@),
        decreases edges.len() + 1 - done,
    {
        let x = res[done].clone();
        let mut i: usize = 0;
        while i < edges.len()
            invariant
                1 <= res.len() <= edges.len() + 1,
                done < res.len(),
                x@ == ids(res@)[done as int],
                i <= edges.len(),
                res@[0]@ == root@,
                ids(res@).no_duplicates(),
                forall|k: int| 0 <= k < res.len() ==> reachable(edges@, root@, #[trigger] ids(res@)[k]),
                forall|k: int| 0 <= k < res.len() ==> tree_candidates(edges@, root@).contains(#[trigger] ids(res@)[k]),
                forall|m: int, j: int|
                    0 <= m < done && 0 <= j < edges.len() && #[trigger] edges@[j].card_id@ == #[trigger] ids(res@)[m]
                        ==> ids(res@).contains(edges@[j].joker_id@),
                forall|j: int| 0 <= j < i && #[trigger] edges@[j].card_id@ == x@ ==> ids(res@).contains(edges@[j].joker_id@),
            decreases edges.len() - i,
        {
            let from_x = string_eq(&edges[i].card_id, &x);
            if from_x {
                let present = crate::hand::contains_id(&res, &edges[i].joker_id);
                if !present {
                    let ghost old_ids = ids(res@);
                    let y = edges[i].joker_id.clone();
                    res.push(y);
                    proof {
                        let new_ids = ids(res@);
                        assert(new_ids =~= old_ids.push(edges@[i as int].joker_id@));
                        assert forall|a: int, b: int| 0 <= a < new_ids.len() && 0 <= b < new_ids.len() && a != b implies new_ids[a] != new_ids[b] by {
                            if a < old_ids.len() && b < old_ids.len() {
                                assert(old_ids[a] != old_ids[b]);
                            } else if a < old_ids.len() {
                                assert(old_ids.contains(old_ids[a]));
                            } else if b < old_ids.len() {
                                assert(old_ids.contains(old_ids[b]));
                            }
                        }
                        let px = choose|p: Seq<Seq<char>>| #[trigger] walk(edges@, root@, x@, p);
                        assert(has_edge(edges@, x@, edges@[i as int].joker_id@));
                        lemma_walk_append(edges@, root@, x@, edges@[i as int].joker_id@, px);
                        let t = tree_candidates(edges@, root@);
                        assert(t[i + 1] == edges@[i as int].joker_id@);
                        assert forall|k: int| 0 <= k < res.len() implies t.contains(#[trigger] new_ids[k]) by {
                            if k < old_ids.len() {
                                assert(new_ids[k] == old_ids[k]);
                            }
                        }
                        assert forall|k: int| 0 <= k < res.len() implies reachable(edges@, root@, #[trigger] new_ids[k]) by {
                            if k < old_ids.len() {
                                assert(new_ids[k] == old_ids[k]);
                            }
                        }
                        assert forall|m: int, j: int|
                            0 <= m < done && 0 <= j < edges.len() && #[trigger] edges@[j].card_id@ == #[trigger] new_ids[m]
                                implies new_ids.contains(edges@[j].joker_id@) by {
                            assert(new_ids[m] == old_ids[m]);
                            assert(old_ids.contains(edges@[j].joker_id@));
                            let q = choose|q: int| 0 <= q < old_ids.len() && old_ids[q] == edges@[j].joker_id@;
                            assert(new_ids[q] == old_ids[q]);
                        }
                        assert forall|j: int| 0 <= j <= i && #[trigger] edges@[j].card_id@ == x@ implies new_ids.contains(edges@[j].joker_id@) by {
                            if j < i {
                                assert(old_ids.contains(edges@[j].joker_id@));
                                let q = choose|q: int| 0 <= q < old_ids.len() && old_ids[q] == edges@[j].joker_id@;
                                assert(new_ids[q] == old_ids[q]);
                            } else {
                                assert(new_ids[old_ids.len() as int] == edges@[j].joker_id@);
                            }
                        }
                        lemma_tree_bound(edges@, root@, new_ids);
                        assert(x@ == new_ids[done as int]);
                    }
                }
            }
            i = i + 1;
        }
        done = done + 1;
    }
    proof {
        let r = ids(res@);
        assert forall|v: Seq<char>| reachable(edges@, root@, v) implies r.contains(v) by {
            let p = choose|p: Seq<Seq<char>>| #[trigger] walk(edges@, root@, v, p);
            assert(r[0] == root@);
            lemma_closed_holds_walk(edges@, r, p, p.len() - 1);
        }
        assert forall|v: Seq<char>| r.contains(v) implies reachable(edges@, root@, v) by {
            let k = choose|k: int| 0 <= k < r.len() && r[k] == v;
        }
    }
    res
}

} // verus!
