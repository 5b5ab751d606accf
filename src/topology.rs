//! Acyclicity of a directed graph on nodes `0..n`, decided by repeatedly
//! placing a node whose predecessors have all been placed.
use vstd::prelude::*;

verus! {

/// Every edge joins two of the nodes `0..n`.
pub open spec fn edges_in_range(edges: Seq<(usize, usize)>, n: nat) -> bool {
    forall|k: int| 0 <= k < edges.len() ==> (#[trigger] edges[k]).0 < n && edges[k].1 < n
}

/// The source of edge `e` comes before its target in `order`.
pub open spec fn goes_forward(order: Seq<usize>, e: (usize, usize)) -> bool {
    exists|i: int, j: int| 0 <= i < j < order.len() && order[i] == e.0 && order[j] == e.1
}

/// `order` lists each of the nodes `0..n` once, and every edge goes from an
/// earlier node of the list to a later one.
pub open spec fn is_topological_order(order: Seq<usize>, n: nat, edges: Seq<(usize, usize)>) -> bool {
    &&& order.no_duplicates()
    &&& forall|i: int| 0 <= i < order.len() ==> #[trigger] order[i] < n
    &&& forall|v: usize| v < n ==> #[trigger] order.contains(v)
    &&& forall|k: int| 0 <= k < edges.len() ==> goes_forward(order, #[trigger] edges[k])
}

/// The graph has no cycle: its nodes can be listed so that every edge points
/// forward.
pub open spec fn acyclic(n: nat, edges: Seq<(usize, usize)>) -> bool {
    exists|order: Seq<usize>| is_topological_order(order, n, edges)
}

/// The number of entries that are `false`.
pub open spec fn count_false(s: Seq<bool>) -> nat
    decreases s.len(),
{
    if s.len() == 0 {
        0
    } else {
        count_false(s.drop_last()) + if s.last() {
            0nat
        } else {
            1nat
        }
    }
}

proof fn lemma_count_false_update(s: Seq<bool>, i: int)
    requires
        0 <= i < s.len(),
        !s[i],
    ensures
        count_false(s.update(i, true)) + 1 == count_false(s),
    decreases s.len(),
{
    let t = s.update(i, true);
    if i < s.len() - 1 {
        assert(t.drop_last() =~= s.drop_last().update(i, true));
        lemma_count_false_update(s.drop_last(), i);
    } else {
        assert(t.drop_last() =~= s.drop_last());
    }
}

proof fn lemma_count_false_zero(s: Seq<bool>)
    ensures
        count_false(s) == 0 <==> forall|i: int| 0 <= i < s.len() ==> #[trigger] s[i],
    decreases s.len(),
{
    if s.len() > 0 {
        lemma_count_false_zero(s.drop_last());
        if count_false(s) == 0 {
            assert forall|i: int| 0 <= i < s.len() implies #[trigger] s[i] by {
                if i < s.len() - 1 {
                    assert(s.drop_last()[i] == s[i]);
                }
            }
        }
        if forall|i: int| 0 <= i < s.len() ==> #[trigger] s[i] {
            assert(s[s.len() - 1]);
            assert forall|i: int| 0 <= i < s.drop_last().len() implies #[trigger] s.drop_last()[i] by {
                assert(s[i]);
            }
        }
    }
}

proof fn lemma_count_false_bound(s: Seq<bool>)
    ensures
        count_false(s) <= s.len(),
    decreases s.len(),
{
    if s.len() > 0 {
        lemma_count_false_bound(s.drop_last());
    }
}

/// Whether every edge into `v` comes from a placed node.
pub open spec fn ready(edges: Seq<(usize, usize)>, placed: Seq<bool>, v: usize) -> bool {
    forall|k: int|
        0 <= k < edges.len() && (#[trigger] edges[k]).1 == v ==> placed[edges[k].0 as int]
}

/// The earliest position of `order`, at or before `p`, holding an unplaced node.
proof fn lemma_first_unplaced(order: Seq<usize>, placed: Seq<bool>, n: nat, p: int) -> (m: int)
    requires
        0 <= p < order.len(),
        placed.len() == n,
        forall|i: int| 0 <= i < order.len() ==> #[trigger] order[i] < n,
        !placed[order[p] as int],
    ensures
        0 <= m <= p,
        !placed[order[m] as int],
        forall|i: int| 0 <= i < m ==> placed[#[trigger] order[i] as int],
    decreases p,
{
    if exists|i: int| 0 <= i < p && !placed[#[trigger] order[i] as int] {
        let i = choose|i: int| 0 <= i < p && !placed[#[trigger] order[i] as int];
        lemma_first_unplaced(order, placed, n, i)
    } else {
        p
    }
}

/// When some node is unplaced and no unplaced node is ready, the graph has a
/// cycle: the first unplaced node of any topological order would have an
/// unplaced predecessor before it.
proof fn lemma_stuck_means_cycle(
    n: nat,
    edges: Seq<(usize, usize)>,
    placed: Seq<bool>,
    v0: usize,
)
    requires
        placed.len() == n,
        v0 < n,
        !placed[v0 as int],
        edges_in_range(edges, n),
        forall|v: usize| v < n && !placed[v as int] ==> !#[trigger] ready(edges, placed, v),
    ensures
        !acyclic(n, edges),
{
    if acyclic(n, edges) {
        let order = choose|order: Seq<usize>| is_topological_order(order, n, edges);
        assert(order.contains(v0));
        let p = choose|p: int| 0 <= p < order.len() && order[p] == v0;
        let m = lemma_first_unplaced(order, placed, n, p);
        let w = order[m];
        assert(!ready(edges, placed, w));
        let k = choose|k: int|
            0 <= k < edges.len() && (#[trigger] edges[k]).1 == w && !placed[edges[k].0 as int];
        let (i, j) = choose|i: int, j: int|
            0 <= i < j < order.len() && order[i] == (#[trigger] edges[k]).0 && order[j]
                == edges[k].1;
        assert(j == m);
        assert(placed[order[i] as int]);
    }
}

/// Lists the nodes `0..n` in an order in which every edge points forward,
/// or gives `None` exactly when the graph has a cycle.
pub fn topological_order(n: usize, edges: &Vec<(usize, usize)>) -> (r: Option<Vec<usize>>)
    requires
        edges_in_range(edges@, n as nat),
    ensures
        r is Some <==> acyclic(n as nat, edges@),
        r matches Some(order) ==> is_topological_order(order@, n as nat, edges@),
{
    let mut placed: Vec<bool> = Vec::new();
    let mut i: usize = 0;
    while i < n
        invariant
            i <= n,
            placed@.len() == i,
            forall|j: int| 0 <= j < i ==> !#[trigger] placed@[j],
        decreases n - i,
    {
        placed.push(false);
        i = i + 1;
    }
    proof {
        assert forall|j: int| 0 <= j < n implies !#[trigger] placed@[j] by {}
        lemma_count_false_all(placed@);
    }
    let mut unplaced: usize = n;
    let mut order: Vec<usize> = Vec::new();
    while unplaced > 0
        invariant
            placed@.len() == n,
            edges_in_range(edges@, n as nat),
            unplaced == count_false(placed@),
            order@.no_duplicates(),
            forall|i: int| 0 <= i < order@.len() ==> #[trigger] order@[i] < n,
            forall|v: usize| v < n ==> (placed@[v as int] <==> #[trigger] order@.contains(v)),
            forall|k: int|
                0 <= k < edges@.len() && placed@[(#[trigger] edges@[k]).1 as int] ==> goes_forward(
                    order@,
                    edges@[k],
                ),
        decreases unplaced,
    {
        let mut v: usize = 0;
        let mut found = false;
        while v < n && !found
            invariant
                placed@.len() == n,
                v <= n,
                edges_in_range(edges@, n as nat),
                found ==> v < n && !placed@[v as int] && ready(edges@, placed@, v),
                !found ==> forall|w: usize| w < v && !placed@[w as int] ==> !#[trigger] ready(edges@, placed@, w),
            decreases n - v, if found { 0int } else { 1int },
        {
            if !placed[v] && node_ready(edges, &placed, v) {
                found = true;
            } else {
                v = v + 1;
            }
        }
        if !found {
            proof {
                lemma_count_false_zero(placed@);
                let j = choose|j: int| 0 <= j < placed@.len() && !placed@[j];
                lemma_stuck_means_cycle(n as nat, edges@, placed@, j as usize);
            }
            return None;
        }
        let ghost old_placed = placed@;
        let ghost old_order = order@;
        proof {
            lemma_count_false_update(placed@, v as int);
        }
        placed.set(v, true);
        order.push(v);
        unplaced = unplaced - 1;
        proof {
            assert(order@[order@.len() - 1] == v);
            assert(!old_order.contains(v));
            assert forall|i: int, j: int| 0 <= i < j < order@.len() implies order@[i] != order@[j] by {
                if j == order@.len() - 1 {
                    assert(old_order[i] == order@[i]);
                }
            }
            assert forall|w: usize| w < n implies (placed@[w as int] <==> #[trigger] order@.contains(w)) by {
                if old_order.contains(w) {
                    let i = choose|i: int| 0 <= i < old_order.len() && old_order[i] == w;
                    assert(order@[i] == w);
                }
                if order@.contains(w) && w != v {
                    let i = choose|i: int| 0 <= i < order@.len() && order@[i] == w;
                    assert(old_order[i] == w);
                }
            }
            assert forall|k: int|
                0 <= k < edges@.len() && placed@[(#[trigger] edges@[k]).1 as int] implies goes_forward(
                    order@,
                    edges@[k],
                ) by {
                if old_placed[edges@[k].1 as int] {
                    let (i, j) = choose|i: int, j: int|
                        0 <= i < j < old_order.len() && old_order[i] == edges@[k].0 && old_order[j]
                            == edges@[k].1;
                    assert(order@[i] == old_order[i] && order@[j] == old_order[j]);
                    assert(goes_forward(order@, edges@[k]));
                } else {
                    assert(edges@[k].1 == v);
                    assert(old_placed[edges@[k].0 as int]);
                    assert(old_order.contains(edges@[k].0));
                    let i = choose|i: int| 0 <= i < old_order.len() && old_order[i] == edges@[k].0;
                    assert(order@[i] == edges@[k].0);
                    assert(order@[order@.len() - 1] == edges@[k].1);
                    assert(goes_forward(order@, edges@[k]));
                }
            }
        }
    }
    proof {
        lemma_count_false_zero(placed@);
        assert forall|v: usize| v < n implies #[trigger] order@.contains(v) by {
            assert(placed@[v as int]);
        }
        assert forall|k: int| 0 <= k < edges@.len() implies goes_forward(order@, #[trigger] edges@[k]) by {
            assert(placed@[edges@[k].1 as int]);
        }
        assert(is_topological_order(order@, n as nat, edges@));
    }
    Some(order)
}

proof fn lemma_count_false_all(s: Seq<bool>)
    requires
        forall|j: int| 0 <= j < s.len() ==> !#[trigger] s[j],
    ensures
        count_false(s) == s.len(),
    decreases s.len(),
{
    if s.len() > 0 {
        lemma_count_false_all(s.drop_last());
    }
}

/// Whether every edge into `v` comes from a placed node.
fn node_ready(edges: &Vec<(usize, usize)>, placed: &Vec<bool>, v: usize) -> (r: bool)
    requires
        edges_in_range(edges@, placed@.len()),
    ensures
        r == ready(edges@, placed@, v),
{
    let mut k: usize = 0;
    while k < edges.len()
        invariant
            k <= edges@.len(),
            edges_in_range(edges@, placed@.len()),
            forall|m: int| 0 <= m < k && (#[trigger] edges@[m]).1 == v ==> placed@[edges@[m].0 as int],
        decreases edges@.len() - k,
    {
        let (a, b) = edges[k];
        if b == v && !placed[a] {
            return false;
        }
        k = k + 1;
    }
    true
}

} // verus!
