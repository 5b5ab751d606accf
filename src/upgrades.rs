//! The upgrade graph: purchasable nodes whose purchase reveals their direct
//! successors and improves the interpreter, the program or the unlock set.
use vstd::arithmetic::power2::pow2;
use vstd::prelude::*;

use petgraph::graph::NodeIndex;
use petgraph::{Directed, Direction, Graph};

use crate::cpu::{scaled, CpuOptions};
use crate::error::{ConfigurationError, RejectedCommand};
use crate::instruction::{Instruction, InstructionType};
use crate::program::{doubled_capacity, ProgramCode};
use crate::topology::{acyclic, edges_in_range, goes_forward, is_topological_order, topological_order};
use crate::unlocks::UnlockedInstructions;
use crate::wallet::Wallet;

verus! {

/// petgraph's adjacency-list graph, held opaque.
#[verifier::external_type_specification]
#[verifier::external_body]
#[verifier::reject_recursive_types(N)]
#[verifier::reject_recursive_types(E)]
#[verifier::reject_recursive_types(Ty)]
#[verifier::reject_recursive_types(Ix)]
pub struct ExGraph<N, E, Ty, Ix>(Graph<N, E, Ty, Ix>);

/// petgraph's marker for directed edges.
#[verifier::external_type_specification]
#[verifier::external_body]
pub struct ExDirected(Directed);

/// What an upgrade buys.
#[derive(Debug, Clone, Copy, PartialEq, Eq, Structural, Hash)]
pub enum UpgradeType {
    /// Halves the tick interval.
    CpuSpeed,
    /// Doubles the speed multiplier.
    CpuMultiplier,
    /// Doubles the program's capacity.
    MaxInstructions,
    /// Unlocks `IfGapTurnLeft`.
    UnlockIf,
}

impl UpgradeType {
    /// The text shown on the upgrade's button.
    pub fn label(&self) -> &'static str {
        match self {
            UpgradeType::CpuSpeed => "CPU Speed x2",
            UpgradeType::CpuMultiplier => "CPU Multiplier x2",
            UpgradeType::MaxInstructions => "Max Instructions x2",
            UpgradeType::UnlockIf => "Unlock If",
        }
    }
}

/// A node of the upgrade graph.
#[derive(Debug, Clone, Copy, PartialEq, Eq, Structural)]
pub struct Upgrade {
    pub upgrade_type: UpgradeType,
    pub level: u32,
    pub cost: usize,
    pub bought: bool,
}

impl Upgrade {
    pub open spec fn fresh(upgrade_type: UpgradeType, level: u32, cost: usize) -> Upgrade {
        Upgrade { upgrade_type, level, cost, bought: false }
    }

    /// A node not bought yet.
    pub fn new(upgrade_type: UpgradeType, level: u32, cost: usize) -> (r: Upgrade)
        ensures
            r == Upgrade::fresh(upgrade_type, level, cost),
    {
        Upgrade { upgrade_type, level, cost, bought: false }
    }

    pub fn cpu_speed(level: u32, cost: usize) -> (r: Upgrade)
        ensures
            r == Upgrade::fresh(UpgradeType::CpuSpeed, level, cost),
    {
        Upgrade::new(UpgradeType::CpuSpeed, level, cost)
    }

    pub fn cpu_multiplier(level: u32, cost: usize) -> (r: Upgrade)
        ensures
            r == Upgrade::fresh(UpgradeType::CpuMultiplier, level, cost),
    {
        Upgrade::new(UpgradeType::CpuMultiplier, level, cost)
    }

    pub fn max_instructions(level: u32, cost: usize) -> (r: Upgrade)
        ensures
            r == Upgrade::fresh(UpgradeType::MaxInstructions, level, cost),
    {
        Upgrade::new(UpgradeType::MaxInstructions, level, cost)
    }

    /// The text shown on the upgrade's button.
    pub fn label(&self) -> &'static str {
        self.upgrade_type.label()
    }
}

/// The event of a purchase, carrying what was bought.
#[derive(Debug, Clone, Copy, PartialEq, Eq, Structural)]
pub struct UpgradeBought {
    pub upgrade_type: UpgradeType,
}

/// A node of the upgrade graph, by its stable index.
#[derive(Debug, Clone, Copy, PartialEq, Eq, Structural)]
pub struct UpgradeNode(pub usize);

/// The petgraph graph that holds the upgrades.
pub type UpgradeGraph = Graph<Upgrade, (), Directed, u32>;

/// The node weights of an upgrade graph, by node index.
pub uninterp spec fn graph_nodes(g: UpgradeGraph) -> Seq<Upgrade>;

/// The edges of an upgrade graph as (source, target) pairs, in the order
/// they were added.
pub uninterp spec fn graph_edges(g: UpgradeGraph) -> Seq<(usize, usize)>;

/// The targets of the edges that leave `a`, the most recently added first.
pub open spec fn outgoing(edges: Seq<(usize, usize)>, a: usize) -> Seq<usize>
    decreases edges.len(),
{
    if edges.len() == 0 {
        Seq::empty()
    } else {
        let rest = outgoing(edges.drop_last(), a);
        if edges.last().0 == a {
            seq![edges.last().1] + rest
        } else {
            rest
        }
    }
}

/// Relies on `Graph::new`: a directed graph with no nodes and no edges.
#[verifier::external_body]
fn graph_new() -> (r: UpgradeGraph)
    ensures
        graph_nodes(r).len() == 0,
        graph_edges(r).len() == 0,
{
    Graph::new()
}

/// Relies on `Graph::add_node`: the weight becomes the next node, whose
/// index is returned. It panics when the `u32` index space is used up.
#[verifier::external_body]
fn graph_add_node(g: &mut UpgradeGraph, w: Upgrade) -> (r: usize)
    requires
        graph_nodes(*old(g)).len() < u32::MAX,
    ensures
        graph_nodes(*final(g)) == graph_nodes(*old(g)).push(w),
        graph_edges(*final(g)) == graph_edges(*old(g)),
        r == graph_nodes(*old(g)).len(),
{
    g.add_node(w).index()
}

/// Relies on `Graph::add_edge`: the edge is appended. It panics on a
/// missing node or when the `u32` index space is used up.
#[verifier::external_body]
fn graph_add_edge(g: &mut UpgradeGraph, a: usize, b: usize)
    requires
        a < graph_nodes(*old(g)).len(),
        b < graph_nodes(*old(g)).len(),
        graph_edges(*old(g)).len() < u32::MAX,
    ensures
        graph_nodes(*final(g)) == graph_nodes(*old(g)),
        graph_edges(*final(g)) == graph_edges(*old(g)).push((a, b)),
{
    g.add_edge(NodeIndex::new(a), NodeIndex::new(b), ());
}

/// Relies on indexing a `Graph` by `NodeIndex`: the weight of an existing node.
#[verifier::external_body]
fn graph_node_weight(g: &UpgradeGraph, i: usize) -> (r: Upgrade)
    requires
        i < graph_nodes(*g).len(),
    ensures
        r == graph_nodes(*g)[i as int],
{
    g[NodeIndex::new(i)]
}

/// Relies on mutable indexing of a `Graph` by `NodeIndex`: replaces the
/// weight of an existing node and nothing else.
#[verifier::external_body]
fn graph_set_node_weight(g: &mut UpgradeGraph, i: usize, w: Upgrade)
    requires
        i < graph_nodes(*old(g)).len(),
    ensures
        graph_nodes(*final(g)) == graph_nodes(*old(g)).update(i as int, w),
        graph_edges(*final(g)) == graph_edges(*old(g)),
{
    g[NodeIndex::new(i)] = w;
}

/// Relies on `Graph::neighbors_directed` with `Outgoing`: the targets of the
/// edges from the node, in reverse order of their addition.
#[verifier::external_body]
fn graph_outgoing(g: &UpgradeGraph, i: usize) -> (r: Vec<usize>)
    requires
        i < graph_nodes(*g).len(),
    ensures
        r@ == outgoing(graph_edges(*g), i),
{
    g.neighbors_directed(NodeIndex::new(i), Direction::Outgoing).map(|n| n.index()).collect()
}

proof fn lemma_outgoing_contains(edges: Seq<(usize, usize)>, a: usize, j: usize)
    ensures
        outgoing(edges, a).contains(j) <==> edges.contains((a, j)),
    decreases edges.len(),
{
    if edges.len() > 0 {
        let init = edges.drop_last();
        lemma_outgoing_contains(init, a, j);
        let rest = outgoing(init, a);
        assert(edges =~= init.push(edges.last()));
        if init.contains((a, j)) {
            let k = choose|k: int| 0 <= k < init.len() && init[k] == (a, j);
            assert(edges[k] == (a, j));
        }
        if edges.contains((a, j)) && edges.last() != (a, j) {
            let k = choose|k: int| 0 <= k < edges.len() && edges[k] == (a, j);
            assert(k < init.len());
            assert(init[k] == (a, j));
        }
        if edges.last().0 == a {
            let out = seq![edges.last().1] + rest;
            assert(out[0] == edges.last().1);
            if rest.contains(j) {
                let k = choose|k: int| 0 <= k < rest.len() && rest[k] == j;
                assert(out[k + 1] == j);
            }
            if out.contains(j) && edges.last().1 != j {
                let k = choose|k: int| 0 <= k < out.len() && out[k] == j;
                assert(k > 0);
                assert(rest[k - 1] == j);
            }
        }
        if edges.last() == (a, j) {
            assert(edges[edges.len() - 1] == (a, j));
        }
    }
}

/// The nodes of the graph a session starts with. Capacity upgrades cost
/// 10*2^l - 10 at level l, speed upgrades 10*3^l.
pub open spec fn seed_nodes() -> Seq<Upgrade> {
    seq![
        Upgrade::fresh(UpgradeType::MaxInstructions, 1, 10),
        Upgrade::fresh(UpgradeType::MaxInstructions, 2, 30),
        Upgrade::fresh(UpgradeType::MaxInstructions, 3, 70),
        Upgrade::fresh(UpgradeType::MaxInstructions, 4, 150),
        Upgrade::fresh(UpgradeType::CpuSpeed, 1, 30),
        Upgrade::fresh(UpgradeType::CpuSpeed, 2, 90),
        Upgrade::fresh(UpgradeType::CpuSpeed, 3, 270),
        Upgrade::fresh(UpgradeType::CpuSpeed, 4, 810),
        Upgrade::fresh(UpgradeType::CpuSpeed, 5, 2430),
        Upgrade::fresh(UpgradeType::UnlockIf, 1, 100),
    ]
}

/// The edges of the graph a session starts with: the first capacity upgrade
/// leads to the speed chain, and each speed level opens the next one along
/// with a capacity level (and, at level two, the conditional instruction).
pub open spec fn seed_edges() -> Seq<(usize, usize)> {
    seq![(0, 4), (4, 5), (4, 1), (5, 6), (5, 2), (5, 9), (6, 7), (6, 3), (7, 8)]
}

/// The seed graph has no cycle: listing its nodes as capacity 1, speed 1,
/// capacity 2, speed 2, speed 3, capacity 3, unlock, speed 4, capacity 4,
/// speed 5 makes every edge point forward.
pub proof fn lemma_seed_acyclic()
    ensures
        acyclic(seed_nodes().len(), seed_edges()),
{
    let o: Seq<usize> = seq![0, 4, 1, 5, 6, 2, 9, 7, 3, 8];
    let edges = seed_edges();
    assert(o.no_duplicates()) by {
        assert forall|i: int, j: int| 0 <= i < o.len() && 0 <= j < o.len() && i != j implies o[i]
            != o[j] by {}
    }
    assert forall|v: usize| v < 10 implies #[trigger] o.contains(v) by {
        let p: int = if v == 0 {
            0
        } else if v == 4 {
            1
        } else if v == 1 {
            2
        } else if v == 5 {
            3
        } else if v == 6 {
            4
        } else if v == 2 {
            5
        } else if v == 9 {
            6
        } else if v == 7 {
            7
        } else if v == 3 {
            8
        } else {
            9
        };
        assert(o[p] == v);
    }
    assert(goes_forward(o, edges[0])) by { assert(o[0] == 0 && o[1] == 4); }
    assert(goes_forward(o, edges[1])) by { assert(o[1] == 4 && o[3] == 5); }
    assert(goes_forward(o, edges[2])) by { assert(o[1] == 4 && o[2] == 1); }
    assert(goes_forward(o, edges[3])) by { assert(o[3] == 5 && o[4] == 6); }
    assert(goes_forward(o, edges[4])) by { assert(o[3] == 5 && o[5] == 2); }
    assert(goes_forward(o, edges[5])) by { assert(o[3] == 5 && o[6] == 9); }
    assert(goes_forward(o, edges[6])) by { assert(o[4] == 6 && o[7] == 7); }
    assert(goes_forward(o, edges[7])) by { assert(o[4] == 6 && o[8] == 3); }
    assert(goes_forward(o, edges[8])) by { assert(o[7] == 7 && o[9] == 8); }
    assert(is_topological_order(o, seed_nodes().len(), edges));
}

/// Whether purchasing `a` reveals `b` in a graph with these edges.
pub open spec fn edge_in(edges: Seq<(usize, usize)>, a: usize, b: usize) -> bool {
    edges.contains((a, b))
}

/// Node `j` is offered once it is a root, or once any one of its direct
/// predecessors has been bought; it does not wait for all of them.
pub open spec fn revealed_in(
    nodes: Seq<Upgrade>,
    edges: Seq<(usize, usize)>,
    roots: Seq<usize>,
    j: usize,
) -> bool {
    ||| roots.contains(j)
    ||| exists|a: usize| a < nodes.len() && nodes[a as int].bought && #[trigger] edge_in(edges, a, j)
}

/// Every bought node is an offered one.
pub open spec fn purchases_revealed(
    nodes: Seq<Upgrade>,
    edges: Seq<(usize, usize)>,
    roots: Seq<usize>,
) -> bool {
    forall|a: usize|
        #![trigger nodes[a as int]]
        a < nodes.len() && nodes[a as int].bought ==> revealed_in(nodes, edges, roots, a)
}

/// The upgrade graph of a session, with the nodes offered from the start.
#[derive(Debug)]
pub struct UpgradeTree {
    deps: UpgradeGraph,
    roots: Vec<usize>,
}

impl UpgradeTree {
    /// The nodes, by index.
    pub closed spec fn nodes(&self) -> Seq<Upgrade> {
        graph_nodes(self.deps)
    }

    /// The edges as (source, target) pairs.
    pub closed spec fn edges(&self) -> Seq<(usize, usize)> {
        graph_edges(self.deps)
    }

    /// The nodes offered from the start.
    pub closed spec fn roots(&self) -> Seq<usize> {
        self.roots@
    }

    /// Every edge and every root names an existing node, and the graph stays
    /// within petgraph's `u32` index space.
    pub open spec fn shape_wf(&self) -> bool {
        &&& self.nodes().len() < u32::MAX
        &&& self.edges().len() < u32::MAX
        &&& forall|k: int|
            0 <= k < self.edges().len() ==> (#[trigger] self.edges()[k]).0 < self.nodes().len()
                && self.edges()[k].1 < self.nodes().len()
        &&& forall|k: int| 0 <= k < self.roots().len() ==> #[trigger] self.roots()[k] < self.nodes().len()
    }

    /// The shape is sound and every bought node is one that was offered.
    pub open spec fn wf(&self) -> bool {
        &&& self.shape_wf()
        &&& purchases_revealed(self.nodes(), self.edges(), self.roots())
    }

    /// Whether purchasing `a` reveals `b`.
    pub open spec fn is_edge(&self, a: usize, b: usize) -> bool {
        edge_in(self.edges(), a, b)
    }

    /// Whether node `j` is offered: see `revealed_in`.
    pub open spec fn revealed(&self, j: usize) -> bool {
        revealed_in(self.nodes(), self.edges(), self.roots(), j)
    }

    /// The graph every session starts with; the same every time.
    pub fn seeded() -> (r: UpgradeTree)
        ensures
            r.wf(),
            r.nodes() == seed_nodes(),
            r.edges() == seed_edges(),
            r.roots() == seq![0usize],
            forall|j: usize| #[trigger] r.revealed(j) <==> j == 0,
            acyclic(r.nodes().len(), r.edges()),
    {
        let mut deps = graph_new();
        let m1 = graph_add_node(&mut deps, Upgrade::max_instructions(1, 10));
        let m2 = graph_add_node(&mut deps, Upgrade::max_instructions(2, 30));
        let m3 = graph_add_node(&mut deps, Upgrade::max_instructions(3, 70));
        let m4 = graph_add_node(&mut deps, Upgrade::max_instructions(4, 150));
        let s1 = graph_add_node(&mut deps, Upgrade::cpu_speed(1, 30));
        let s2 = graph_add_node(&mut deps, Upgrade::cpu_speed(2, 90));
        let s3 = graph_add_node(&mut deps, Upgrade::cpu_speed(3, 270));
        let s4 = graph_add_node(&mut deps, Upgrade::cpu_speed(4, 810));
        let s5 = graph_add_node(&mut deps, Upgrade::cpu_speed(5, 2430));
        let unlock_if = graph_add_node(&mut deps, Upgrade::new(UpgradeType::UnlockIf, 1, 100));
        graph_add_edge(&mut deps, m1, s1);
        graph_add_edge(&mut deps, s1, s2);
        graph_add_edge(&mut deps, s1, m2);
        graph_add_edge(&mut deps, s2, s3);
        graph_add_edge(&mut deps, s2, m3);
        graph_add_edge(&mut deps, s2, unlock_if);
        graph_add_edge(&mut deps, s3, s4);
        graph_add_edge(&mut deps, s3, m4);
        graph_add_edge(&mut deps, s4, s5);
        let mut roots: Vec<usize> = Vec::new();
        roots.push(m1);
        let r = UpgradeTree { deps, roots };
        proof {
            assert(r.nodes() =~= seed_nodes());
            assert(r.edges() =~= seed_edges());
            assert(r.roots() =~= seq![0usize]);
            lemma_seed_acyclic();
            assert forall|j: usize| #[trigger] r.revealed(j) <==> j == 0 by {
                if j == 0 {
                    assert(r.roots()[0] == 0);
                }
                if r.roots().contains(j) {
                    let k = choose|k: int| 0 <= k < r.roots().len() && r.roots()[k] == j;
                }
                assert forall|a: usize| a < r.nodes().len() implies !r.nodes()[a as int].bought by {
                    assert(!seed_nodes()[a as int].bought);
                }
            }
        }
        r
    }

    /// The number of nodes.
    pub fn len(&self) -> (r: usize)
        requires
            self.wf(),
        ensures
            r == self.nodes().len(),
    {
        self.nodes_len()
    }

    fn nodes_len(&self) -> (r: usize)
        requires
            self.shape_wf(),
        ensures
            r == self.nodes().len(),
    {
        graph_node_count(&self.deps)
    }

    /// The node at `idx`.
    pub fn node(&self, idx: usize) -> (r: Option<Upgrade>)
        requires
            self.shape_wf(),
        ensures
            r is Some <==> idx < self.nodes().len(),
            r matches Some(u) ==> u == self.nodes()[idx as int],
    {
        if idx < self.nodes_len() {
            Some(graph_node_weight(&self.deps, idx))
        } else {
            None
        }
    }

    /// The nodes that purchasing `idx` reveals, the most recently linked first.
    pub fn successors(&self, idx: usize) -> (r: Vec<usize>)
        requires
            self.shape_wf(),
            idx < self.nodes().len(),
        ensures
            r@ == outgoing(self.edges(), idx),
            forall|j: usize| r@.contains(j) <==> self.is_edge(idx, j),
    {
        let r = graph_outgoing(&self.deps, idx);
        proof {
            assert forall|j: usize| r@.contains(j) <==> self.is_edge(idx, j) by {
                lemma_outgoing_contains(self.edges(), idx, j);
            }
        }
        r
    }

    /// Whether node `j` is offered.
    pub fn is_revealed(&self, j: usize) -> (r: bool)
        requires
            self.shape_wf(),
        ensures
            r == self.revealed(j),
    {
        let mut k: usize = 0;
        while k < self.roots.len()
            invariant
                k <= self.roots@.len(),
                forall|m: int| 0 <= m < k ==> self.roots@[m] != j,
            decreases self.roots@.len() - k,
        {
            if self.roots[k] == j {
                proof {
                    assert(self.roots()[k as int] == j);
                }
                return true;
            }
            k = k + 1;
        }
        let n = self.nodes_len();
        let mut a: usize = 0;
        while a < n
            invariant
                self.shape_wf(),
                n == self.nodes().len(),
                a <= n,
                !self.roots().contains(j),
                forall|b: usize| b < a && self.nodes()[b as int].bought ==> !#[trigger] self.is_edge(b, j),
            decreases n - a,
        {
            let u = graph_node_weight(&self.deps, a);
            if u.bought {
                let succ = self.successors(a);
                let mut m: usize = 0;
                while m < succ.len()
                    invariant
                        m <= succ@.len(),
                        a < self.nodes().len(),
                        self.nodes()[a as int].bought,
                        forall|x: usize| succ@.contains(x) <==> self.is_edge(a, x),
                        forall|p: int| 0 <= p < m ==> succ@[p] != j,
                    decreases succ@.len() - m,
                {
                    if succ[m] == j {
                        proof {
                            assert(succ@[m as int] == j);
                            assert(self.is_edge(a, j));
                        }
                        return true;
                    }
                    m = m + 1;
                }
                proof {
                    assert(!succ@.contains(j));
                }
            }
            a = a + 1;
        }
        proof {
            assert forall|b: usize|
                b < self.nodes().len() && self.nodes()[b as int].bought implies !#[trigger] edge_in(
                self.edges(),
                b,
                j,
            ) by {
                assert(!self.is_edge(b, j));
            }
        }
        false
    }
}

/// Every root names one of `n` nodes.
pub open spec fn roots_in_range(roots: Seq<usize>, n: nat) -> bool {
    forall|k: int| 0 <= k < roots.len() ==> #[trigger] roots[k] < n
}

fn all_below(xs: &Vec<usize>, n: usize) -> (r: bool)
    ensures
        r == roots_in_range(xs@, n as nat),
{
    let mut k: usize = 0;
    while k < xs.len()
        invariant
            k <= xs@.len(),
            forall|m: int| 0 <= m < k ==> #[trigger] xs@[m] < n,
        decreases xs@.len() - k,
    {
        if xs[k] >= n {
            return false;
        }
        k = k + 1;
    }
    true
}

fn edges_below(edges: &Vec<(usize, usize)>, n: usize) -> (r: bool)
    ensures
        r == edges_in_range(edges@, n as nat),
{
    let mut k: usize = 0;
    while k < edges.len()
        invariant
            k <= edges@.len(),
            forall|m: int| 0 <= m < k ==> (#[trigger] edges@[m]).0 < n && edges@[m].1 < n,
        decreases edges@.len() - k,
    {
        let (a, b) = edges[k];
        if a >= n || b >= n {
            return false;
        }
        k = k + 1;
    }
    true
}

impl UpgradeTree {
    /// Builds a graph from a seed topology: its nodes by index, its edges as
    /// (source, target) pairs, and the nodes offered from the start. Refused
    /// when it is too large for `u32` indices, when an edge or a root names a
    /// missing node, when the edges form a cycle, or when a node marked bought
    /// is not offered, checked in that order.
    pub fn from_schedule(
        nodes: Vec<Upgrade>,
        edges: Vec<(usize, usize)>,
        roots: Vec<usize>,
    ) -> (r: Result<UpgradeTree, ConfigurationError>)
        ensures
            nodes@.len() >= u32::MAX || edges@.len() >= u32::MAX ==> r
                == Err::<UpgradeTree, _>(ConfigurationError::TooLarge),
            nodes@.len() < u32::MAX && edges@.len() < u32::MAX && !edges_in_range(
                edges@,
                nodes@.len(),
            ) ==> r == Err::<UpgradeTree, _>(ConfigurationError::DanglingEdge),
            nodes@.len() < u32::MAX && edges@.len() < u32::MAX && edges_in_range(
                edges@,
                nodes@.len(),
            ) && !roots_in_range(roots@, nodes@.len()) ==> r == Err::<UpgradeTree, _>(
                ConfigurationError::DanglingRoot,
            ),
            nodes@.len() < u32::MAX && edges@.len() < u32::MAX && edges_in_range(
                edges@,
                nodes@.len(),
            ) && roots_in_range(roots@, nodes@.len()) && !acyclic(nodes@.len(), edges@) ==> r
                == Err::<UpgradeTree, _>(ConfigurationError::Cycle),
            nodes@.len() < u32::MAX && edges@.len() < u32::MAX && edges_in_range(
                edges@,
                nodes@.len(),
            ) && roots_in_range(roots@, nodes@.len()) && acyclic(nodes@.len(), edges@)
                && !purchases_revealed(nodes@, edges@, roots@) ==> r == Err::<UpgradeTree, _>(
                ConfigurationError::UnrevealedPurchase,
            ),
            r is Ok <==> nodes@.len() < u32::MAX && edges@.len() < u32::MAX && edges_in_range(
                edges@,
                nodes@.len(),
            ) && roots_in_range(roots@, nodes@.len()) && acyclic(nodes@.len(), edges@)
                && purchases_revealed(nodes@, edges@, roots@),
            r matches Ok(t) ==> {
                &&& t.wf()
                &&& t.nodes() == nodes@
                &&& t.edges() == edges@
                &&& t.roots() == roots@
            },
    {
        let n = nodes.len();
        if n >= u32::MAX as usize || edges.len() >= u32::MAX as usize {
            return Err(ConfigurationError::TooLarge);
        }
        if !edges_below(&edges, n) {
            return Err(ConfigurationError::DanglingEdge);
        }
        if !all_below(&roots, n) {
            return Err(ConfigurationError::DanglingRoot);
        }
        if topological_order(n, &edges).is_none() {
            return Err(ConfigurationError::Cycle);
        }
        let mut deps = graph_new();
        let mut i: usize = 0;
        while i < n
            invariant
                n == nodes@.len(),
                n < u32::MAX,
                i <= n,
                graph_nodes(deps) == nodes@.subrange(0, i as int),
                graph_edges(deps).len() == 0,
            decreases n - i,
        {
            graph_add_node(&mut deps, nodes[i]);
            proof {
                assert(nodes@.subrange(0, i as int).push(nodes@[i as int]) =~= nodes@.subrange(
                    0,
                    i as int + 1,
                ));
            }
            i = i + 1;
        }
        let mut k: usize = 0;
        while k < edges.len()
            invariant
                n == nodes@.len(),
                edges@.len() < u32::MAX,
                k <= edges@.len(),
                edges_in_range(edges@, n as nat),
                graph_nodes(deps) == nodes@,
                graph_edges(deps) == edges@.subrange(0, k as int),
            decreases edges@.len() - k,
        {
            let (a, b) = edges[k];
            proof {
                assert(edges@[k as int].0 < n && edges@[k as int].1 < n);
            }
            graph_add_edge(&mut deps, a, b);
            proof {
                assert(edges@.subrange(0, k as int).push((a, b)) =~= edges@.subrange(
                    0,
                    k as int + 1,
                ));
            }
            k = k + 1;
        }
        proof {
            assert(nodes@.subrange(0, n as int) =~= nodes@);
            assert(edges@.subrange(0, edges@.len() as int) =~= edges@);
        }
        let t = UpgradeTree { deps, roots };
        let mut a: usize = 0;
        while a < n
            invariant
                n == nodes@.len(),
                a <= n,
                t.shape_wf(),
                t.nodes() == nodes@,
                t.edges() == edges@,
                t.roots() == roots@,
                acyclic(nodes@.len(), edges@),
                forall|b: usize|
                    #![trigger nodes@[b as int]]
                    b < a && nodes@[b as int].bought ==> revealed_in(nodes@, edges@, roots@, b),
            decreases n - a,
        {
            if nodes[a].bought && !t.is_revealed(a) {
                return Err(ConfigurationError::UnrevealedPurchase);
            }
            a = a + 1;
        }
        Ok(t)
    }
}

impl UpgradeTree {
    /// Buys node `idx` with gems from the wallet. Refused, with nothing
    /// changed, when the node does not exist, was bought before, is not
    /// offered yet, or costs more than the wallet holds. On success the cost
    /// leaves the wallet, the node is marked bought, and exactly its direct
    /// successors join the offered nodes.
    pub fn purchase(&mut self, idx: usize, wallet: &mut Wallet) -> (r: Result<
        UpgradeBought,
        RejectedCommand,
    >)
        requires
            old(self).wf(),
        ensures
            final(self).wf(),
            final(self).edges() == old(self).edges(),
            final(self).roots() == old(self).roots(),
            idx >= old(self).nodes().len() ==> r == Err::<UpgradeBought, _>(
                RejectedCommand::UnknownUpgrade,
            ),
            idx < old(self).nodes().len() && old(self).nodes()[idx as int].bought ==> r == Err::<
                UpgradeBought,
                _,
            >(RejectedCommand::AlreadyPurchased),
            idx < old(self).nodes().len() && !old(self).nodes()[idx as int].bought && !old(
                self,
            ).revealed(idx) ==> r == Err::<UpgradeBought, _>(RejectedCommand::NotRevealed),
            idx < old(self).nodes().len() && !old(self).nodes()[idx as int].bought && old(
                self,
            ).revealed(idx) && old(wallet).gems < old(self).nodes()[idx as int].cost ==> r == Err::<
                UpgradeBought,
                _,
            >(RejectedCommand::InsufficientFunds),
            r is Ok <==> idx < old(self).nodes().len() && !old(self).nodes()[idx as int].bought
                && old(self).revealed(idx) && old(wallet).gems >= old(self).nodes()[idx as int].cost,
            r is Ok ==> {
                let u = old(self).nodes()[idx as int];
                &&& r == Ok::<UpgradeBought, RejectedCommand>(
                    UpgradeBought { upgrade_type: u.upgrade_type },
                )
                &&& final(wallet).gems == old(wallet).gems - u.cost
                &&& final(self).nodes() == old(self).nodes().update(
                    idx as int,
                    Upgrade { bought: true, ..u },
                )
                &&& forall|j: usize| #[trigger]
                    final(self).revealed(j) <==> old(self).revealed(j) || old(self).is_edge(idx, j)
            },
            r is Err ==> final(self).nodes() == old(self).nodes() && *final(wallet) == *old(
                wallet,
            ),
    {
        if idx >= self.nodes_len() {
            return Err(RejectedCommand::UnknownUpgrade);
        }
        let u = graph_node_weight(&self.deps, idx);
        if u.bought {
            return Err(RejectedCommand::AlreadyPurchased);
        }
        if !self.is_revealed(idx) {
            return Err(RejectedCommand::NotRevealed);
        }
        if wallet.gems < u.cost {
            return Err(RejectedCommand::InsufficientFunds);
        }
        wallet.gems = wallet.gems - u.cost;
        let ghost before = *self;
        graph_set_node_weight(&mut self.deps, idx, Upgrade { bought: true, ..u });
        proof {
            assert forall|j: usize| #[trigger]
                self.revealed(j) <==> before.revealed(j) || before.is_edge(idx, j) by {
                if exists|a: usize|
                    a < self.nodes().len() && self.nodes()[a as int].bought
                        && #[trigger] self.is_edge(a, j) {
                    let a = choose|a: usize|
                        a < self.nodes().len() && self.nodes()[a as int].bought
                            && #[trigger] self.is_edge(a, j);
                    if a != idx {
                        assert(before.nodes()[a as int].bought);
                        assert(before.is_edge(a, j));
                    }
                }
                if exists|a: usize|
                    a < before.nodes().len() && before.nodes()[a as int].bought
                        && #[trigger] before.is_edge(a, j) {
                    let a = choose|a: usize|
                        a < before.nodes().len() && before.nodes()[a as int].bought
                            && #[trigger] before.is_edge(a, j);
                    assert(self.nodes()[a as int].bought);
                    assert(self.is_edge(a, j));
                }
                if before.is_edge(idx, j) {
                    assert(self.nodes()[idx as int].bought);
                    assert(self.is_edge(idx, j));
                }
            }
        }
        Ok(UpgradeBought { upgrade_type: u.upgrade_type })
    }

    /// Whether the wallet can pay for node `idx`.
    pub fn is_affordable(&self, idx: usize, wallet: &Wallet) -> (r: bool)
        requires
            self.wf(),
        ensures
            r <==> idx < self.nodes().len() && wallet.gems >= self.nodes()[idx as int].cost,
    {
        match self.node(idx) {
            Some(u) => wallet.gems >= u.cost,
            None => false,
        }
    }

    /// The nodes on offer: revealed and not bought yet, in increasing order.
    pub fn visible_upgrades(&self) -> (r: Vec<usize>)
        requires
            self.wf(),
        ensures
            forall|j: usize|
                r@.contains(j) <==> j < self.nodes().len() && !self.nodes()[j as int].bought
                    && self.revealed(j),
            forall|a: int, b: int| 0 <= a < b < r@.len() ==> r@[a] < r@[b],
    {
        let n = self.nodes_len();
        let mut r: Vec<usize> = Vec::new();
        let mut j: usize = 0;
        while j < n
            invariant
                self.wf(),
                n == self.nodes().len(),
                j <= n,
                forall|x: usize|
                    #![trigger r@.contains(x)]
                    #![trigger self.revealed(x)]
                    r@.contains(x) <==> x < j && !self.nodes()[x as int].bought && self.revealed(x),
                forall|k: int| 0 <= k < r@.len() ==> #[trigger] r@[k] < j,
                forall|a: int, b: int| 0 <= a < b < r@.len() ==> r@[a] < r@[b],
            decreases n - j,
        {
            let u = graph_node_weight(&self.deps, j);
            let ghost before = r@;
            if !u.bought && self.is_revealed(j) {
                r.push(j);
                proof {
                    assert(r@[r@.len() - 1] == j);
                    assert(r@.contains(j));
                }
            }
            proof {
                assert forall|x: usize|
                    #![trigger r@.contains(x)]
                    #![trigger self.revealed(x)]
                    r@.contains(x) <==> x < j + 1 && !self.nodes()[x as int].bought
                        && self.revealed(x) by {
                    assert(before.contains(x) <==> x < j && !self.nodes()[x as int].bought
                        && self.revealed(x));
                    if r@.contains(x) && x != j {
                        let k = choose|k: int| 0 <= k < r@.len() && r@[k] == x;
                        assert(k < before.len());
                        assert(before[k] == x);
                        assert(before.contains(x));
                    }
                    if before.contains(x) {
                        let k = choose|k: int| 0 <= k < before.len() && before[k] == x;
                        assert(r@[k] == x);
                    }
                    if x == j && r@.contains(x) {
                        assert(!u.bought);
                    }
                }
            }
            j = j + 1;
        }
        r
    }
}

/// What buying an upgrade of type `t` does to the interpreter parameters,
/// the program and the unlock set.
pub open spec fn upgrade_effect(
    t: UpgradeType,
    options: CpuOptions,
    capacity: usize,
) -> (CpuOptions, usize) {
    match t {
        UpgradeType::CpuSpeed => (
            CpuOptions {
                cpu_tick: if options.cpu_tick >= 2 {
                    (options.cpu_tick / 2) as u64
                } else {
                    options.cpu_tick
                },
                ..options
            },
            capacity,
        ),
        UpgradeType::CpuMultiplier => (
            CpuOptions { multiplier: scaled(options.multiplier, 2), ..options },
            capacity,
        ),
        UpgradeType::MaxInstructions => (options, doubled_capacity(capacity)),
        UpgradeType::UnlockIf => (options, capacity),
    }
}

/// Only a capacity upgrade changes the program's capacity, and it doubles
/// it (up to the largest `usize`); no upgrade ever lowers it.
pub proof fn lemma_capacity_only_grows(t: UpgradeType, options: CpuOptions, capacity: usize)
    ensures
        upgrade_effect(t, options, capacity).1 >= capacity,
        t == UpgradeType::MaxInstructions && 2 * capacity <= usize::MAX ==> upgrade_effect(
            t,
            options,
            capacity,
        ).1 == 2 * capacity,
        t != UpgradeType::MaxInstructions ==> upgrade_effect(t, options, capacity).1 == capacity,
{
}

/// The interpreter parameters and program capacity after applying the
/// upgrades `ts` in order.
pub open spec fn effects_after(ts: Seq<UpgradeType>, options: CpuOptions, capacity: usize) -> (
    CpuOptions,
    usize,
)
    decreases ts.len(),
{
    if ts.len() == 0 {
        (options, capacity)
    } else {
        let (o, c) = upgrade_effect(ts[0], options, capacity);
        effects_after(ts.drop_first(), o, c)
    }
}

/// How many of the upgrades `ts` are capacity upgrades.
pub open spec fn capacity_upgrades(ts: Seq<UpgradeType>) -> nat
    decreases ts.len(),
{
    if ts.len() == 0 {
        0
    } else {
        capacity_upgrades(ts.drop_first()) + if ts[0] == UpgradeType::MaxInstructions {
            1nat
        } else {
            0nat
        }
    }
}

/// Over any series of upgrades the capacity never falls, and while it fits
/// in a `usize` it is the starting capacity times 2^k, for k capacity
/// upgrades in the series: one that starts at one ends at 2^k.
pub proof fn lemma_capacity_after_upgrades(
    ts: Seq<UpgradeType>,
    options: CpuOptions,
    capacity: usize,
)
    ensures
        effects_after(ts, options, capacity).1 >= capacity,
        capacity * pow2(capacity_upgrades(ts)) <= usize::MAX ==> effects_after(
            ts,
            options,
            capacity,
        ).1 == capacity * pow2(capacity_upgrades(ts)),
    decreases ts.len(),
{
    if ts.len() > 0 {
        let (o, c) = upgrade_effect(ts[0], options, capacity);
        let rest = ts.drop_first();
        let k = capacity_upgrades(rest);
        lemma_capacity_only_grows(ts[0], options, capacity);
        lemma_capacity_after_upgrades(rest, o, c);
        vstd::arithmetic::power2::lemma_pow2_pos(k);
        assert(effects_after(ts, options, capacity) == effects_after(rest, o, c));
        if ts[0] == UpgradeType::MaxInstructions {
            assert(capacity_upgrades(ts) == k + 1);
            vstd::arithmetic::power2::lemma_pow2_unfold(k + 1);
            assert(pow2(k + 1) == 2 * pow2(k));
            if capacity * pow2(k + 1) <= usize::MAX {
                assert(capacity * pow2(k + 1) == (2 * capacity) * pow2(k)) by (nonlinear_arith)
                    requires
                        pow2(k + 1) == 2 * pow2(k),
                ;
                assert(2 * capacity <= capacity * pow2(k + 1)) by (nonlinear_arith)
                    requires
                        pow2(k + 1) == 2 * pow2(k),
                        pow2(k) > 0,
                ;
                assert(c == 2 * capacity);
                assert(c * pow2(k) <= usize::MAX);
                assert(effects_after(rest, o, c).1 == c * pow2(k));
                assert(effects_after(ts, options, capacity).1 == capacity * pow2(capacity_upgrades(ts)));
            }
        } else {
            assert(capacity_upgrades(ts) == k);
            assert(c == capacity);
            assert(capacity * pow2(capacity_upgrades(ts)) <= usize::MAX ==> effects_after(ts, options, capacity).1 == capacity * pow2(capacity_upgrades(ts)));
        }
    } else {
        assert(pow2(0) == 1) by {
            vstd::arithmetic::power2::lemma_pow2(0);
            vstd::arithmetic::power::lemma_pow0(2);
        }
        assert(capacity_upgrades(ts) == 0);
        assert(effects_after(ts, options, capacity).1 == capacity);
    }
}

/// Applies a bought upgrade: `CpuSpeed` halves the tick interval,
/// `CpuMultiplier` doubles the speed multiplier, `MaxInstructions` doubles
/// the program's capacity, and `UnlockIf` unlocks `IfGapTurnLeft`.
pub fn apply_upgrade(
    bought: UpgradeBought,
    cpu_options: &mut CpuOptions,
    program_code: &mut ProgramCode,
    unlocked_instructions: &mut UnlockedInstructions,
)
    requires
        old(cpu_options).wf(),
        old(program_code).wf(),
        old(unlocked_instructions).wf(),
    ensures
        final(cpu_options).wf(),
        final(program_code).wf(),
        final(unlocked_instructions).wf(),
        (*final(cpu_options), final(program_code).max_instructions) == upgrade_effect(
            bought.upgrade_type,
            *old(cpu_options),
            old(program_code).max_instructions,
        ),
        final(program_code).max_instructions >= old(program_code).max_instructions,
        final(program_code).code@ == old(program_code).code@,
        bought.upgrade_type == UpgradeType::UnlockIf ==> forall|i: Instruction| #[trigger]
            final(unlocked_instructions).is_unlocked(i) <==> old(unlocked_instructions).is_unlocked(
                i,
            ) || i == Instruction::IfGapTurnLeft,
        bought.upgrade_type == UpgradeType::UnlockIf ==> forall|c: u8| #[trigger]
            old(unlocked_instructions)@.contains_key(c) ==> final(unlocked_instructions)@.contains_key(
                c,
            ) && old(unlocked_instructions)@[c].is_prefix_of(final(unlocked_instructions)@[c]),
        bought.upgrade_type == UpgradeType::UnlockIf ==> final(unlocked_instructions)@.remove(
            InstructionType::Scanning.spec_code(),
        ) == old(unlocked_instructions)@.remove(InstructionType::Scanning.spec_code()),
        bought.upgrade_type != UpgradeType::UnlockIf ==> final(unlocked_instructions)@ == old(
            unlocked_instructions,
        )@,
{
    match bought.upgrade_type {
        UpgradeType::CpuSpeed => cpu_options.halve_tick(),
        UpgradeType::CpuMultiplier => cpu_options.double_multiplier(),
        UpgradeType::MaxInstructions => program_code.double_capacity(),
        UpgradeType::UnlockIf => unlocked_instructions.unlock(Instruction::IfGapTurnLeft),
    }
}

/// Relies on `Graph::node_count`: the number of nodes.
#[verifier::external_body]
fn graph_node_count(g: &UpgradeGraph) -> (r: usize)
    ensures
        r == graph_nodes(*g).len(),
{
    g.node_count()
}

} // verus!
