//! The directed graph that holds the optical nodes and their connections (a `petgraph` graph),
//! and the graph-theoretic notions its contracts use.
use vstd::prelude::*;
use crate::light::Light;
use crate::node_attr::NodeAttr;
use petgraph::graph::Graph;
use petgraph::Directed;

verus! {

// ---------------------------------------------------------------------------------------------
// Graph theory over edge lists `(source, target, weight)`.

/// There is an edge from `u` to `v`.
pub open spec fn has_edge<E>(edges: Seq<(usize, usize, E)>, u: int, v: int) -> bool {
    exists|i: int| 0 <= i < edges.len() && #[trigger] edges[i].0 == u && edges[i].1 == v
}

/// `p` (at least two nodes) follows edges from node to node.
pub open spec fn is_path<E>(edges: Seq<(usize, usize, E)>, p: Seq<int>) -> bool {
    &&& p.len() >= 2
    &&& forall|i: int| 0 <= i < p.len() - 1 ==> has_edge(edges, #[trigger] p[i], p[i + 1])
}

/// The edges contain a directed cycle (a self loop is a cycle).
pub open spec fn has_cycle<E>(edges: Seq<(usize, usize, E)>) -> bool {
    exists|p: Seq<int>| #[trigger] is_path(edges, p) && p[0] == p[p.len() - 1]
}

/// `order` lists the nodes `0..n` once each, every edge leading from an earlier to a later node.
pub open spec fn is_topological_order<E>(n: nat, edges: Seq<(usize, usize, E)>, order: Seq<usize>) -> bool {
    &&& order.len() == n
    &&& order.no_duplicates()
    &&& forall|j: int| 0 <= j < order.len() ==> #[trigger] order[j] < n
    &&& forall|i: int| 0 <= i < edges.len() ==> #[trigger] ordered_edge(order, edges[i].0, edges[i].1)
}

/// `u` is listed before `v` in `order`.
pub open spec fn ordered_edge(order: Seq<usize>, u: usize, v: usize) -> bool {
    exists|a: int, b: int| 0 <= a < b < order.len() && #[trigger] order[a] == u && #[trigger] order[b] == v
}

/// There is an edge between `u` and `v` in one direction or the other.
pub open spec fn adjacent<E>(edges: Seq<(usize, usize, E)>, u: int, v: int) -> bool {
    has_edge(edges, u, v) || has_edge(edges, v, u)
}

/// `u` and `v` are connected when the direction of the edges is ignored.
pub open spec fn connected<E>(edges: Seq<(usize, usize, E)>, u: int, v: int) -> bool {
    u == v || exists|p: Seq<int>| p.len() >= 2 && p[0] == u && p[p.len() - 1] == v
        && (forall|i: int| 0 <= i < p.len() - 1 ==> adjacent(edges, #[trigger] p[i], p[i + 1]))
}

/// The number of weakly connected components of the graph with nodes `0..n`: the number of
/// nodes that are not connected to any node of smaller index.
pub open spec fn component_count<E>(n: nat, edges: Seq<(usize, usize, E)>) -> nat {
    Set::new(|v: int| 0 <= v < n && forall|u: int| 0 <= u < v ==> !connected(edges, u, v)).len()
}

/// The source (`source`) or the target node of an edge.
pub open spec fn end_of<E>(e: (usize, usize, E), source: bool) -> usize {
    if source { e.0 } else { e.1 }
}

/// Node `v` (of nodes `0..n`) has no entering (`incoming`) or no leaving edge.
pub open spec fn is_external<E>(n: nat, edges: Seq<(usize, usize, E)>, v: usize, incoming: bool) -> bool {
    v < n && !(exists|i: int| 0 <= i < edges.len() && end_of(#[trigger] edges[i], !incoming) == v)
}

/// Some edge leaves or enters node `v`.
pub open spec fn touched<E>(edges: Seq<(usize, usize, E)>, v: usize) -> bool {
    exists|i: int| 0 <= i < edges.len() && (#[trigger] edges[i].0 == v || edges[i].1 == v)
}

/// All edges lead between nodes `0..n`.
pub open spec fn edges_in_range<E>(n: nat, edges: Seq<(usize, usize, E)>) -> bool {
    forall|i: int| 0 <= i < edges.len() ==> #[trigger] edges[i].0 < n && edges[i].1 < n
}

/// The edges with source and target swapped.
pub open spec fn reversed<E>(edges: Seq<(usize, usize, E)>) -> Seq<(usize, usize, E)> {
    Seq::new(edges.len(), |i: int| (edges[i].1, edges[i].0, edges[i].2))
}

/// Whether edges contain a cycle depends on their end points only.
pub proof fn lemma_cycle_endpoints<E1, E2>(e1: Seq<(usize, usize, E1)>, e2: Seq<(usize, usize, E2)>)
    requires
        e1.len() == e2.len(),
        forall|i: int| #![trigger e1[i]] #![trigger e2[i]] 0 <= i < e1.len() ==> e1[i].0 == e2[i].0 && e1[i].1 == e2[i].1,
    ensures
        has_cycle(e1) == has_cycle(e2),
{
    assert forall|u: int, v: int| has_edge(e1, u, v) == has_edge(e2, u, v) by {
        if has_edge(e1, u, v) {
            let k = choose|k: int| 0 <= k < e1.len() && #[trigger] e1[k].0 == u && e1[k].1 == v;
            assert(e2[k].0 == u && e2[k].1 == v);
        }
        if has_edge(e2, u, v) {
            let k = choose|k: int| 0 <= k < e2.len() && #[trigger] e2[k].0 == u && e2[k].1 == v;
            assert(e1[k].0 == e2[k].0 && e1[k].1 == e2[k].1);
            assert(e1[k].0 == u && e1[k].1 == v);
        }
    }
    if has_cycle(e1) {
        let p = choose|p: Seq<int>| #[trigger] is_path(e1, p) && p[0] == p[p.len() - 1];
        assert(is_path(e2, p));
    }
    if has_cycle(e2) {
        let p = choose|p: Seq<int>| #[trigger] is_path(e2, p) && p[0] == p[p.len() - 1];
        assert(is_path(e1, p));
    }
}

/// Reversing all edges neither creates nor removes a cycle.
pub proof fn lemma_reversed_cycle<E>(edges: Seq<(usize, usize, E)>)
    ensures
        has_cycle(reversed(edges)) == has_cycle(edges),
{
    let r = reversed(edges);
    if has_cycle(edges) {
        let p = choose|p: Seq<int>| #[trigger] is_path(edges, p) && p[0] == p[p.len() - 1];
        let q = p.reverse();
        assert forall|i: int| 0 <= i < q.len() - 1 implies has_edge(r, #[trigger] q[i], q[i + 1]) by {
            let j = p.len() - 2 - i;
            assert(has_edge(edges, p[j], p[j + 1]));
            let k = choose|k: int| 0 <= k < edges.len() && #[trigger] edges[k].0 == p[j] && edges[k].1 == p[j + 1];
            assert(r[k].0 == q[i] && r[k].1 == q[i + 1]);
        }
        assert(is_path(r, q));
    }
    if has_cycle(r) {
        let p = choose|p: Seq<int>| #[trigger] is_path(r, p) && p[0] == p[p.len() - 1];
        let q = p.reverse();
        assert forall|i: int| 0 <= i < q.len() - 1 implies has_edge(edges, #[trigger] q[i], q[i + 1]) by {
            let j = p.len() - 2 - i;
            assert(has_edge(r, p[j], p[j + 1]));
            let k = choose|k: int| 0 <= k < r.len() && #[trigger] r[k].0 == p[j] && r[k].1 == p[j + 1];
            assert(edges[k].0 == q[i] && edges[k].1 == q[i + 1]);
        }
        assert(is_path(edges, q));
    }
}

// ---------------------------------------------------------------------------------------------
// The petgraph graph, with its nodes (`NodeAttr`) and edges (`Light`).

/// A directed `petgraph` graph with 32-bit indices.
#[verifier::external_type_specification]
#[verifier::external_body]
#[verifier::reject_recursive_types(N)]
#[verifier::reject_recursive_types(E)]
#[verifier::reject_recursive_types(Ty)]
#[verifier::reject_recursive_types(Ix)]
pub struct ExGraph<N, E, Ty, Ix>(Graph<N, E, Ty, Ix>);

/// The marker type of directed `petgraph` graphs.
#[verifier::external_type_specification]
#[verifier::external_body]
pub struct ExDirected(Directed);

/// The nodes of an optical graph, by index.
pub uninterp spec fn graph_nodes(g: Graph<NodeAttr, Light, Directed, u32>) -> Seq<NodeAttr>;

/// The edges of an optical graph, by index: source node, target node, connection.
pub uninterp spec fn graph_edges(g: Graph<NodeAttr, Light, Directed, u32>) -> Seq<(usize, usize, Light)>;

/// An empty graph (`Graph::new`).
#[verifier::external_body]
pub(crate) fn graph_new() -> (g: Graph<NodeAttr, Light, Directed, u32>)
    ensures
        graph_nodes(g) == Seq::<NodeAttr>::empty(),
        graph_edges(g) == Seq::<(usize, usize, Light)>::empty(),
{
    Graph::new()
}

/// The number of nodes (`Graph::node_count`). A graph with 32-bit indices never holds more
/// than `u32::MAX` nodes: `Graph::add_node` asserts that the new index is not `u32::MAX`.
#[verifier::external_body]
pub(crate) fn graph_node_count(g: &Graph<NodeAttr, Light, Directed, u32>) -> (n: usize)
    ensures
        n == graph_nodes(*g).len(),
        n <= u32::MAX,
{
    g.node_count()
}

/// The number of edges (`Graph::edge_count`). A graph with 32-bit indices never holds more
/// than `u32::MAX` edges: `Graph::add_edge` asserts that the new index is not `u32::MAX`.
#[verifier::external_body]
pub(crate) fn graph_edge_count(g: &Graph<NodeAttr, Light, Directed, u32>) -> (n: usize)
    ensures
        n == graph_edges(*g).len(),
        n <= u32::MAX,
{
    g.edge_count()
}

/// Adds a node (`Graph::add_node`); it gets the next free index.
#[verifier::external_body]
pub(crate) fn graph_add_node(g: &mut Graph<NodeAttr, Light, Directed, u32>, n: NodeAttr) -> (i: usize)
    requires
        graph_nodes(*old(g)).len() < u32::MAX,
    ensures
        i == graph_nodes(*old(g)).len(),
        graph_nodes(*final(g)) == graph_nodes(*old(g)).push(n),
        graph_edges(*final(g)) == graph_edges(*old(g)),
{
    g.add_node(n).index()
}

/// Adds an edge (`Graph::add_edge`); it gets the next free index.
#[verifier::external_body]
pub(crate) fn graph_add_edge(g: &mut Graph<NodeAttr, Light, Directed, u32>, a: usize, b: usize, e: Light) -> (i: usize)
    requires
        a < graph_nodes(*old(g)).len(),
        b < graph_nodes(*old(g)).len(),
        graph_edges(*old(g)).len() < u32::MAX,
    ensures
        i == graph_edges(*old(g)).len(),
        graph_edges(*final(g)) == graph_edges(*old(g)).push((a, b, e)),
        graph_nodes(*final(g)) == graph_nodes(*old(g)),
{
    g.add_edge(petgraph::graph::NodeIndex::new(a), petgraph::graph::NodeIndex::new(b), e).index()
}

/// Removes an edge (`Graph::remove_edge`): the last edge takes the index of the removed one.
/// The index is at most `u32::MAX`, so that petgraph's conversion to a 32-bit index is exact.
#[verifier::external_body]
pub(crate) fn graph_remove_edge(g: &mut Graph<NodeAttr, Light, Directed, u32>, i: usize) -> (r: Option<Light>)
    requires
        i <= u32::MAX,
    ensures
        i < graph_edges(*old(g)).len() ==> r == Some(graph_edges(*old(g))[i as int].2)
            && graph_edges(*final(g)) == (if i + 1 == graph_edges(*old(g)).len() {
                graph_edges(*old(g)).drop_last()
            } else {
                graph_edges(*old(g)).drop_last().update(i as int, graph_edges(*old(g)).last())
            }),
        i >= graph_edges(*old(g)).len() ==> r is None && graph_edges(*final(g)) == graph_edges(*old(g)),
        graph_nodes(*final(g)) == graph_nodes(*old(g)),
{
    g.remove_edge(petgraph::graph::EdgeIndex::new(i))
}

/// The node at an index, if it exists (`Graph::node_weight`). The index is at most
/// `u32::MAX`, so that petgraph's conversion to a 32-bit index is exact.
#[verifier::external_body]
pub(crate) fn graph_node(g: &Graph<NodeAttr, Light, Directed, u32>, i: usize) -> (r: Option<&NodeAttr>)
    requires
        i <= u32::MAX,
    ensures
        r is Some <==> i < graph_nodes(*g).len(),
        r matches Some(n) ==> *n == graph_nodes(*g)[i as int],
{
    g.node_weight(petgraph::graph::NodeIndex::new(i))
}

/// The connection of an edge, if it exists (`Graph::edge_weight`). The index is at most
/// `u32::MAX`, so that petgraph's conversion to a 32-bit index is exact.
#[verifier::external_body]
pub(crate) fn graph_edge(g: &Graph<NodeAttr, Light, Directed, u32>, i: usize) -> (r: Option<&Light>)
    requires
        i <= u32::MAX,
    ensures
        r is Some <==> i < graph_edges(*g).len(),
        r matches Some(l) ==> *l == graph_edges(*g)[i as int].2,
{
    g.edge_weight(petgraph::graph::EdgeIndex::new(i))
}

/// The source and target node of an edge, if it exists (`Graph::edge_endpoints`). The index is
/// at most `u32::MAX`, so that petgraph's conversion to a 32-bit index is exact.
#[verifier::external_body]
pub(crate) fn graph_edge_endpoints(g: &Graph<NodeAttr, Light, Directed, u32>, i: usize) -> (r: Option<(usize, usize)>)
    requires
        i <= u32::MAX,
    ensures
        r is Some <==> i < graph_edges(*g).len(),
        r matches Some(ab) ==> ab.0 == graph_edges(*g)[i as int].0 && ab.1 == graph_edges(*g)[i as int].1,
{
    g.edge_endpoints(petgraph::graph::EdgeIndex::new(i)).map(|(a, b)| (a.index(), b.index()))
}

/// Replaces the node at an index and returns the former one (`std::mem::replace` on
/// `Graph::index_mut`).
#[verifier::external_body]
pub(crate) fn graph_replace_node(g: &mut Graph<NodeAttr, Light, Directed, u32>, i: usize, n: NodeAttr) -> (r: NodeAttr)
    requires
        i < graph_nodes(*old(g)).len(),
    ensures
        r == graph_nodes(*old(g))[i as int],
        graph_nodes(*final(g)) == graph_nodes(*old(g)).update(i as int, n),
        graph_edges(*final(g)) == graph_edges(*old(g)),
{
    std::mem::replace(&mut g[petgraph::graph::NodeIndex::new(i)], n)
}

/// Replaces the connection of an edge and returns the former one (`std::mem::replace` on
/// `Graph::index_mut`).
#[verifier::external_body]
pub(crate) fn graph_replace_edge(g: &mut Graph<NodeAttr, Light, Directed, u32>, i: usize, e: Light) -> (r: Light)
    requires
        i < graph_edges(*old(g)).len(),
    ensures
        r == graph_edges(*old(g))[i as int].2,
        graph_edges(*final(g)) == graph_edges(*old(g)).update(
            i as int, (graph_edges(*old(g))[i as int].0, graph_edges(*old(g))[i as int].1, e)),
        graph_nodes(*final(g)) == graph_nodes(*old(g)),
{
    std::mem::replace(&mut g[petgraph::graph::EdgeIndex::new(i)], e)
}

/// The indices of the edges leaving (`outgoing`) or entering node `n`
/// (`Graph::edges_directed`), each once, in an order the contract leaves open.
#[verifier::external_body]
pub(crate) fn graph_edges_directed(g: &Graph<NodeAttr, Light, Directed, u32>, n: usize, outgoing: bool) -> (r: Vec<usize>)
    requires
        n < graph_nodes(*g).len(),
    ensures
        r@.no_duplicates(),
        forall|j: int| 0 <= j < r@.len() ==> #[trigger] r@[j] < graph_edges(*g).len(),
        forall|i: int| 0 <= i < graph_edges(*g).len() ==> (r@.contains(i as usize) <==>
            #[trigger] end_of(graph_edges(*g)[i], outgoing) == n),
{
    let dir = if outgoing { petgraph::Direction::Outgoing } else { petgraph::Direction::Incoming };
    g.edges_directed(petgraph::graph::NodeIndex::new(n), dir).map(|e| petgraph::visit::EdgeRef::id(&e).index()).collect()
}

/// The neighbors of node `n` in either direction (`Graph::neighbors_undirected`); empty iff no
/// edge touches `n`.
#[verifier::external_body]
pub(crate) fn graph_neighbors_undirected(g: &Graph<NodeAttr, Light, Directed, u32>, n: usize) -> (r: Vec<usize>)
    requires
        n < graph_nodes(*g).len(),
    ensures
        r@.len() == 0 <==> !touched(graph_edges(*g), n),
{
    g.neighbors_undirected(petgraph::graph::NodeIndex::new(n)).map(|x| x.index()).collect()
}

/// The nodes without entering (`incoming`) or without leaving edges (`Graph::externals`), in
/// ascending order.
#[verifier::external_body]
pub(crate) fn graph_externals(g: &Graph<NodeAttr, Light, Directed, u32>, incoming: bool) -> (r: Vec<usize>)
    ensures
        r@.no_duplicates(),
        forall|v: usize| #[trigger] r@.contains(v) == is_external(graph_nodes(*g).len(), graph_edges(*g), v, incoming),
{
    let dir = if incoming { petgraph::Direction::Incoming } else { petgraph::Direction::Outgoing };
    g.externals(dir).map(|x| x.index()).collect()
}

/// Reverses the direction of all edges (`Graph::reverse`).
#[verifier::external_body]
pub(crate) fn graph_reverse(g: &mut Graph<NodeAttr, Light, Directed, u32>)
    ensures
        graph_edges(*final(g)) == reversed(graph_edges(*old(g))),
        graph_nodes(*final(g)) == graph_nodes(*old(g)),
{
    g.reverse()
}

/// Whether the graph contains a directed cycle (`petgraph::algo::is_cyclic_directed`).
#[verifier::external_body]
pub(crate) fn graph_is_cyclic(g: &Graph<NodeAttr, Light, Directed, u32>) -> (b: bool)
    ensures
        b == has_cycle(graph_edges(*g)),
{
    petgraph::algo::is_cyclic_directed(g)
}

/// A topological order of the nodes, or `None` if the graph has a cycle
/// (`petgraph::algo::toposort`).
#[verifier::external_body]
pub(crate) fn graph_toposort(g: &Graph<NodeAttr, Light, Directed, u32>) -> (r: Option<Vec<usize>>)
    ensures
        r is None <==> has_cycle(graph_edges(*g)),
        r matches Some(v) ==> is_topological_order(graph_nodes(*g).len(), graph_edges(*g), v@),
{
    petgraph::algo::toposort(g, None).ok().map(|v| v.into_iter().map(|x| x.index()).collect())
}

/// The number of weakly connected components (`petgraph::algo::connected_components`).
#[verifier::external_body]
pub(crate) fn graph_connected_components(g: &Graph<NodeAttr, Light, Directed, u32>) -> (c: usize)
    ensures
        c == component_count(graph_nodes(*g).len(), graph_edges(*g)),
{
    petgraph::algo::connected_components(g)
}

/// A list of `n` distinct node indices below `n` lists every node below `n`.
pub proof fn lemma_order_contains_all(order: Seq<usize>, n: nat, u: usize)
    requires
        order.len() == n,
        order.no_duplicates(),
        forall|j: int| 0 <= j < order.len() ==> #[trigger] order[j] < n,
        u < n,
    ensures
        order.contains(u),
{
    let ints = order.map_values(|x: usize| x as int);
    assert forall|a: int, b: int| 0 <= a < ints.len() && 0 <= b < ints.len() && a != b implies
        ints[a] != ints[b] by {
        assert(order[a] != order[b]);
    }
    assert(ints.no_duplicates());
    ints.unique_seq_to_set();
    let range = vstd::set_lib::set_int_range(0, n as int);
    vstd::set_lib::lemma_int_range(0, n as int);
    assert(ints.to_set().subset_of(range)) by {
        assert forall|x: int| ints.to_set().contains(x) implies range.contains(x) by {
            let j = choose|j: int| 0 <= j < ints.len() && ints[j] == x;
            assert(order[j] < n);
        }
    }
    if !order.contains(u) {
        assert(!ints.to_set().contains(u as int)) by {
            if ints.to_set().contains(u as int) {
                let j = choose|j: int| 0 <= j < ints.len() && ints[j] == u as int;
                assert(order[j] == u);
            }
        }
        ints.to_set().lemma_subset_not_in_lt(range, u as int);
    }
}

} // verus!
