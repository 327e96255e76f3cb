//! The optical graph: optical nodes connected from output ports to input ports.
//!
//! Nodes are connected by [`Light`] connections from an output port of one node to an input
//! port of another node. Each port takes at most one connection and the graph never contains
//! a loop.
use vstd::prelude::*;
use crate::error::{OpmResult, OpossumError};
use crate::float_bits::is_finite;
use crate::graph::{
    graph_nodes, graph_edges, graph_new, graph_add_node, graph_add_edge, graph_node_count, graph_edge_count,
    graph_remove_edge, graph_node, graph_edge, graph_edges_directed, graph_replace_edge, end_of, has_cycle,
    edges_in_range, lemma_cycle_endpoints, has_edge, is_path,
};
use crate::light::{Light, LightView};
use crate::name_map::NameMap;
use crate::node_attr::NodeAttr;
use crate::properties::Proptype;
use crate::optic_ports::PortType;
use crate::text_order::str_eq;
use crate::ids::simple_text;
use petgraph::graph::Graph;
use petgraph::Directed;

verus! {

/// An optical graph.
#[derive(Debug)]
pub struct OpticGraph {
    g: Graph<NodeAttr, Light, Directed, u32>,
}

/// An output port of node `a` named `pa` is already connected.
pub open spec fn out_port_used(edges: Seq<(usize, usize, LightView)>, a: int, pa: Seq<char>) -> bool {
    exists|i: int| 0 <= i < edges.len() && #[trigger] edges[i].0 == a && edges[i].2.0 == pa
}

/// An input port of node `b` named `pb` is already connected.
pub open spec fn in_port_used(edges: Seq<(usize, usize, LightView)>, b: int, pb: Seq<char>) -> bool {
    exists|i: int| 0 <= i < edges.len() && #[trigger] edges[i].1 == b && edges[i].2.1 == pb
}

/// In a graph with the given nodes and edges, the nodes `a` and `b` exist, have the output
/// port `pa` and the input port `pb` respectively, and these ports are not yet connected.
pub open spec fn ports_allow(nodes: Seq<NodeAttr>, edges: Seq<(usize, usize, LightView)>,
    a: usize, pa: Seq<char>, b: usize, pb: Seq<char>) -> bool {
    &&& a < nodes.len()
    &&& nodes[a as int].effective_ports(PortType::Output).contains_key(pa)
    &&& b < nodes.len()
    &&& nodes[b as int].effective_ports(PortType::Input).contains_key(pb)
    &&& !out_port_used(edges, a as int, pa)
    &&& !in_port_used(edges, b as int, pb)
}

/// In a graph with the given nodes and edges, the connection from `a`/`pa` to `b`/`pb` at
/// distance `d` may be made: the ports allow it, the distance is finite, and no loop forms.
pub open spec fn connect_allowed(nodes: Seq<NodeAttr>, edges: Seq<(usize, usize, LightView)>,
    a: usize, pa: Seq<char>, b: usize, pb: Seq<char>, d: u64) -> bool {
    &&& ports_allow(nodes, edges, a, pa, b, pb)
    &&& is_finite(d)
    &&& !has_cycle(edges.push((a, b, (pa, pb, d, None::<u64>))))
}

/// No two edges leave the same node from the same port, and no two edges enter the same node
/// at the same port.
pub open spec fn ports_used_once(edges: Seq<(usize, usize, LightView)>) -> bool {
    &&& forall|i: int, j: int| 0 <= i < j < edges.len() ==>
        !(#[trigger] edges[i].0 == #[trigger] edges[j].0 && edges[i].2.0 == edges[j].2.0)
    &&& forall|i: int, j: int| 0 <= i < j < edges.len() ==>
        !(#[trigger] edges[i].1 == #[trigger] edges[j].1 && edges[i].2.1 == edges[j].2.1)
}

/// Every connection has a finite propagation distance.
pub open spec fn distances_finite(edges: Seq<(usize, usize, LightView)>) -> bool {
    forall|i: int| 0 <= i < edges.len() ==> is_finite(#[trigger] edges[i].2.2)
}

/// Every connection leaves its source node at one of its (effective) output ports and enters its
/// target node at one of its (effective) input ports.
pub open spec fn edge_ports_exist(nodes: Seq<NodeAttr>, edges: Seq<(usize, usize, LightView)>) -> bool {
    forall|i: int| 0 <= i < edges.len() ==> {
        &&& nodes[(#[trigger] edges[i]).0 as int].effective_ports(PortType::Output).contains_key(edges[i].2.0)
        &&& nodes[edges[i].1 as int].effective_ports(PortType::Input).contains_key(edges[i].2.1)
    }
}

impl OpticGraph {
    /// The nodes, by index.
    pub closed spec fn nodes(self) -> Seq<NodeAttr> {
        graph_nodes(self.g)
    }

    /// The edges, by index: source node, target node, connection.
    pub closed spec fn edges(self) -> Seq<(usize, usize, Light)> {
        graph_edges(self.g)
    }

    /// The edges with the abstract values of their connections.
    pub open spec fn edge_views(self) -> Seq<(usize, usize, LightView)> {
        self.edges().map_values(|e: (usize, usize, Light)| (e.0, e.1, e.2@))
    }

    /// Well-formedness: all nodes are well-formed, edges lead between existing nodes, each port
    /// takes at most one connection, every distance is finite and there is no loop.
    pub open spec fn wf(self) -> bool {
        &&& forall|i: int| 0 <= i < self.nodes().len() ==> (#[trigger] self.nodes()[i]).wf()
        &&& self.nodes().len() <= u32::MAX
        &&& self.edges().len() <= u32::MAX
        &&& edges_in_range(self.nodes().len(), self.edges())
        &&& ports_used_once(self.edge_views())
        &&& distances_finite(self.edge_views())
        &&& !has_cycle(self.edges())
    }

    /// The connection from `a`/`pa` to `b`/`pb` at distance `d` may be made.
    pub open spec fn can_connect(self, a: usize, pa: Seq<char>, b: usize, pb: Seq<char>, d: u64) -> bool {
        connect_allowed(self.nodes(), self.edge_views(), a, pa, b, pb, d)
    }

    /// The nodes exist, have the named ports, and these ports are not yet connected.
    pub open spec fn ports_allow(self, a: usize, pa: Seq<char>, b: usize, pb: Seq<char>) -> bool {
        ports_allow(self.nodes(), self.edge_views(), a, pa, b, pb)
    }

    /// Creates an empty graph.
    pub fn new() -> (g: Self)
        ensures
            g.wf(),
            g.nodes().len() == 0,
            g.edges().len() == 0,
    {
        let g = OpticGraph { g: graph_new() };
        assert(!has_cycle(g.edges())) by {
            if has_cycle(g.edges()) {
                let p = choose|p: Seq<int>| #[trigger] crate::graph::is_path(g.edges(), p) && p[0] == p[p.len() - 1];
                assert(crate::graph::has_edge(g.edges(), p[0], p[1]));
            }
        }
        g
    }

    /// Adds an optical node; returns its index, by which it is referenced later on.
    pub fn add_node(&mut self, node: NodeAttr) -> (i: usize)
        requires
            old(self).wf(),
            node.wf(),
            old(self).nodes().len() < u32::MAX,
        ensures
            final(self).wf(),
            i == old(self).nodes().len(),
            final(self).nodes() == old(self).nodes().push(node),
            final(self).edges() == old(self).edges(),
    {
        let i = graph_add_node(&mut self.g, node);
        assert(self.edge_views() == old(self).edge_views());
        i
    }

    /// The number of nodes.
    pub fn node_count(&self) -> (n: usize)
        ensures
            n == self.nodes().len(),
    {
        graph_node_count(&self.g)
    }

    /// The number of edges.
    pub fn edge_count(&self) -> (n: usize)
        ensures
            n == self.edges().len(),
    {
        graph_edge_count(&self.g)
    }

    /// The node of the given index.
    pub fn node_by_idx(&self, idx: usize) -> (r: OpmResult<&NodeAttr>)
        ensures
            r is Ok <==> idx < self.nodes().len(),
            r matches Ok(n) ==> *n == self.nodes()[idx as int],
            r matches Err(e) ==> e is OpticScenery,
    {
        if idx >= graph_node_count(&self.g) {
            return Err(OpossumError::OpticScenery("node index does not exist".to_owned()));
        }
        match graph_node(&self.g, idx) {
            Some(n) => Ok(n),
            None => Err(OpossumError::OpticScenery("node index does not exist".to_owned())),
        }
    }

    /// The index of the first node with the given identifier, if any.
    pub fn node_idx_by_uuid(&self, uuid: u128) -> (r: Option<usize>)
        ensures
            r matches Some(i) ==> i == uuid_index(self.nodes(), uuid),
            r is None ==> uuid_index(self.nodes(), uuid) == -1,
            r is None <==> !(exists|i: int| 0 <= i < self.nodes().len() && #[trigger] self.nodes()[i].spec_uuid() == uuid),
            r matches Some(i) ==> i < self.nodes().len() && self.nodes()[i as int].spec_uuid() == uuid
                && forall|j: int| 0 <= j < i ==> #[trigger] self.nodes()[j].spec_uuid() != uuid,
            r matches Some(i) ==> i < u32::MAX,
    {
        let n = graph_node_count(&self.g);
        let mut i: usize = 0;
        while i < n
            invariant
                n == self.nodes().len(),
                n <= u32::MAX,
                i <= n,
                forall|j: int| 0 <= j < i ==> #[trigger] self.nodes()[j].spec_uuid() != uuid,
            decreases n - i,
        {
            let node = graph_node(&self.g, i).unwrap();
            if node.uuid() == uuid {
                proof { lemma_uuid_index_from(self.nodes(), uuid, 0); }
                return Some(i);
            }
            i = i + 1;
        }
        proof { lemma_uuid_index_from(self.nodes(), uuid, 0); }
        None
    }

    /// The first node with the given identifier, if any.
    pub fn node_by_uuid(&self, uuid: u128) -> (r: Option<&NodeAttr>)
        ensures
            r is None <==> !(exists|i: int| 0 <= i < self.nodes().len() && #[trigger] self.nodes()[i].spec_uuid() == uuid),
            r matches Some(n) ==> exists|i: int| 0 <= i < self.nodes().len() && #[trigger] self.nodes()[i] == *n
                && n.spec_uuid() == uuid,
    {
        match self.node_idx_by_uuid(uuid) {
            Some(i) => graph_node(&self.g, i),
            None => None,
        }
    }

    /// Assembles a graph from its nodes and its serialized edges (as read from a model file).
    ///
    /// The nodes are added in the given order and kept as they are given, but for the names of
    /// reference nodes: every node of type `reference` is named `ref (<name>)` after the node
    /// whose identifier is its property `reference id`. Then the edges are connected in the
    /// given order, their node identifiers resolved to the first node with that identifier.
    ///
    /// Fails if a reference node refers to no node, if an identifier of an edge is not found, or
    /// if a connection is refused (see [`OpticGraph::connect_nodes`]).
    pub fn from_parts(nodes: Vec<NodeAttr>, edges: Vec<EdgeInfo>) -> (r: OpmResult<Self>)
        requires
            forall|i: int| 0 <= i < nodes@.len() ==> (#[trigger] nodes@[i]).wf(),
            forall|i: int| 0 <= i < nodes@.len() && (#[trigger] nodes@[i]).spec_node_type() == "reference"@
                ==> nodes@[i].spec_props().view().contains_key("reference id"@),
            nodes@.len() < u32::MAX,
            edges@.len() < u32::MAX,
        ensures
            r is Ok <==> references_resolvable(nodes@) && edges_resolvable(nodes@, edges@)
                && all_connectable(nodes@, resolved_edges(nodes@, edges@)),
            r matches Ok(g) ==> g.wf() && same_ports(g.nodes(), nodes@)
                && g.edge_views() == resolved_edges(nodes@, edges@)
                && same_identities(g.nodes(), nodes@),
            r matches Ok(g) ==> forall|j: int| 0 <= j < nodes@.len()
                ==> (#[trigger] g.nodes()[j]).spec_name() == reference_names(nodes@, nodes@.len())[j],
            r matches Ok(g) ==> forall|j: int| 0 <= j < nodes@.len()
                ==> same_but_name(#[trigger] g.nodes()[j], nodes@[j]),
    {
        let ghost input = nodes@;
        let mut g = OpticGraph::new();
        let mut rest = nodes;
        let n = rest.len();
        let mut i: usize = 0;
        while i < n
            invariant
                g.wf(),
                n == input.len(),
                n < u32::MAX,
                i <= n,
                g.edges().len() == 0,
                g.nodes() == input.take(i as int),
                rest@ == input.skip(i as int),
                forall|j: int| 0 <= j < input.len() ==> (#[trigger] input[j]).wf(),
            decreases n - i,
        {
            let node = rest.remove(0);
            assert(node == input[i as int]);
            g.add_node(node);
            assert(g.nodes() =~= input.take(i + 1));
            assert(rest@ =~= input.skip(i + 1));
            i = i + 1;
        }
        assert(g.nodes() =~= input);
        // assign the names of reference nodes
        let mut i: usize = 0;
        while i < n
            invariant
                g.wf(),
                n == input.len(),
                i <= n,
                g.edges().len() == 0,
                g.nodes().len() == n,
                input == nodes@,
                same_ports(g.nodes(), input),
                same_identities(g.nodes(), input),
                forall|j: int| i <= j < n ==> #[trigger] g.nodes()[j] == input[j],
                reference_names(input, i as nat).len() == n,
                forall|j: int| 0 <= j < n ==> same_but_name(#[trigger] g.nodes()[j], input[j]),
                forall|j: int| 0 <= j < n ==> (#[trigger] g.nodes()[j]).spec_name() == reference_names(input, i as nat)[j],
                forall|j: int| 0 <= j < i && (#[trigger] input[j]).spec_node_type() == "reference"@
                    ==> uuid_index(input, referenced_id(input[j])) != -1,
                forall|j: int| 0 <= j < input.len() && (#[trigger] input[j]).spec_node_type() == "reference"@
                    ==> input[j].spec_props().view().contains_key("reference id"@),
            decreases n - i,
        {
            let node = graph_node(&g.g, i).unwrap();
            if str_eq(node.node_type(), "reference") {
                let target = match node.get_property("reference id") {
                    Ok(Proptype::Uuid(u)) => *u,
                    _ => 0,
                };
                proof {
                    assert(input[i as int].spec_node_type() == "reference"@);
                    assert(target == referenced_id(input[i as int]));
                    lemma_uuid_index_same(g.nodes(), input, target, 0);
                }
                let ref_name = match g.node_by_uuid_name(target) {
                    Some(name) => name,
                    None => {
                        proof {
                            assert(uuid_index(input, referenced_id(input[i as int])) == -1);
                            assert(!references_resolvable(input));
                        }
                        return Err(OpossumError::OpticScenery(
                            "reference node found, which does not reference anything".to_owned()));
                    },
                };
                let mut new_name = "ref (".to_owned();
                new_name.append(ref_name.as_str());
                new_name.append(")");
                proof {
                    let prev = reference_names(input, i as nat);
                    let t = uuid_index(input, referenced_id(input[i as int]));
                    lemma_uuid_index_from(input, target, 0);
                    assert(0 <= t < n);
                    assert(g.nodes()[t].spec_name() == prev[t]);
                    assert(ref_name@ == prev[t]);
                    assert(reference_names(input, (i + 1) as nat) == prev.update(i as int,
                        "ref ("@ + ref_name@ + ")"@));
                }
                let ghost before = g.nodes();
                let mut node = crate::graph::graph_replace_node(&mut g.g, i, NodeAttr::new("", false));
                node.set_name(new_name.as_str());
                let ghost renamed = node;
                let _ = crate::graph::graph_replace_node(&mut g.g, i, node);
                proof {
                    assert(g.nodes() == before.update(i as int, renamed));
                    assert(renamed.spec_uuid() == input[i as int].spec_uuid());
                    assert(renamed.spec_node_type() == input[i as int].spec_node_type());
                    assert(g.edge_views() =~= Seq::<(usize, usize, LightView)>::empty());
                }
            } else {
                proof {
                    assert(input[i as int].spec_node_type() != "reference"@);
                    assert(reference_names(input, (i + 1) as nat) == reference_names(input, i as nat));
                }
            }
            i = i + 1;
        }
        // connect the edges
        let ghost nodes_now = g.nodes();
        let ghost resolved = resolved_edges(input, edges@);
        let m = edges.len();
        let mut k: usize = 0;
        while k < m
            invariant
                g.wf(),
                m == edges@.len(),
                m < u32::MAX,
                k <= m,
                input == nodes@,
                g.nodes() == nodes_now,
                same_ports(nodes_now, input),
                n == input.len(),
                nodes_now.len() == n,
                same_identities(nodes_now, input),
                resolved == resolved_edges(input, edges@),
                g.edge_views() == resolved.take(k as int),
                forall|j: int| 0 <= j < k ==> uuid_index(input, (#[trigger] edges@[j]).0) != -1
                    && uuid_index(input, edges@[j].1) != -1,
                forall|j: int| 0 <= j < k ==> connect_allowed(input, resolved.take(j),
                    (#[trigger] resolved[j]).0, resolved[j].2.0, resolved[j].1, resolved[j].2.1, resolved[j].2.2),
            decreases m - k,
        {
            let info = &edges[k];
            proof {
                lemma_uuid_index_same(g.nodes(), input, info.0, 0);
                lemma_uuid_index_same(g.nodes(), input, info.1, 0);
            }
            let a = match g.node_idx_by_uuid(info.0) {
                Some(a) => a,
                None => {
                    proof {
                        assert(uuid_index(input, edges@[k as int].0) == -1);
                        assert(!edges_resolvable(input, edges@));
                    }
                    let mut msg = "src id ".to_owned();
                    msg.append(crate::ids::hyphenated_string(info.0).as_str());
                    msg.append(" does not exist");
                    return Err(OpossumError::OpticScenery(msg));
                },
            };
            let b = match g.node_idx_by_uuid(info.1) {
                Some(b) => b,
                None => {
                    proof {
                        assert(uuid_index(input, edges@[k as int].1) == -1);
                        assert(!edges_resolvable(input, edges@));
                    }
                    let mut msg = "target id ".to_owned();
                    msg.append(crate::ids::hyphenated_string(info.1).as_str());
                    msg.append(" does not exist");
                    return Err(OpossumError::OpticScenery(msg));
                },
            };
            proof {
                assert(g.edge_views().len() == g.edges().len());
                assert(resolved.take(k as int).len() == k);
                assert(g.edges().len() == k);
                lemma_connect_allowed_same_ports(g.nodes(), input, resolved.take(k as int),
                    a, info.2@, b, info.3@, info.4);
                assert(resolved[k as int] == (a, b, (info.2@, info.3@, info.4, None::<u64>)));
            }
            match g.connect_nodes(a, info.2.as_str(), b, info.3.as_str(), info.4) {
                Ok(()) => {},
                Err(e) => {
                    let mut msg = "connecting OpticGraph nodes failed: ".to_owned();
                    msg.append(e.to_string().as_str());
                    return Err(OpossumError::OpticScenery(msg));
                },
            }
            assert(g.edge_views() =~= resolved.take(k + 1));
            k = k + 1;
        }
        proof {
            assert(resolved.take(m as int) =~= resolved);
            assert forall|j: int| 0 <= j < n && (#[trigger] input[j]).spec_node_type() == "reference"@
                implies uuid_index(input, referenced_id(input[j])) != -1 by {}
        }
        Ok(g)
    }

    /// The name of the first node with the given identifier, if any.
    fn node_by_uuid_name(&self, uuid: u128) -> (r: Option<String>)
        ensures
            r is None <==> uuid_index(self.nodes(), uuid) == -1,
            r matches Some(s) ==> s@ == self.nodes()[uuid_index(self.nodes(), uuid)].spec_name(),
    {
        match self.node_idx_by_uuid(uuid) {
            Some(i) => Some(graph_node(&self.g, i).unwrap().name().to_owned()),
            None => None,
        }
    }

    /// The indices of all nodes, in ascending order.
    pub fn node_idxs(&self) -> (v: Vec<usize>)
        ensures
            v@.len() == self.nodes().len(),
            forall|j: int| 0 <= j < v@.len() ==> #[trigger] v@[j] == j,
    {
        let n = graph_node_count(&self.g);
        let mut v: Vec<usize> = Vec::new();
        let mut i: usize = 0;
        while i < n
            invariant
                n == self.nodes().len(),
                i <= n,
                v@.len() == i,
                forall|j: int| 0 <= j < v@.len() ==> #[trigger] v@[j] == j,
            decreases n - i,
        {
            v.push(i);
            i = i + 1;
        }
        v
    }

    /// The connection of the edge of the given index.
    pub fn edge_by_idx(&self, idx: usize) -> (r: OpmResult<&Light>)
        ensures
            r is Ok <==> idx < self.edges().len(),
            r matches Ok(l) ==> *l == self.edges()[idx as int].2,
            r matches Err(e) ==> e is Other,
    {
        if idx >= graph_edge_count(&self.g) {
            return Err(OpossumError::Other("could not get edge weight".to_owned()));
        }
        match graph_edge(&self.g, idx) {
            Some(l) => Ok(l),
            None => Err(OpossumError::Other("could not get edge weight".to_owned())),
        }
    }

    /// The node indices in topological order: each node comes before the nodes it is
    /// connected to. This never fails, as the graph never contains a loop.
    pub fn topologically_sorted(&self) -> (r: OpmResult<Vec<usize>>)
        requires
            self.wf(),
        ensures
            r matches Ok(v) && crate::graph::is_topological_order(self.nodes().len(), self.edges(), v@),
    {
        match crate::graph::graph_toposort(&self.g) {
            Some(v) => Ok(v),
            None => Err(OpossumError::Analysis("topological sort failed".to_owned())),
        }
    }

    /// Whether the graph contains a detector node.
    pub fn contains_detector(&self) -> (b: bool)
        ensures
            b == exists|i: int| 0 <= i < self.nodes().len() && #[trigger] self.nodes()[i].spec_is_detector(),
    {
        let n = graph_node_count(&self.g);
        let mut i: usize = 0;
        while i < n
            invariant
                n == self.nodes().len(),
                n <= u32::MAX,
                i <= n,
                forall|j: int| 0 <= j < i ==> !#[trigger] self.nodes()[j].spec_is_detector(),
            decreases n - i,
        {
            if graph_node(&self.g, i).unwrap().is_detector() {
                return true;
            }
            i = i + 1;
        }
        false
    }

    /// Whether all nodes are connected to each other (ignoring the direction of the
    /// connections): the graph has exactly one weakly connected component.
    pub fn is_single_tree(&self) -> (b: bool)
        ensures
            b == (crate::graph::component_count(self.nodes().len(), self.edges()) == 1),
    {
        crate::graph::graph_connected_components(&self.g) == 1
    }

    /// Whether the node of the given index exists and has no entering connection.
    pub fn is_src_node(&self, idx: usize) -> (b: bool)
        ensures
            b == crate::graph::is_external(self.nodes().len(), self.edges(), idx, true),
    {
        let ext = crate::graph::graph_externals(&self.g, true);
        contains_index(&ext, idx)
    }

    /// Whether the node of the given index exists and has no leaving connection.
    pub fn is_sink_node(&self, idx: usize) -> (b: bool)
        ensures
            b == crate::graph::is_external(self.nodes().len(), self.edges(), idx, false),
    {
        let ext = crate::graph::graph_externals(&self.g, false);
        contains_index(&ext, idx)
    }

    /// The indices of the neighbors of a node in either direction; empty iff no connection
    /// touches the node.
    pub fn neighbors_undirected(&self, idx: usize) -> (v: Vec<usize>)
        requires
            idx < self.nodes().len(),
        ensures
            v@.len() == 0 <==> !crate::graph::touched(self.edges(), idx),
    {
        let v = crate::graph::graph_neighbors_undirected(&self.g, idx);
        v
    }

    /// The indices of the edges leaving (`outgoing`) or entering a node, each once.
    pub fn edges_directed(&self, idx: usize, outgoing: bool) -> (v: Vec<usize>)
        requires
            idx < self.nodes().len(),
        ensures
            v@.no_duplicates(),
            forall|j: int| 0 <= j < v@.len() ==> #[trigger] v@[j] < self.edges().len(),
            forall|i: int| 0 <= i < self.edges().len() ==> (v@.contains(i as usize) <==>
                #[trigger] end_of(self.edges()[i], outgoing) == idx),
    {
        graph_edges_directed(&self.g, idx, outgoing)
    }

    /// The light data keys arriving at a node, by the input port they arrive at: one entry for
    /// each entering connection that carries data.
    pub fn incoming_edges(&self, idx: usize) -> (m: NameMap<u64>)
        requires
            self.wf(),
            idx < self.nodes().len(),
        ensures
            m.wf(),
            forall|i: int| 0 <= i < self.edge_views().len() && #[trigger] self.edge_views()[i].1 == idx
                && self.edge_views()[i].2.3 is Some ==> m.view().contains_key(self.edge_views()[i].2.1)
                && m.view()[self.edge_views()[i].2.1] == self.edge_views()[i].2.3->Some_0,
            forall|p: Seq<char>| #[trigger] m.view().contains_key(p) ==> exists|i: int| 0 <= i < self.edge_views().len()
                && #[trigger] self.edge_views()[i].1 == idx && self.edge_views()[i].2.1 == p
                && self.edge_views()[i].2.3 == Some(m.view()[p]),
    {
        let idxs = graph_edges_directed(&self.g, idx, false);
        let ghost ev = self.edge_views();
        let mut m: NameMap<u64> = NameMap::new();
        let mut k: usize = 0;
        while k < idxs.len()
            invariant
                self.wf(),
                ev == self.edge_views(),
                idx < self.nodes().len(),
                m.wf(),
                idxs@.no_duplicates(),
                forall|j: int| 0 <= j < idxs@.len() ==> #[trigger] idxs@[j] < self.edges().len(),
                forall|i: int| 0 <= i < self.edges().len() ==> (idxs@.contains(i as usize) <==>
                    #[trigger] end_of(self.edges()[i], false) == idx),
                k <= idxs@.len(),
                forall|j: int| 0 <= j < k && ev[#[trigger] idxs@[j] as int].2.3 is Some ==>
                    m.view().contains_key(ev[idxs@[j] as int].2.1)
                    && m.view()[ev[idxs@[j] as int].2.1] == ev[idxs@[j] as int].2.3->Some_0,
                forall|p: Seq<char>| #[trigger] m.view().contains_key(p) ==> exists|j: int| 0 <= j < k
                    && ev[#[trigger] idxs@[j] as int].2.1 == p && ev[idxs@[j] as int].2.3 == Some(m.view()[p]),
            decreases idxs@.len() - k,
        {
            let e = graph_edge(&self.g, idxs[k]).unwrap();
            let ghost i = idxs@[k as int] as int;
            assert(ev[i].2 == e@);
            assert(idxs@.contains(i as usize));
            assert(end_of(self.edges()[i], false) == idx);
            assert(ev[i].1 == idx);
            match e.data() {
                Some(d) => {
                    let ghost before = m.view();
                    m.insert(e.target_port().to_owned(), d);
                    proof {
                        assert forall|j: int| 0 <= j < k + 1 && ev[#[trigger] idxs@[j] as int].2.3 is Some implies
                            m.view().contains_key(ev[idxs@[j] as int].2.1)
                            && m.view()[ev[idxs@[j] as int].2.1] == ev[idxs@[j] as int].2.3->Some_0 by {
                            if j < k {
                                let i2 = idxs@[j] as int;
                                if ev[i2].2.1 == ev[i].2.1 {
                                    assert(idxs@.contains(i2 as usize));
                                    assert(end_of(self.edges()[i2], false) == idx);
                                    assert(ev[i2].1 == idx);
                                    assert(i2 != i);
                                    if i2 < i {
                                        assert(!(ev[i2].1 == ev[i].1 && ev[i2].2.1 == ev[i].2.1));
                                    } else {
                                        assert(!(ev[i].1 == ev[i2].1 && ev[i].2.1 == ev[i2].2.1));
                                    }
                                }
                            }
                        }
                        assert forall|p: Seq<char>| #[trigger] m.view().contains_key(p) implies exists|j: int| 0 <= j < k + 1
                            && ev[#[trigger] idxs@[j] as int].2.1 == p && ev[idxs@[j] as int].2.3 == Some(m.view()[p]) by {
                            if p == ev[i].2.1 {
                                assert(ev[idxs@[k as int] as int].2.1 == p);
                            } else {
                                assert(before.contains_key(p));
                                let j = choose|j: int| 0 <= j < k && ev[#[trigger] idxs@[j] as int].2.1 == p
                                    && ev[idxs@[j] as int].2.3 == Some(before[p]);
                                assert(ev[idxs@[j] as int].2.1 == p);
                            }
                        }
                    }
                },
                None => {},
            }
            k = k + 1;
        }
        proof {
            assert forall|i: int| 0 <= i < ev.len() && #[trigger] ev[i].1 == idx && ev[i].2.3 is Some implies
                m.view().contains_key(ev[i].2.1) && m.view()[ev[i].2.1] == ev[i].2.3->Some_0 by {
                assert(end_of(self.edges()[i], false) == idx);
                assert(idxs@.contains(i as usize));
                let j = choose|j: int| 0 <= j < idxs@.len() && idxs@[j] == i as usize;
                assert(ev[idxs@[j] as int].2.3 is Some);
            }
            assert forall|p: Seq<char>| #[trigger] m.view().contains_key(p) implies exists|i: int| 0 <= i < ev.len()
                && #[trigger] ev[i].1 == idx && ev[i].2.1 == p && ev[i].2.3 == Some(m.view()[p]) by {
                let j = choose|j: int| 0 <= j < k && ev[#[trigger] idxs@[j] as int].2.1 == p
                    && ev[idxs@[j] as int].2.3 == Some(m.view()[p]);
                let i = idxs@[j] as int;
                assert(idxs@.contains(i as usize));
                assert(end_of(self.edges()[i], false) == idx);
                assert(ev[i].1 == idx);
            }
        }
        m
    }

    /// Attaches light data (its key) to the connection leaving the node at the given output
    /// port. If that port is not connected, nothing changes (the data is dropped).
    pub fn set_outgoing_edge_data(&mut self, idx: usize, port: &str, data: u64)
        requires
            old(self).wf(),
        ensures
            final(self).wf(),
            final(self).nodes() == old(self).nodes(),
            out_port_used(old(self).edge_views(), idx as int, port@) ==> exists|i: int|
                0 <= i < old(self).edge_views().len() && #[trigger] old(self).edge_views()[i].0 == idx
                && old(self).edge_views()[i].2.0 == port@
                && final(self).edge_views() == old(self).edge_views().update(i, (idx, old(self).edge_views()[i].1,
                    (port@, old(self).edge_views()[i].2.1, old(self).edge_views()[i].2.2, Some(data)))),
            !out_port_used(old(self).edge_views(), idx as int, port@) ==> final(self).edges() == old(self).edges(),
    {
        if idx >= graph_node_count(&self.g) {
            proof {
                if out_port_used(self.edge_views(), idx as int, port@) {
                    let i = choose|i: int| 0 <= i < self.edge_views().len() && #[trigger] self.edge_views()[i].0 == idx
                        && self.edge_views()[i].2.0 == port@;
                    assert(self.edges()[i].0 < self.nodes().len());
                }
            }
            return;
        }
        let idxs = graph_edges_directed(&self.g, idx, true);
        let ghost ev = self.edge_views();
        let mut found: Option<usize> = None;
        let mut k: usize = 0;
        while k < idxs.len()
            invariant
                ev == self.edge_views(),
                self.edges().len() <= u32::MAX,
                idx < self.nodes().len(),
                idxs@.no_duplicates(),
                forall|j: int| 0 <= j < idxs@.len() ==> #[trigger] idxs@[j] < self.edges().len(),
                forall|i: int| 0 <= i < self.edges().len() ==> (idxs@.contains(i as usize) <==>
                    #[trigger] end_of(self.edges()[i], true) == idx),
                k <= idxs@.len(),
                found matches Some(i) ==> i < self.edges().len() && ev[i as int].0 == idx && ev[i as int].2.0 == port@,
                found is None ==> forall|j: int| 0 <= j < k ==> ev[#[trigger] idxs@[j] as int].2.0 != port@,
            decreases idxs@.len() - k,
        {
            let e = graph_edge(&self.g, idxs[k]).unwrap();
            if str_eq(e.src_port(), port) {
                proof {
                    let i = idxs@[k as int] as int;
                    assert(idxs@.contains(i as usize));
                    assert(end_of(self.edges()[i], true) == idx);
                }
                found = Some(idxs[k]);
            }
            k = k + 1;
        }
        match found {
            Some(i) => {
                let mut light = graph_replace_edge(&mut self.g, i, Light::detached());
                light.set_data(Some(data));
                let _ = graph_replace_edge(&mut self.g, i, light);
                proof {
                    assert(self.edge_views() =~= ev.update(i as int, (idx, ev[i as int].1,
                        (port@, ev[i as int].2.1, ev[i as int].2.2, Some(data)))));
                    let nv = self.edge_views();
                    assert forall|a: int, b: int| 0 <= a < b < nv.len() implies
                        !(#[trigger] nv[a].0 == #[trigger] nv[b].0 && nv[a].2.0 == nv[b].2.0) by {
                        assert(nv[a].0 == ev[a].0 && nv[a].2.0 == ev[a].2.0);
                        assert(nv[b].0 == ev[b].0 && nv[b].2.0 == ev[b].2.0);
                    }
                    assert forall|a: int, b: int| 0 <= a < b < nv.len() implies
                        !(#[trigger] nv[a].1 == #[trigger] nv[b].1 && nv[a].2.1 == nv[b].2.1) by {
                        assert(nv[a].1 == ev[a].1 && nv[a].2.1 == ev[a].2.1);
                        assert(nv[b].1 == ev[b].1 && nv[b].2.1 == ev[b].2.1);
                    }
                    assert forall|a: int| 0 <= a < nv.len() implies is_finite(#[trigger] nv[a].2.2) by {
                        assert(nv[a].2.2 == ev[a].2.2);
                    }
                    lemma_cycle_endpoints(self.edges(), old(self).edges());
                }
            },
            None => {
                proof {
                    if out_port_used(ev, idx as int, port@) {
                        let i = choose|i: int| 0 <= i < ev.len() && #[trigger] ev[i].0 == idx && ev[i].2.0 == port@;
                        assert(end_of(self.edges()[i], true) == idx);
                        assert(idxs@.contains(i as usize));
                        let j = choose|j: int| 0 <= j < idxs@.len() && idxs@[j] == i as usize;
                        assert(ev[idxs@[j] as int].2.0 != port@);
                    }
                }
            },
        }
    }

    /// An entering connection of a node, if there is one: the node it comes from, the output
    /// port it leaves that node at, and its distance.
    pub fn incoming_connection(&self, idx: usize) -> (r: Option<(usize, String, u64)>)
        requires
            self.wf(),
            idx < self.nodes().len(),
        ensures
            r is None <==> !(exists|i: int| 0 <= i < self.edge_views().len() && #[trigger] self.edge_views()[i].1 == idx),
            r matches Some(c) ==> exists|i: int| 0 <= i < self.edge_views().len() && #[trigger] self.edge_views()[i].1 == idx
                && self.edge_views()[i].0 == c.0 && self.edge_views()[i].2.0 == c.1@ && self.edge_views()[i].2.2 == c.2,
    {
        let idxs = graph_edges_directed(&self.g, idx, false);
        if idxs.len() == 0 {
            proof {
                if exists|i: int| 0 <= i < self.edge_views().len() && #[trigger] self.edge_views()[i].1 == idx {
                    let i = choose|i: int| 0 <= i < self.edge_views().len() && #[trigger] self.edge_views()[i].1 == idx;
                    assert(end_of(self.edges()[i], false) == idx);
                    assert(idxs@.contains(i as usize));
                }
            }
            return None;
        }
        let i = idxs[0];
        let e = graph_edge(&self.g, i).unwrap();
        let ends = crate::graph::graph_edge_endpoints(&self.g, i).unwrap();
        proof {
            assert(idxs@.contains(i));
            assert(end_of(self.edges()[i as int], false) == idx);
            assert(self.edge_views()[i as int].1 == idx);
        }
        Some((ends.0, e.src_port().to_owned(), e.distance()))
    }

    /// Inverts the graph: every node is marked as inverted, every connection has its source and
    /// target port swapped and runs in the opposite direction.
    ///
    /// Fails if the `inverted` property of a node cannot be set, which never happens for
    /// well-formed nodes.
    pub fn invert_graph(&mut self) -> (r: OpmResult<()>)
        requires
            old(self).wf(),
        ensures
            final(self).wf(),
            r is Ok,
            all_inverted_from(old(self).nodes(), final(self).nodes()),
            final(self).edge_views() == inverted_edges(old(self).edge_views()),
    {
        let n = graph_node_count(&self.g);
        let ghost start = *self;
        let mut i: usize = 0;
        while i < n
            invariant
                start == *old(self),
                n == self.nodes().len(),
                n == start.nodes().len(),
                i <= n,
                self.edges() == start.edges(),
                forall|j: int| 0 <= j < n ==> (#[trigger] self.nodes()[j]).wf(),
                forall|j: int| 0 <= j < i ==> #[trigger] self.nodes()[j].spec_inverted()
                    && inverted_from(start.nodes()[j], self.nodes()[j]),
                forall|j: int| i <= j < n ==> #[trigger] self.nodes()[j] == start.nodes()[j],
            decreases n - i,
        {
            let mut node = crate::graph::graph_replace_node(&mut self.g, i, NodeAttr::new("", false));
            let res = node.set_property("inverted", Proptype::Bool(true));
            if res.is_err() {
                return Err(OpossumError::OpticGroup(
                    "group cannot be inverted because it contains a non-invertable node".to_owned()));
            }
            let _ = crate::graph::graph_replace_node(&mut self.g, i, node);
            i = i + 1;
        }
        let m = graph_edge_count(&self.g);
        let ghost mid = *self;
        let mut k: usize = 0;
        while k < m
            invariant
                start == *old(self),
                m == self.edges().len(),
                self.nodes() == mid.nodes(),
                k <= m,
                mid.edges() == start.edges(),
                forall|j: int| #![trigger self.edges()[j]] 0 <= j < k ==> self.edges()[j].0 == start.edges()[j].0
                    && self.edges()[j].1 == start.edges()[j].1
                    && self.edges()[j].2@ == (start.edges()[j].2@.1, start.edges()[j].2@.0,
                        start.edges()[j].2@.2, start.edges()[j].2@.3),
                forall|j: int| k <= j < m ==> #[trigger] self.edges()[j] == start.edges()[j],
            decreases m - k,
        {
            let ghost before = self.edges();
            let mut light = graph_replace_edge(&mut self.g, k, Light::detached());
            light.inverse();
            let _ = graph_replace_edge(&mut self.g, k, light);
            proof {
                assert(before[k as int] == start.edges()[k as int]);
                assert forall|j: int| #![trigger self.edges()[j]] 0 <= j < k + 1 implies self.edges()[j].0 == start.edges()[j].0
                    && self.edges()[j].1 == start.edges()[j].1
                    && self.edges()[j].2@ == (start.edges()[j].2@.1, start.edges()[j].2@.0,
                        start.edges()[j].2@.2, start.edges()[j].2@.3) by {
                    if j < k {
                        assert(self.edges()[j] == before[j]);
                    }
                }
            }
            k = k + 1;
        }
        let ghost before_rev = self.edges();
        crate::graph::graph_reverse(&mut self.g);
        proof {
            let ev0 = start.edge_views();
            let ev = self.edge_views();
            assert(ev =~= inverted_edges(ev0));
            assert forall|a: int, b: int| 0 <= a < b < ev.len() implies
                !(#[trigger] ev[a].0 == #[trigger] ev[b].0 && ev[a].2.0 == ev[b].2.0) by {
                assert(!(ev0[a].1 == ev0[b].1 && ev0[a].2.1 == ev0[b].2.1));
            }
            assert forall|a: int, b: int| 0 <= a < b < ev.len() implies
                !(#[trigger] ev[a].1 == #[trigger] ev[b].1 && ev[a].2.1 == ev[b].2.1) by {
                assert(!(ev0[a].0 == ev0[b].0 && ev0[a].2.0 == ev0[b].2.0));
            }
            lemma_cycle_endpoints(before_rev, start.edges());
            crate::graph::lemma_reversed_cycle(before_rev);
            assert(edges_in_range(self.nodes().len(), self.edges()));
            assert forall|j: int| 0 <= j < start.nodes().len() implies #[trigger] self.nodes()[j].spec_inverted()
                && inverted_from(start.nodes()[j], self.nodes()[j]) by {
                assert(self.nodes()[j] == mid.nodes()[j]);
                assert(mid.nodes()[j].spec_inverted());
            }
            assert(all_inverted_from(start.nodes(), self.nodes()));
        }
        Ok(())
    }

    /// Whether an output port of node `a` named `pa` is already connected.
    fn src_node_port_exists(&self, a: usize, pa: &str) -> (b: bool)
        requires
            self.wf(),
            a < self.nodes().len(),
        ensures
            b == out_port_used(self.edge_views(), a as int, pa@),
    {
        let idxs = graph_edges_directed(&self.g, a, true);
        let mut k: usize = 0;
        while k < idxs.len()
            invariant
                self.wf(),
                a < self.nodes().len(),
                idxs@.no_duplicates(),
                forall|j: int| 0 <= j < idxs@.len() ==> #[trigger] idxs@[j] < self.edges().len(),
                forall|i: int| 0 <= i < self.edges().len() ==> (idxs@.contains(i as usize) <==>
                    #[trigger] end_of(self.edges()[i], true) == a),
                k <= idxs@.len(),
                forall|j: int| 0 <= j < k ==> self.edge_views()[#[trigger] idxs@[j] as int].2.0 != pa@,
            decreases idxs@.len() - k,
        {
            let e = graph_edge(&self.g, idxs[k]).unwrap();
            if str_eq(e.src_port(), pa) {
                proof {
                    let i = idxs@[k as int] as int;
                    assert(idxs@.contains(i as usize));
                    assert(end_of(self.edges()[i], true) == a);
                    assert(self.edge_views()[i].0 == self.edges()[i].0);
                }
                return true;
            }
            k = k + 1;
        }
        proof {
            if out_port_used(self.edge_views(), a as int, pa@) {
                let i = choose|i: int| 0 <= i < self.edge_views().len() && #[trigger] self.edge_views()[i].0 == a
                    && self.edge_views()[i].2.0 == pa@;
                assert(self.edge_views()[i].0 == self.edges()[i].0);
                assert(end_of(self.edges()[i], true) == a);
                assert(idxs@.contains(i as usize));
                let j = choose|j: int| 0 <= j < idxs@.len() && idxs@[j] == i as usize;
                assert(self.edge_views()[idxs@[j] as int].2.0 != pa@);
            }
        }
        false
    }

    /// Whether an input port of node `b` named `pb` is already connected.
    fn target_node_port_exists(&self, b: usize, pb: &str) -> (r: bool)
        requires
            self.wf(),
            b < self.nodes().len(),
        ensures
            r == in_port_used(self.edge_views(), b as int, pb@),
    {
        let idxs = graph_edges_directed(&self.g, b, false);
        let mut k: usize = 0;
        while k < idxs.len()
            invariant
                self.wf(),
                b < self.nodes().len(),
                idxs@.no_duplicates(),
                forall|j: int| 0 <= j < idxs@.len() ==> #[trigger] idxs@[j] < self.edges().len(),
                forall|i: int| 0 <= i < self.edges().len() ==> (idxs@.contains(i as usize) <==>
                    #[trigger] end_of(self.edges()[i], false) == b),
                k <= idxs@.len(),
                forall|j: int| 0 <= j < k ==> self.edge_views()[#[trigger] idxs@[j] as int].2.1 != pb@,
            decreases idxs@.len() - k,
        {
            let e = graph_edge(&self.g, idxs[k]).unwrap();
            if str_eq(e.target_port(), pb) {
                proof {
                    let i = idxs@[k as int] as int;
                    assert(idxs@.contains(i as usize));
                    assert(end_of(self.edges()[i], false) == b);
                    assert(self.edge_views()[i].1 == self.edges()[i].1);
                }
                return true;
            }
            k = k + 1;
        }
        proof {
            if in_port_used(self.edge_views(), b as int, pb@) {
                let i = choose|i: int| 0 <= i < self.edge_views().len() && #[trigger] self.edge_views()[i].1 == b
                    && self.edge_views()[i].2.1 == pb@;
                assert(self.edge_views()[i].1 == self.edges()[i].1);
                assert(end_of(self.edges()[i], false) == b);
                assert(idxs@.contains(i as usize));
                let j = choose|j: int| 0 <= j < idxs@.len() && idxs@[j] == i as usize;
                assert(self.edge_views()[idxs@[j] as int].2.1 != pb@);
            }
        }
        false
    }

    /// Connects an output port of one node to an input port of another node, at the given
    /// propagation distance (bit pattern of a length in meters).
    ///
    /// Fails, leaving the graph unchanged, if
    ///   - the source or the target node does not exist,
    ///   - the source node has no output port, or the target node no input port, of the given name,
    ///   - that source or target port is already connected,
    ///   - the distance is not finite,
    ///   - the connection would form a loop.
    pub fn connect_nodes(&mut self, src_node: usize, src_port: &str, target_node: usize,
        target_port: &str, distance: u64) -> (r: OpmResult<()>)
        requires
            old(self).wf(),
            old(self).edges().len() < u32::MAX,
        ensures
            final(self).wf(),
            r is Ok <==> old(self).can_connect(src_node, src_port@, target_node, target_port@, distance),
            r is Ok ==> final(self).edge_views() == old(self).edge_views().push(
                (src_node, target_node, (src_port@, target_port@, distance, None::<u64>))),
            r is Err ==> final(self).edges() == old(self).edges(),
            final(self).nodes() == old(self).nodes(),
            r matches Err(e) ==> (e is Other <==> (old(self).ports_allow(src_node, src_port@,
                target_node, target_port@) && !is_finite(distance))),
    {
        let node_count = graph_node_count(&self.g);
        if src_node >= node_count {
            return Err(OpossumError::OpticScenery(
                "source node with given index does not exist".to_owned()));
        }
        let source = match graph_node(&self.g, src_node) {
            Some(n) => n,
            None => {
                return Err(OpossumError::OpticScenery(
                    "source node with given index does not exist".to_owned()));
            },
        };
        if !source.has_port(&PortType::Output, src_port) {
            let mut msg = "source node ".to_owned();
            msg.append(source.name());
            msg.append(" does not have a port ");
            msg.append(src_port);
            return Err(OpossumError::OpticScenery(msg));
        }
        if target_node >= node_count {
            return Err(OpossumError::OpticScenery(
                "target node with given index does not exist".to_owned()));
        }
        let target = match graph_node(&self.g, target_node) {
            Some(n) => n,
            None => {
                return Err(OpossumError::OpticScenery(
                    "target node with given index does not exist".to_owned()));
            },
        };
        if !target.has_port(&PortType::Input, target_port) {
            let mut msg = "target node ".to_owned();
            msg.append(target.name());
            msg.append(" does not have a port ");
            msg.append(target_port);
            return Err(OpossumError::OpticScenery(msg));
        }
        if self.src_node_port_exists(src_node, src_port) {
            let mut msg = "src node <".to_owned();
            msg.append(source.name());
            msg.append("> with port <");
            msg.append(src_port);
            msg.append("> is already connected");
            return Err(OpossumError::OpticScenery(msg));
        }
        if self.target_node_port_exists(target_node, target_port) {
            let mut msg = "target node <".to_owned();
            msg.append(target.name());
            msg.append("> with port <");
            msg.append(target_port);
            msg.append("> is already connected");
            return Err(OpossumError::OpticScenery(msg));
        }
        let mut msg = "connecting nodes <".to_owned();
        msg.append(source.name());
        msg.append("> -> <");
        msg.append(target.name());
        msg.append("> would form a loop");
        let light = Light::new(src_port, target_port, distance)?;
        let ghost old_edges = self.edges();
        let ghost old_views = self.edge_views();
        let idx = graph_add_edge(&mut self.g, src_node, target_node, light);
        assert(self.edge_views() =~= old_views.push((src_node, target_node, (src_port@, target_port@, distance, None::<u64>))));
        proof {
            lemma_cycle_endpoints(self.edges(), self.edge_views());
        }
        if crate::graph::graph_is_cyclic(&self.g) {
            let _ = graph_remove_edge(&mut self.g, idx);
            assert(self.edges() =~= old_edges);
            return Err(OpossumError::OpticScenery(msg));
        }
        proof {
            let ev = self.edge_views();
            assert forall|i: int, j: int| 0 <= i < j < ev.len() implies
                !(#[trigger] ev[i].0 == #[trigger] ev[j].0 && ev[i].2.0 == ev[j].2.0) by {
                if j == ev.len() - 1 && ev[i].0 == ev[j].0 && ev[i].2.0 == ev[j].2.0 {
                    assert(old_views[i].0 == src_node);
                }
            }
            assert forall|i: int, j: int| 0 <= i < j < ev.len() implies
                !(#[trigger] ev[i].1 == #[trigger] ev[j].1 && ev[i].2.1 == ev[j].2.1) by {
                if j == ev.len() - 1 && ev[i].1 == ev[j].1 && ev[i].2.1 == ev[j].2.1 {
                    assert(old_views[i].1 == target_node);
                }
            }
            assert forall|i: int| 0 <= i < ev.len() implies is_finite(#[trigger] ev[i].2.2) by {
                if i < old_views.len() {
                    assert(ev[i] == old_views[i]);
                }
            }
        }
        Ok(())
    }

    /// The records of the edges, in the order of the edges: the identifiers of the source and
    /// target node, the source and target port names and the distance. Together with the
    /// nodes, they are what a graph is saved as.
    pub fn edge_infos(&self) -> (v: Vec<EdgeInfo>)
        requires
            self.wf(),
        ensures
            v@.map_values(|e: EdgeInfo| edge_info_view(e)) == edge_records(self.nodes(), self.edge_views()),
    {
        let m = graph_edge_count(&self.g);
        let mut v: Vec<EdgeInfo> = Vec::new();
        let mut k: usize = 0;
        while k < m
            invariant
                self.wf(),
                m == self.edges().len(),
                k <= m,
                v@.map_values(|e: EdgeInfo| edge_info_view(e)) == edge_records(self.nodes(), self.edge_views()).take(k as int),
            decreases m - k,
        {
            let (a, b) = crate::graph::graph_edge_endpoints(&self.g, k).unwrap();
            let light = graph_edge(&self.g, k).unwrap();
            assert(self.edge_views()[k as int] == (a, b, light@));
            let src = graph_node(&self.g, a).unwrap().uuid();
            let target = graph_node(&self.g, b).unwrap().uuid();
            let info: EdgeInfo = (src, target, light.src_port().to_owned(), light.target_port().to_owned(), light.distance());
            assert(edge_info_view(info) == edge_records(self.nodes(), self.edge_views())[k as int]);
            let ghost before = v@;
            v.push(info);
            assert(v@ == before.push(info));
            proof {
                let recs = edge_records(self.nodes(), self.edge_views());
                let mapped = v@.map_values(|e: EdgeInfo| edge_info_view(e));
                let mapped_before = before.map_values(|e: EdgeInfo| edge_info_view(e));
                assert(mapped_before == recs.take(k as int));
                assert(self.edge_views().len() == m);
                assert(recs.len() == m);
                assert(mapped_before.len() == before.len());
                assert(before.len() == k);
                assert forall|j: int| 0 <= j < k + 1 implies #[trigger] mapped[j] == recs.take(k + 1)[j] by {
                    if j < k {
                        assert(v@[j] == before[j]);
                        assert(mapped_before[j] == recs.take(k as int)[j]);
                    }
                }
                assert(v@.map_values(|e: EdgeInfo| edge_info_view(e)) =~= recs.take(k + 1));
            }
            k = k + 1;
        }
        assert(edge_records(self.nodes(), self.edge_views()).take(m as int)
            =~= edge_records(self.nodes(), self.edge_views()));
        v
    }

    /// The dot-format name of a port of a node: `i<identifier>:<port>`.
    fn create_node_edge_str(&self, idx: usize, light_port: &str) -> (r: OpmResult<String>)
        ensures
            r is Ok <==> idx < self.nodes().len(),
            r matches Ok(s) ==> s@ == node_edge_text(self.nodes(), idx, light_port@),
            r matches Err(e) ==> e is OpticScenery,
    {
        let node = match self.node_by_idx(idx) {
            Ok(n) => n,
            Err(e) => return Err(e),
        };
        let mut s = "i".to_owned();
        s.append(crate::ids::simple_string(node.uuid()).as_str());
        s.append(":");
        s.append(light_port);
        Ok(s)
    }

    /// The dot-format lines of the edges, one `  <source port> -> <target port> \n` line per
    /// edge in the order of the edges, followed by the closing `}\n` of the graph.
    pub fn create_dot_edges(&self) -> (r: OpmResult<String>)
        requires
            self.wf(),
        ensures
            r matches Ok(s) && s@ == dot_edges_text(self.nodes(), self.edge_views()) + "}\n"@,
    {
        let m = graph_edge_count(&self.g);
        let mut s = String::new();
        let mut k: usize = 0;
        while k < m
            invariant
                self.wf(),
                m == self.edges().len(),
                k <= m,
                s@ == dot_edges_text(self.nodes(), self.edge_views().take(k as int)),
            decreases m - k,
        {
            let (a, b) = crate::graph::graph_edge_endpoints(&self.g, k).unwrap();
            let light = graph_edge(&self.g, k).unwrap();
            assert(self.edge_views()[k as int] == (a, b, light@));
            let src_str = self.create_node_edge_str(a, light.src_port())?;
            let target_str = self.create_node_edge_str(b, light.target_port())?;
            s.append("  ");
            s.append(src_str.as_str());
            s.append(" -> ");
            s.append(target_str.as_str());
            s.append(" \n");
            assert(self.edge_views().take(k + 1).drop_last() =~= self.edge_views().take(k as int));
            k = k + 1;
        }
        assert(self.edge_views().take(m as int) =~= self.edge_views());
        s.append("}\n");
        Ok(s)
    }
}

/// `after` is `before` marked as inverted, and otherwise unchanged.
pub open spec fn inverted_from(before: NodeAttr, after: NodeAttr) -> bool {
    &&& after.wf()
    &&& after.spec_uuid() == before.spec_uuid()
    &&& after.spec_name() == before.spec_name()
    &&& after.spec_node_type() == before.spec_node_type()
    &&& after.stored_ports() == before.stored_ports()
    &&& after.spec_is_detector() == before.spec_is_detector()
    &&& after.spec_props().view().dom() == before.spec_props().view().dom()
    &&& after.spec_props().view().remove("inverted"@) == before.spec_props().view().remove("inverted"@)
}

/// Each node of `after` is the node of `before` at the same index, marked as inverted.
pub open spec fn all_inverted_from(before: Seq<NodeAttr>, after: Seq<NodeAttr>) -> bool {
    &&& after.len() == before.len()
    &&& forall|i: int| 0 <= i < before.len() ==> #[trigger] after[i].spec_inverted()
        && inverted_from(before[i], after[i])
}

/// The edges with their direction reversed and source and target port swapped.
pub open spec fn inverted_edges(edges: Seq<(usize, usize, LightView)>) -> Seq<(usize, usize, LightView)> {
    Seq::new(edges.len(), |i: int| (edges[i].1, edges[i].0, (edges[i].2.1, edges[i].2.0, edges[i].2.2, edges[i].2.3)))
}

/// Inverting the edges twice gives back the edges: each connection has its direction and its
/// ports restored.
pub proof fn lemma_inverted_edges_twice(edges: Seq<(usize, usize, LightView)>)
    ensures
        inverted_edges(inverted_edges(edges)) == edges,
{
    assert(inverted_edges(inverted_edges(edges)) =~= edges);
}

/// The index of the first node at or after index `i` with the given identifier, or `-1`.
pub open spec fn uuid_index_from(nodes: Seq<NodeAttr>, u: u128, i: int) -> int
    decreases nodes.len() - i,
{
    if i < 0 || i >= nodes.len() {
        -1
    } else if nodes[i].spec_uuid() == u {
        i
    } else {
        uuid_index_from(nodes, u, i + 1)
    }
}

/// The index of the first node with the given identifier, or `-1`.
pub open spec fn uuid_index(nodes: Seq<NodeAttr>, u: u128) -> int {
    uuid_index_from(nodes, u, 0)
}

/// The first-index search finds the first node with the identifier, or none if there is none.
pub proof fn lemma_uuid_index_from(nodes: Seq<NodeAttr>, u: u128, i: int)
    requires
        0 <= i,
    ensures
        uuid_index_from(nodes, u, i) == -1 <==> forall|j: int| i <= j < nodes.len() ==> #[trigger] nodes[j].spec_uuid() != u,
        uuid_index_from(nodes, u, i) != -1 ==> i <= uuid_index_from(nodes, u, i) < nodes.len()
            && nodes[uuid_index_from(nodes, u, i)].spec_uuid() == u
            && forall|j: int| i <= j < uuid_index_from(nodes, u, i) ==> #[trigger] nodes[j].spec_uuid() != u,
    decreases nodes.len() - i,
{
    if i < nodes.len() && nodes[i].spec_uuid() != u {
        lemma_uuid_index_from(nodes, u, i + 1);
    }
}

/// No two nodes share an identifier.
pub open spec fn unique_uuids(nodes: Seq<NodeAttr>) -> bool {
    forall|i: int, j: int| 0 <= i < nodes.len() && 0 <= j < nodes.len()
        && (#[trigger] nodes[i]).spec_uuid() == (#[trigger] nodes[j]).spec_uuid() ==> i == j
}

/// The edges with the data they carry removed.
pub open spec fn without_data(edges: Seq<(usize, usize, LightView)>) -> Seq<(usize, usize, LightView)> {
    Seq::new(edges.len(), |k: int| (edges[k].0, edges[k].1, (edges[k].2.0, edges[k].2.1, edges[k].2.2, None::<u64>)))
}

/// Among nodes with distinct identifiers, the search for the identifier of a node finds that
/// node.
pub proof fn lemma_uuid_index_unique(nodes: Seq<NodeAttr>, i: int)
    requires
        unique_uuids(nodes),
        0 <= i < nodes.len(),
    ensures
        uuid_index(nodes, nodes[i].spec_uuid()) == i,
{
    lemma_uuid_index_from(nodes, nodes[i].spec_uuid(), 0);
    let r = uuid_index(nodes, nodes[i].spec_uuid());
    if r != i {
        assert(nodes[r].spec_uuid() == nodes[i].spec_uuid());
    }
}

/// Saving and loading edges: the records of the edges of a graph whose nodes have distinct
/// identifiers resolve, against the same nodes, to the same edges (without their data).
pub proof fn lemma_edge_records_round_trip(
    nodes: Seq<NodeAttr>,
    edges: Seq<(usize, usize, LightView)>,
    infos: Seq<EdgeInfo>,
)
    requires
        unique_uuids(nodes),
        edges_in_range(nodes.len(), edges),
        infos.map_values(|e: EdgeInfo| edge_info_view(e)) == edge_records(nodes, edges),
    ensures
        edges_resolvable(nodes, infos),
        resolved_edges(nodes, infos) == without_data(edges),
{
    let recs = edge_records(nodes, edges);
    let mapped = infos.map_values(|e: EdgeInfo| edge_info_view(e));
    assert(mapped.len() == infos.len());
    assert forall|k: int| 0 <= k < infos.len() implies
        uuid_index(nodes, (#[trigger] infos[k]).0) == edges[k].0 as int
        && uuid_index(nodes, infos[k].1) == edges[k].1 as int by {
        assert(mapped[k] == recs[k]);
        assert(edges[k].0 < nodes.len() && edges[k].1 < nodes.len());
        lemma_uuid_index_unique(nodes, edges[k].0 as int);
        lemma_uuid_index_unique(nodes, edges[k].1 as int);
    }
    assert forall|k: int| 0 <= k < infos.len() implies
        #[trigger] resolved_edges(nodes, infos)[k] == without_data(edges)[k] by {
        assert(mapped[k] == recs[k]);
    }
    assert(resolved_edges(nodes, infos) =~= without_data(edges));
}

/// A serialized edge: identifier of the source node, identifier of the target node, source
/// port, target port, distance (bit pattern).
pub type EdgeInfo = (u128, u128, String, String, u64);

/// The abstract value of an edge record.
pub open spec fn edge_info_view(e: EdgeInfo) -> (u128, u128, Seq<char>, Seq<char>, u64) {
    (e.0, e.1, e.2@, e.3@, e.4)
}

/// The records of edges: node indices replaced by node identifiers, without the data.
pub open spec fn edge_records(nodes: Seq<NodeAttr>, edges: Seq<(usize, usize, LightView)>)
    -> Seq<(u128, u128, Seq<char>, Seq<char>, u64)>
{
    Seq::new(edges.len(), |k: int| (
        nodes[edges[k].0 as int].spec_uuid(),
        nodes[edges[k].1 as int].spec_uuid(),
        edges[k].2.0,
        edges[k].2.1,
        edges[k].2.2,
    ))
}

/// The dot-format name of a port of a node: `i<identifier>:<port>`.
pub open spec fn node_edge_text(nodes: Seq<NodeAttr>, idx: usize, port: Seq<char>) -> Seq<char> {
    "i"@ + simple_text(nodes[idx as int].spec_uuid()) + ":"@ + port
}

/// The dot-format lines of edges.
pub open spec fn dot_edges_text(nodes: Seq<NodeAttr>, edges: Seq<(usize, usize, LightView)>) -> Seq<char>
    decreases edges.len(),
{
    if edges.len() == 0 {
        Seq::empty()
    } else {
        let e = edges.last();
        dot_edges_text(nodes, edges.drop_last()) + "  "@ + node_edge_text(nodes, e.0, e.2.0) + " -> "@
            + node_edge_text(nodes, e.1, e.2.1) + " \n"@
    }
}

/// The dot text of a single edge is one line: two spaces, the source port, an arrow, the
/// target port, a space and a line break.
pub proof fn lemma_dot_edges_single(nodes: Seq<NodeAttr>, e: (usize, usize, LightView))
    ensures
        dot_edges_text(nodes, seq![e]) == "  "@ + ("i"@ + simple_text(nodes[e.0 as int].spec_uuid()) + ":"@ + e.2.0)
            + " -> "@ + ("i"@ + simple_text(nodes[e.1 as int].spec_uuid()) + ":"@ + e.2.1) + " \n"@,
{
    assert(seq![e].drop_last() =~= Seq::<(usize, usize, LightView)>::empty());
    assert(dot_edges_text(nodes, Seq::<(usize, usize, LightView)>::empty()) =~= Seq::<char>::empty());
    assert(Seq::<char>::empty() + "  "@ =~= "  "@);
}

/// The line of every edge stands in the dot text of a list of edges, after the lines of the
/// edges before it and before the lines of the edges after it.
pub proof fn lemma_dot_edges_line_of_each_edge(nodes: Seq<NodeAttr>, edges: Seq<(usize, usize, LightView)>, k: int)
    requires
        0 <= k < edges.len(),
    ensures
        dot_edges_text(nodes, edges) == dot_edges_text(nodes, edges.take(k))
            + ("  "@ + ("i"@ + simple_text(nodes[edges[k].0 as int].spec_uuid()) + ":"@ + edges[k].2.0)
            + " -> "@ + ("i"@ + simple_text(nodes[edges[k].1 as int].spec_uuid()) + ":"@ + edges[k].2.1) + " \n"@)
            + dot_edges_text(nodes, edges.skip(k + 1)),
{
    assert(edges =~= edges.take(k) + (seq![edges[k]] + edges.skip(k + 1)));
    lemma_dot_edges_concat(nodes, edges.take(k), seq![edges[k]] + edges.skip(k + 1));
    lemma_dot_edges_concat(nodes, seq![edges[k]], edges.skip(k + 1));
    lemma_dot_edges_single(nodes, edges[k]);
    assert(dot_edges_text(nodes, edges.take(k)) + (dot_edges_text(nodes, seq![edges[k]]) + dot_edges_text(nodes, edges.skip(k + 1)))
        =~= dot_edges_text(nodes, edges.take(k)) + dot_edges_text(nodes, seq![edges[k]]) + dot_edges_text(nodes, edges.skip(k + 1)));
}

/// The dot text of two lists of edges one after the other is the text of the first list
/// followed by the text of the second: every edge is drawn, each on its own line, in order.
pub proof fn lemma_dot_edges_concat(
    nodes: Seq<NodeAttr>,
    e1: Seq<(usize, usize, LightView)>,
    e2: Seq<(usize, usize, LightView)>,
)
    ensures
        dot_edges_text(nodes, e1 + e2) == dot_edges_text(nodes, e1) + dot_edges_text(nodes, e2),
    decreases e2.len(),
{
    if e2.len() == 0 {
        assert(e1 + e2 =~= e1);
        assert(dot_edges_text(nodes, e1) + Seq::<char>::empty() =~= dot_edges_text(nodes, e1));
    } else {
        lemma_dot_edges_concat(nodes, e1, e2.drop_last());
        assert((e1 + e2).drop_last() =~= e1 + e2.drop_last());
        assert((e1 + e2).last() == e2.last());
        let e = e2.last();
        let tail = "  "@ + node_edge_text(nodes, e.0, e.2.0) + " -> "@ + node_edge_text(nodes, e.1, e.2.1) + " \n"@;
        assert(dot_edges_text(nodes, e1 + e2) == dot_edges_text(nodes, e1 + e2.drop_last()) + tail);
        assert(dot_edges_text(nodes, e2) == dot_edges_text(nodes, e2.drop_last()) + tail);
        assert(dot_edges_text(nodes, e1) + dot_edges_text(nodes, e2.drop_last()) + tail
            =~= dot_edges_text(nodes, e1) + (dot_edges_text(nodes, e2.drop_last()) + tail));
    }
}

/// The edges of serialized edge records, with node identifiers resolved to node indices.
pub open spec fn resolved_edges(nodes: Seq<NodeAttr>, infos: Seq<EdgeInfo>) -> Seq<(usize, usize, LightView)> {
    Seq::new(infos.len(), |k: int| (
        uuid_index(nodes, infos[k].0) as usize,
        uuid_index(nodes, infos[k].1) as usize,
        (infos[k].2@, infos[k].3@, infos[k].4, None::<u64>),
    ))
}

/// All node identifiers of the edge records are found among the nodes.
pub open spec fn edges_resolvable(nodes: Seq<NodeAttr>, infos: Seq<EdgeInfo>) -> bool {
    forall|k: int| 0 <= k < infos.len() ==> uuid_index(nodes, (#[trigger] infos[k]).0) != -1
        && uuid_index(nodes, infos[k].1) != -1
}

/// Each edge in turn may be connected in the graph holding the nodes and the edges before it.
pub open spec fn all_connectable(nodes: Seq<NodeAttr>, edges: Seq<(usize, usize, LightView)>) -> bool {
    forall|k: int| 0 <= k < edges.len() ==> connect_allowed(nodes, edges.take(k),
        (#[trigger] edges[k]).0, edges[k].2.0, edges[k].1, edges[k].2.1, edges[k].2.2)
}

/// The identifier a reference node refers to: its `reference id` property, or `0` (the nil
/// identifier) if that is not an identifier.
pub open spec fn referenced_id(node: NodeAttr) -> u128 {
    match node.spec_props().value_of("reference id"@) {
        Proptype::Uuid(u) => u,
        _ => 0,
    }
}

/// The nodes agree one by one in identifier and type, and in name except for reference nodes,
/// whose names are derived from the node they refer to.
pub open spec fn same_identities(n1: Seq<NodeAttr>, n2: Seq<NodeAttr>) -> bool {
    &&& n1.len() == n2.len()
    &&& forall|i: int| 0 <= i < n1.len() ==> (#[trigger] n1[i]).spec_uuid() == n2[i].spec_uuid()
        && n1[i].spec_node_type() == n2[i].spec_node_type()
        && (n2[i].spec_node_type() != "reference"@ ==> n1[i].spec_name() == n2[i].spec_name())
}

/// The nodes agree in everything but their names: identifier, type, stored ports, properties
/// and detector flag.
pub open spec fn same_but_name(a: NodeAttr, b: NodeAttr) -> bool {
    &&& a.spec_uuid() == b.spec_uuid()
    &&& a.spec_node_type() == b.spec_node_type()
    &&& a.stored_ports() == b.stored_ports()
    &&& a.spec_props() == b.spec_props()
    &&& a.spec_is_detector() == b.spec_is_detector()
}

/// The names of the nodes after the reference nodes among the first `i` have been named, in
/// order: each such node is named `ref (<name>)` after the name (as it stands at that point)
/// of the first node with its referenced identifier.
pub open spec fn reference_names(nodes: Seq<NodeAttr>, i: nat) -> Seq<Seq<char>>
    decreases i,
{
    if i == 0 {
        Seq::new(nodes.len(), |j: int| nodes[j].spec_name())
    } else {
        let prev = reference_names(nodes, (i - 1) as nat);
        let k = i - 1;
        if k < nodes.len() && nodes[k].spec_node_type() == "reference"@ {
            prev.update(k, "ref ("@ + prev[uuid_index(nodes, referenced_id(nodes[k]))] + ")"@)
        } else {
            prev
        }
    }
}

/// Every reference node refers to the identifier of one of the nodes.
pub open spec fn references_resolvable(nodes: Seq<NodeAttr>) -> bool {
    forall|i: int| 0 <= i < nodes.len() && (#[trigger] nodes[i]).spec_node_type() == "reference"@
        ==> uuid_index(nodes, referenced_id(nodes[i])) != -1
}

/// A cycle among the first edges of a list is a cycle of the whole list.
proof fn lemma_prefix_cycle(edges: Seq<(usize, usize, LightView)>, k: int)
    requires
        0 <= k <= edges.len(),
        has_cycle(edges.take(k)),
    ensures
        has_cycle(edges),
{
    let pre = edges.take(k);
    let p = choose|p: Seq<int>| #[trigger] is_path(pre, p) && p[0] == p[p.len() - 1];
    assert forall|i: int| 0 <= i < p.len() - 1 implies has_edge(edges, #[trigger] p[i], p[i + 1]) by {
        assert(has_edge(pre, p[i], p[i + 1]));
        let j = choose|j: int| 0 <= j < pre.len() && #[trigger] pre[j].0 == p[i] && pre[j].1 == p[i + 1];
        assert(edges[j] == pre[j]);
    }
    assert(is_path(edges, p));
}

/// Saving a graph and loading it back: against the nodes of a graph whose identifiers are
/// distinct and whose connections use ports their nodes have, the records of its connections
/// resolve, every connection may be made again in turn, and the connections come back as they
/// were (without the data they carried). So `OpticGraph::from_parts` on the nodes and the edge
/// records of such a graph succeeds exactly when its reference nodes resolve.
pub proof fn lemma_graph_round_trip(g: OpticGraph, infos: Seq<EdgeInfo>)
    requires
        g.wf(),
        unique_uuids(g.nodes()),
        edge_ports_exist(g.nodes(), g.edge_views()),
        infos.map_values(|e: EdgeInfo| edge_info_view(e)) == edge_records(g.nodes(), g.edge_views()),
    ensures
        edges_resolvable(g.nodes(), infos),
        resolved_edges(g.nodes(), infos) == without_data(g.edge_views()),
        all_connectable(g.nodes(), resolved_edges(g.nodes(), infos)),
{
    let nodes = g.nodes();
    let ev = g.edge_views();
    assert(edges_in_range(nodes.len(), ev)) by {
        assert forall|i: int| 0 <= i < ev.len() implies #[trigger] ev[i].0 < nodes.len() && ev[i].1 < nodes.len() by {
            assert(ev[i].0 == g.edges()[i].0 && ev[i].1 == g.edges()[i].1);
        }
    }
    lemma_edge_records_round_trip(nodes, ev, infos);
    let e = without_data(ev);
    lemma_cycle_endpoints(e, g.edges());
    assert forall|k: int| 0 <= k < e.len() implies connect_allowed(nodes, e.take(k),
        (#[trigger] e[k]).0, e[k].2.0, e[k].1, e[k].2.1, e[k].2.2) by {
        let pre = e.take(k);
        if out_port_used(pre, e[k].0 as int, e[k].2.0) {
            let j = choose|j: int| 0 <= j < pre.len() && #[trigger] pre[j].0 == e[k].0 && pre[j].2.0 == e[k].2.0;
            assert(ev[j].0 == ev[k].0 && ev[j].2.0 == ev[k].2.0);
        }
        if in_port_used(pre, e[k].1 as int, e[k].2.1) {
            let j = choose|j: int| 0 <= j < pre.len() && #[trigger] pre[j].1 == e[k].1 && pre[j].2.1 == e[k].2.1;
            assert(ev[j].1 == ev[k].1 && ev[j].2.1 == ev[k].2.1);
        }
        assert(ev[k].2.2 == e[k].2.2);
        assert(is_finite(ev[k].2.2));
        assert(pre.push(e[k]) =~= e.take(k + 1));
        if has_cycle(e.take(k + 1)) {
            lemma_prefix_cycle(e, k + 1);
        }
    }
}

/// The first-index search depends on the identifiers of the nodes only.
pub proof fn lemma_uuid_index_same(n1: Seq<NodeAttr>, n2: Seq<NodeAttr>, u: u128, i: int)
    requires
        n1.len() == n2.len(),
        forall|j: int| 0 <= j < n1.len() ==> (#[trigger] n1[j]).spec_uuid() == n2[j].spec_uuid(),
    ensures
        uuid_index_from(n1, u, i) == uuid_index_from(n2, u, i),
    decreases n1.len() - i,
{
    if 0 <= i < n1.len() {
        assert(n1[i].spec_uuid() == n2[i].spec_uuid());
        lemma_uuid_index_same(n1, n2, u, i + 1);
    }
}

/// Whether a connection may be made depends on the ports of the nodes only.
pub proof fn lemma_connect_allowed_same_ports(n1: Seq<NodeAttr>, n2: Seq<NodeAttr>,
    edges: Seq<(usize, usize, LightView)>, a: usize, pa: Seq<char>, b: usize, pb: Seq<char>, d: u64)
    requires
        same_ports(n1, n2),
    ensures
        connect_allowed(n1, edges, a, pa, b, pb, d) == connect_allowed(n2, edges, a, pa, b, pb, d),
{
    if a < n1.len() {
        assert(n1[a as int].effective_ports(PortType::Output) == n2[a as int].effective_ports(PortType::Output));
    }
    if b < n1.len() {
        assert(n1[b as int].effective_ports(PortType::Input) == n2[b as int].effective_ports(PortType::Input));
    }
}

/// The nodes have the same ports as seen from outside.
pub open spec fn same_ports(n1: Seq<NodeAttr>, n2: Seq<NodeAttr>) -> bool {
    &&& n1.len() == n2.len()
    &&& forall|i: int| 0 <= i < n1.len() ==> (#[trigger] n1[i]).effective_ports(PortType::Output)
        == n2[i].effective_ports(PortType::Output)
        && n1[i].effective_ports(PortType::Input) == n2[i].effective_ports(PortType::Input)
}

/// Whether the vector holds the index.
fn contains_index(v: &Vec<usize>, x: usize) -> (b: bool)
    ensures
        b == v@.contains(x),
{
    let mut i: usize = 0;
    while i < v.len()
        invariant
            i <= v@.len(),
            forall|j: int| 0 <= j < i ==> v@[j] != x,
        decreases v@.len() - i,
    {
        if v[i] == x {
            return true;
        }
        i = i + 1;
    }
    false
}

impl Default for OpticGraph {
    /// An empty graph.
    fn default() -> (g: Self)
        ensures
            g.wf(),
            g.nodes().len() == 0,
            g.edges().len() == 0,
    {
        OpticGraph::new()
    }
}

} // verus!
