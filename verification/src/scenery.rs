//! The optical scenery: an optical graph with a description and scenery-wide resources.
//!
//! The analysis of a scenery runs the nodes one after the other in an order that respects the
//! connections. The analysis of a single node is done elsewhere; this module decides the order,
//! hands out the light arriving at a node and stores the light leaving it on the connections.
use vstd::prelude::*;
use crate::error::{OpmResult, OpossumError};
use crate::graph::{ordered_edge, touched, lemma_order_contains_all};
use crate::light::LightView;
use crate::name_map::NameMap;
use crate::node_attr::NodeAttr;
use crate::optic_graph::{OpticGraph, dot_edges_text, out_port_used};
use crate::properties::{Properties, Property, Proptype, string_value};

verus! {

/// Refractive index of vacuum (bit pattern of `1.0`).
pub const VACUUM_REFRACTIVE_INDEX: u64 = 0x3ff0_0000_0000_0000u64;

/// Scenery-wide resources.
#[derive(Debug, Clone, Copy, PartialEq, Eq)]
pub struct SceneryResources {
    /// The (constant) refractive index of the ambient medium (bit pattern).
    pub ambient_refr_index: u64,
}

impl Default for SceneryResources {
    /// Vacuum as the ambient medium.
    fn default() -> (r: Self)
        ensures
            r.ambient_refr_index == VACUUM_REFRACTIVE_INDEX,
    {
        SceneryResources { ambient_refr_index: VACUUM_REFRACTIVE_INDEX }
    }
}

/// The header of the dot-format description of a scenery.
pub open spec fn dot_header_text(rankdir: Seq<char>, description: Seq<char>) -> Seq<char> {
    "digraph {\n\tfontsize = 8;\n"@ + "\tcompound = true;\n"@ + "\trankdir = \""@ + rankdir + "\";\n"@
        + "\tlabel=\""@ + description + "\"\n"@ + "\tfontname=\"Courier\"\n"@
        + "\tnode [fontname=\"Courier\" fontsize = 8]\n"@ + "\tedge [fontname=\"Courier\"]\n\n"@
}

/// The description of a scenery given its properties: the string property `description`, or
/// the empty text.
pub open spec fn description_of(props: Properties) -> Seq<char> {
    if props.view().contains_key("description"@) && props.value_of("description"@) is String {
        string_value(props.value_of("description"@))
    } else {
        Seq::empty()
    }
}

/// An optical scenery.
#[derive(Debug)]
pub struct OpticScenery {
    g: OpticGraph,
    props: Properties,
    global_conf: SceneryResources,
}

impl OpticScenery {
    /// The optical graph.
    pub closed spec fn graph(self) -> OpticGraph {
        self.g
    }

    /// The properties of the scenery.
    pub closed spec fn spec_props(self) -> Properties {
        self.props
    }

    /// The scenery-wide resources.
    pub closed spec fn spec_global_conf(self) -> SceneryResources {
        self.global_conf
    }

    /// Well-formedness: the graph and the properties are well-formed.
    pub open spec fn wf(self) -> bool {
        &&& self.graph().wf()
        &&& self.spec_props().wf()
    }

    /// Creates an empty scenery with an empty description and default resources.
    pub fn new() -> (s: Self)
        ensures
            s.wf(),
            s.graph().nodes().len() == 0,
            s.graph().edges().len() == 0,
            s.spec_props().view().dom() == set!["description"@],
            s.spec_props().value_of("description"@) is String,
            description_of(s.spec_props()) == Seq::<char>::empty(),
            s.spec_global_conf().ambient_refr_index == VACUUM_REFRACTIVE_INDEX,
    {
        let mut props = Properties::new();
        let r = props.create("description", "title of the scenery", Proptype::String(String::new()));
        assert(r is Ok);
        assert(props.view().dom() =~= set!["description"@]);
        OpticScenery { g: OpticGraph::new(), props, global_conf: SceneryResources::default() }
    }

    /// Creates a scenery from a graph and, where they were given, properties and resources (as
    /// read back from a file): missing properties are empty, missing resources the default ones.
    pub fn with_parts(g: OpticGraph, props: Option<Properties>, global_conf: Option<SceneryResources>)
        -> (s: Self)
        requires
            g.wf(),
            props matches Some(p) ==> p.wf(),
        ensures
            s.wf(),
            s.graph() == g,
            props matches Some(p) ==> s.spec_props() == p,
            props is None ==> s.spec_props().view() == Map::<Seq<char>, Property>::empty(),
            global_conf matches Some(c) ==> s.spec_global_conf() == c,
            global_conf is None ==> s.spec_global_conf().ambient_refr_index == VACUUM_REFRACTIVE_INDEX,
    {
        let props = match props {
            Some(p) => p,
            None => Properties::default(),
        };
        let global_conf = match global_conf {
            Some(c) => c,
            None => SceneryResources::default(),
        };
        OpticScenery { g, props, global_conf }
    }

    /// The properties of the scenery.
    pub fn properties(&self) -> (p: &Properties)
        ensures
            *p == self.spec_props(),
    {
        &self.props
    }

    /// The optical graph of the scenery.
    pub fn graph_ref(&self) -> (g: &OpticGraph)
        ensures
            *g == self.graph(),
    {
        &self.g
    }

    /// Adds a node; returns its index.
    pub fn add_node(&mut self, node: NodeAttr) -> (i: usize)
        requires
            old(self).wf(),
            node.wf(),
            old(self).graph().nodes().len() < u32::MAX,
        ensures
            final(self).wf(),
            i == old(self).graph().nodes().len(),
            final(self).graph().nodes() == old(self).graph().nodes().push(node),
            final(self).graph().edges() == old(self).graph().edges(),
            final(self).spec_props() == old(self).spec_props(),
    {
        self.g.add_node(node)
    }

    /// Connects an output port of one node to an input port of another node (see
    /// [`OpticGraph::connect_nodes`]).
    pub fn connect_nodes(&mut self, src_node: usize, src_port: &str, target_node: usize, target_port: &str,
        distance: u64) -> (r: OpmResult<()>)
        requires
            old(self).wf(),
            old(self).graph().edges().len() < u32::MAX,
        ensures
            final(self).wf(),
            r is Ok <==> old(self).graph().can_connect(src_node, src_port@, target_node, target_port@, distance),
            r is Ok ==> final(self).graph().edge_views() == old(self).graph().edge_views().push(
                (src_node, target_node, (src_port@, target_port@, distance, None::<u64>))),
            r is Err ==> final(self).graph().edges() == old(self).graph().edges(),
            final(self).graph().nodes() == old(self).graph().nodes(),
            final(self).spec_props() == old(self).spec_props(),
    {
        self.g.connect_nodes(src_node, src_port, target_node, target_port, distance)
    }

    /// The node of the given index.
    pub fn node(&self, idx: usize) -> (r: OpmResult<&NodeAttr>)
        ensures
            r is Ok <==> idx < self.graph().nodes().len(),
            r matches Ok(n) ==> *n == self.graph().nodes()[idx as int],
    {
        self.g.node_by_idx(idx)
    }

    /// The description (title) of the scenery, or the empty text if it has none.
    pub fn description(&self) -> (d: &str)
        requires
            self.wf(),
        ensures
            d@ == description_of(self.spec_props()),
    {
        match self.props.get("description") {
            Ok(Proptype::String(s)) => s.as_str(),
            _ => {
                proof { reveal_strlit(""); }
                ""
            },
        }
    }

    /// Sets the description (title) of the scenery.
    pub fn set_description(&mut self, description: &str) -> (r: OpmResult<()>)
        requires
            old(self).wf(),
        ensures
            final(self).wf(),
            r is Ok <==> old(self).spec_props().view().contains_key("description"@)
                && old(self).spec_props().value_of("description"@) is String,
            r is Ok ==> description_of(final(self).spec_props()) == description@,
            r is Err ==> final(self).spec_props().view() == old(self).spec_props().view(),
            final(self).graph() == old(self).graph(),
    {
        let r = self.props.set("description", Proptype::String(description.to_owned()));
        r
    }

    /// The header of the dot-format description of the scenery, with the given direction of
    /// the ranks and the description as label.
    pub fn add_dot_header(&self, rankdir: &str) -> (s: String)
        requires
            self.wf(),
        ensures
            s@ == dot_header_text(rankdir@, description_of(self.spec_props())),
    {
        let mut s = "digraph {\n\tfontsize = 8;\n".to_owned();
        s.append("\tcompound = true;\n");
        s.append("\trankdir = \"");
        s.append(rankdir);
        s.append("\";\n");
        s.append("\tlabel=\"");
        s.append(self.description());
        s.append("\"\n");
        s.append("\tfontname=\"Courier\"\n");
        s.append("\tnode [fontname=\"Courier\" fontsize = 8]\n");
        s.append("\tedge [fontname=\"Courier\"]\n\n");
        s
    }

    /// The dot-format description of the scenery: the header, the statements of the nodes
    /// (`node_statements`, rendered by the nodes themselves), the edges and the closing brace.
    pub fn to_dot(&self, rankdir: &str, node_statements: &str) -> (r: OpmResult<String>)
        requires
            self.wf(),
        ensures
            r matches Ok(s) && s@ == dot_header_text(rankdir@, description_of(self.spec_props()))
                + node_statements@ + dot_edges_text(self.graph().nodes(), self.graph().edge_views()) + "}\n"@,
    {
        let mut s = self.add_dot_header(rankdir);
        s.append(node_statements);
        let edges = match self.g.create_dot_edges() {
            Ok(e) => e,
            Err(e) => return Err(e),
        };
        s.append(edges.as_str());
        Ok(s)
    }

    /// Whether the node is stale: it does not exist or no connection touches it. Stale nodes
    /// are skipped in an analysis.
    pub fn is_stale_node(&self, idx: usize) -> (b: bool)
        ensures
            b == (idx >= self.graph().nodes().len() || !touched(self.graph().edges(), idx)),
    {
        if idx >= self.g.node_count() {
            return true;
        }
        self.g.neighbors_undirected(idx).len() == 0
    }

    /// The order in which the nodes are analyzed: every node touched by a connection, once,
    /// each before the nodes its output leads to.
    pub fn analysis_order(&self) -> (r: OpmResult<Vec<usize>>)
        requires
            self.wf(),
        ensures
            r matches Ok(v) && {
                &&& v@.no_duplicates()
                &&& forall|u: usize| v@.contains(u) <==> u < self.graph().nodes().len()
                    && touched(self.graph().edges(), u)
                &&& forall|i: int| 0 <= i < self.graph().edges().len()
                    ==> #[trigger] ordered_edge(v@, self.graph().edges()[i].0, self.graph().edges()[i].1)
            },
    {
        let sorted = match self.g.topologically_sorted() {
            Ok(s) => s,
            Err(e) => return Err(e),
        };
        let ghost t = sorted@;
        let ghost n = self.graph().nodes().len();
        let ghost edges = self.graph().edges();
        let mut v: Vec<usize> = Vec::new();
        let ghost mut pos: Seq<int> = Seq::empty();
        let mut k: usize = 0;
        while k < sorted.len()
            invariant
                t == sorted@,
                n == self.graph().nodes().len(),
                edges == self.graph().edges(),
                crate::graph::is_topological_order(n, edges, t),
                k <= t.len(),
                v@.len() == pos.len(),
                forall|p: int| 0 <= p < pos.len() ==> 0 <= #[trigger] pos[p] < k && t[pos[p]] == v@[p],
                forall|p: int, q: int| 0 <= p < q < pos.len() ==> #[trigger] pos[p] < #[trigger] pos[q],
                forall|i: int| 0 <= i < k && touched(edges, #[trigger] t[i]) ==> exists|p: int| 0 <= p < pos.len() && pos[p] == i,
                forall|p: int| 0 <= p < v@.len() ==> touched(edges, #[trigger] v@[p]),
            decreases t.len() - k,
        {
            let u = sorted[k];
            assert(u == t[k as int] && u < n);
            let ghost old_pos = pos;
            if !self.is_stale_node(u) {
                proof { pos = pos.push(k as int); }
                v.push(u);
                assert(pos[pos.len() - 1] == k);
            }
            proof {
                assert forall|i: int| 0 <= i < k + 1 && touched(edges, #[trigger] t[i]) implies
                    exists|p: int| 0 <= p < pos.len() && pos[p] == i by {
                    if i < k {
                        let p = choose|p: int| 0 <= p < old_pos.len() && old_pos[p] == i;
                        assert(pos[p] == i);
                    } else {
                        assert(pos[pos.len() - 1] == i);
                    }
                }
            }
            k = k + 1;
        }
        proof {
            assert forall|a: int, b: int| 0 <= a < v@.len() && 0 <= b < v@.len() && a != b implies v@[a] != v@[b] by {
                assert(t[pos[a]] == v@[a] && t[pos[b]] == v@[b]);
                if a < b {
                    assert(pos[a] < pos[b]);
                } else {
                    assert(pos[b] < pos[a]);
                }
            }
            assert forall|u: usize| v@.contains(u) <==> u < n && touched(edges, u) by {
                if v@.contains(u) {
                    let p = choose|p: int| 0 <= p < v@.len() && v@[p] == u;
                    assert(touched(edges, v@[p]));
                    assert(t[pos[p]] < n);
                }
                if u < n && touched(edges, u) {
                    lemma_order_contains_all(t, n, u);
                    let i = choose|i: int| 0 <= i < t.len() && t[i] == u;
                    assert(touched(edges, t[i]));
                    let p = choose|p: int| 0 <= p < pos.len() && pos[p] == i;
                    assert(v@[p] == u);
                }
            }
            assert forall|i: int| 0 <= i < edges.len() implies #[trigger] ordered_edge(v@, edges[i].0, edges[i].1) by {
                assert(ordered_edge(t, edges[i].0, edges[i].1));
                let (a, b) = choose|a: int, b: int| 0 <= a < b < t.len() && #[trigger] t[a] == edges[i].0
                    && #[trigger] t[b] == edges[i].1;
                assert(touched(edges, t[a]));
                assert(touched(edges, t[b]));
                let p = choose|p: int| 0 <= p < pos.len() && pos[p] == a;
                let q = choose|q: int| 0 <= q < pos.len() && pos[q] == b;
                if q <= p {
                    if q < p {
                        assert(pos[q] < pos[p]);
                    }
                }
                assert(p < q);
                assert(v@[p] == edges[i].0 && v@[q] == edges[i].1);
            }
        }
        Ok(v)
    }

    /// The light data keys arriving at a node, by input port.
    pub fn incoming_light(&self, idx: usize) -> (m: NameMap<u64>)
        requires
            self.wf(),
            idx < self.graph().nodes().len(),
        ensures
            m.wf(),
            forall|i: int| 0 <= i < self.graph().edge_views().len() && #[trigger] self.graph().edge_views()[i].1 == idx
                && self.graph().edge_views()[i].2.3 is Some ==> m.view().contains_key(self.graph().edge_views()[i].2.1)
                && m.view()[self.graph().edge_views()[i].2.1] == self.graph().edge_views()[i].2.3->Some_0,
            forall|p: Seq<char>| #[trigger] m.view().contains_key(p) ==> exists|i: int| 0 <= i < self.graph().edge_views().len()
                && #[trigger] self.graph().edge_views()[i].1 == idx && self.graph().edge_views()[i].2.1 == p
                && self.graph().edge_views()[i].2.3 == Some(m.view()[p]),
    {
        self.g.incoming_edges(idx)
    }

    /// Stores the light leaving a node (data keys by output port) on the connections leaving
    /// those ports, in ascending order of the port names. Light at a port without a connection is
    /// dropped.
    pub fn store_outgoing_light(&mut self, idx: usize, outgoing: &NameMap<u64>)
        requires
            old(self).wf(),
            outgoing.wf(),
        ensures
            final(self).wf(),
            final(self).graph().nodes() == old(self).graph().nodes(),
            final(self).spec_props() == old(self).spec_props(),
            final(self).graph().edges().len() == old(self).graph().edges().len(),
            forall|i: int| 0 <= i < old(self).graph().edge_views().len() ==> {
                let e = #[trigger] old(self).graph().edge_views()[i];
                let f = final(self).graph().edge_views()[i];
                &&& f.0 == e.0 && f.1 == e.1 && f.2.0 == e.2.0 && f.2.1 == e.2.1 && f.2.2 == e.2.2
                &&& (e.0 == idx && outgoing.view().contains_key(e.2.0)) ==> f.2.3 == Some(outgoing.view()[e.2.0])
                &&& !(e.0 == idx && outgoing.view().contains_key(e.2.0)) ==> f.2.3 == e.2.3
            },
    {
        let ghost start = self.graph().edge_views();
        proof { outgoing.lemma_all_entries(); }
        let n = outgoing.len();
        let mut k: usize = 0;
        while k < n
            invariant
                self.wf(),
                outgoing.wf(),
                n == outgoing.keys().len(),
                outgoing.keys().len() == outgoing.values().len(),
                outgoing.keys().no_duplicates(),
                forall|j: int| 0 <= j < outgoing.keys().len() ==> outgoing.view().contains_key(#[trigger] outgoing.keys()[j])
                    && outgoing.view()[outgoing.keys()[j]] == outgoing.values()[j],
                forall|p: Seq<char>| outgoing.view().contains_key(p) <==> outgoing.keys().contains(p),
                k <= n,
                self.graph().nodes() == old(self).graph().nodes(),
                self.spec_props() == old(self).spec_props(),
                start == old(self).graph().edge_views(),
                self.graph().edge_views().len() == start.len(),
                forall|i: int| 0 <= i < start.len() ==> {
                    let e = #[trigger] start[i];
                    let f = self.graph().edge_views()[i];
                    &&& f.0 == e.0 && f.1 == e.1 && f.2.0 == e.2.0 && f.2.1 == e.2.1 && f.2.2 == e.2.2
                    &&& (e.0 == idx && outgoing.keys().take(k as int).contains(e.2.0)) ==> f.2.3 == Some(outgoing.view()[e.2.0])
                    &&& !(e.0 == idx && outgoing.keys().take(k as int).contains(e.2.0)) ==> f.2.3 == e.2.3
                },
            decreases n - k,
        {
            let port = outgoing.key_at(k);
            let data = *outgoing.value_at(k);
            let ghost before = self.graph().edge_views();
            let ghost key = outgoing.keys()[k as int];
            self.g.set_outgoing_edge_data(idx, port.as_str(), data);
            proof {
                let s0 = outgoing.keys().take(k as int);
                let s1 = outgoing.keys().take(k + 1);
                assert forall|x: Seq<char>| s1.contains(x) == (s0.contains(x) || x == key) by {
                    if s1.contains(x) {
                        let j = choose|j: int| 0 <= j < s1.len() && s1[j] == x;
                        if j < k {
                            assert(s0[j] == x);
                        }
                    }
                    if s0.contains(x) {
                        let j = choose|j: int| 0 <= j < s0.len() && s0[j] == x;
                        assert(s1[j] == x);
                    }
                    if x == key {
                        assert(s1[k as int] == key);
                    }
                }
                assert(!s0.contains(key)) by {
                    if s0.contains(key) {
                        let j = choose|j: int| 0 <= j < s0.len() && s0[j] == key;
                        assert(outgoing.keys()[j] == outgoing.keys()[k as int]);
                    }
                }
                let after = self.graph().edge_views();
                if out_port_used(before, idx as int, key) {
                    let i0 = choose|i: int| 0 <= i < before.len() && #[trigger] before[i].0 == idx
                        && before[i].2.0 == key
                        && after == before.update(i, (idx, before[i].1,
                            (key, before[i].2.1, before[i].2.2, Some(data))));
                    assert forall|i: int| 0 <= i < start.len() implies {
                        let e = #[trigger] start[i];
                        let f = after[i];
                        &&& f.0 == e.0 && f.1 == e.1 && f.2.0 == e.2.0 && f.2.1 == e.2.1 && f.2.2 == e.2.2
                        &&& (e.0 == idx && s1.contains(e.2.0)) ==> f.2.3 == Some(outgoing.view()[e.2.0])
                        &&& !(e.0 == idx && s1.contains(e.2.0)) ==> f.2.3 == e.2.3
                    } by {
                        if i != i0 {
                            assert(after[i] == before[i]);
                            if start[i].0 == idx && start[i].2.0 == key {
                                assert(crate::optic_graph::ports_used_once(before));
                                assert(before[i].0 == before[i0].0 && before[i].2.0 == before[i0].2.0);
                            }
                        } else {
                            assert(outgoing.view()[key] == data);
                        }
                    }
                } else {
                    assert forall|i: int| 0 <= i < start.len() implies {
                        let e = #[trigger] start[i];
                        let f = after[i];
                        &&& f.0 == e.0 && f.1 == e.1 && f.2.0 == e.2.0 && f.2.1 == e.2.1 && f.2.2 == e.2.2
                        &&& (e.0 == idx && s1.contains(e.2.0)) ==> f.2.3 == Some(outgoing.view()[e.2.0])
                        &&& !(e.0 == idx && s1.contains(e.2.0)) ==> f.2.3 == e.2.3
                    } by {
                        assert(after[i] == before[i]);
                        if start[i].0 == idx && start[i].2.0 == key {
                            assert(before[i].0 == idx && before[i].2.0 == key);
                            assert(out_port_used(before, idx as int, key));
                        }
                    }
                }
            }
            k = k + 1;
        }
        assert(outgoing.keys().take(n as int) =~= outgoing.keys());
        assert(self.graph().edge_views().len() == self.graph().edges().len());
        assert(old(self).graph().edge_views().len() == old(self).graph().edges().len());
    }

    /// The scenery-wide resources.
    pub fn global_conf(&self) -> (r: &SceneryResources)
        ensures
            *r == self.spec_global_conf(),
    {
        &self.global_conf
    }

    /// Replaces the scenery-wide resources.
    pub fn set_global_conf(&mut self, rsrc: SceneryResources)
        ensures
            final(self).spec_global_conf() == rsrc,
            final(self).graph() == old(self).graph(),
            final(self).spec_props() == old(self).spec_props(),
    {
        self.global_conf = rsrc;
    }
}

impl Default for OpticScenery {
    /// An empty scenery with an empty description and default resources.
    fn default() -> (s: Self)
        ensures
            s.wf(),
            s.graph().nodes().len() == 0,
            s.graph().edges().len() == 0,
            s.spec_props().view().dom() == set!["description"@],
    {
        OpticScenery::new()
    }
}

} // verus!
