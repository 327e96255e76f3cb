use opossum::error::OpossumError;
use opossum::node_attr::NodeAttr;
use opossum::optic_graph::OpticGraph;
use opossum::optic_ports::{OpticPorts, PortType};
use opossum::properties::Proptype;

fn new_id() -> u128 {
    uuid::Uuid::new_v4().as_u128()
}

fn dummy(name: &str) -> NodeAttr {
    let mut node = NodeAttr::new("dummy", false);
    node.set_name(name);
    let mut ports = OpticPorts::new();
    ports.add(&PortType::Input, "front").unwrap();
    ports.add(&PortType::Output, "rear").unwrap();
    node.set_ports(ports);
    node
}

fn nodes_of(graph: &OpticGraph) -> Vec<NodeAttr> {
    graph.node_idxs().into_iter().map(|i| graph.node_by_idx(i).unwrap().clone()).collect()
}

#[test]
fn add_node() {
    let mut graph = OpticGraph::default();
    graph.add_node(dummy("n1"));
    assert_eq!(graph.node_count(), 1);
}

#[test]
fn connect_nodes_ok() {
    let mut graph = OpticGraph::default();
    let n1 = graph.add_node(dummy("Test"));
    let n2 = graph.add_node(dummy("Test"));
    assert!(graph.connect_nodes(n1, "rear", n2, "front", 0).is_ok());
    assert_eq!(graph.edge_count(), 1);
}

#[test]
fn connect_nodes_failure() {
    let mut graph = OpticGraph::default();
    let n1 = graph.add_node(dummy("Test"));
    let n2 = graph.add_node(dummy("Test"));
    assert!(graph.connect_nodes(n1, "rear", 5, "front", 0).is_err());
    assert!(graph.connect_nodes(5, "rear", n2, "front", 0).is_err());
}

#[test]
fn connect_nodes_wrong_distance() {
    let mut graph = OpticGraph::default();
    let n1 = graph.add_node(dummy("Test"));
    let n2 = graph.add_node(dummy("Test"));
    assert!(graph.connect_nodes(n1, "rear", n2, "front", f64::NAN.to_bits()).is_err());
    assert!(graph.connect_nodes(n1, "rear", n2, "front", f64::INFINITY.to_bits()).is_err());
    assert!(graph.connect_nodes(n1, "rear", n2, "front", f64::NEG_INFINITY.to_bits()).is_err());
    assert_eq!(graph.edge_count(), 0);
}

#[test]
fn connect_nodes_target_already_connected() {
    let mut graph = OpticGraph::default();
    let n1 = graph.add_node(dummy("Test"));
    let n2 = graph.add_node(dummy("Test"));
    let n3 = graph.add_node(dummy("Test"));
    assert!(graph.connect_nodes(n1, "rear", n2, "front", 0).is_ok());
    assert!(graph.connect_nodes(n3, "rear", n2, "front", 0).is_err());
    assert!(graph.connect_nodes(n1, "rear", n3, "front", 0).is_err());
}

#[test]
fn connect_nodes_loop_error() {
    let mut graph = OpticGraph::default();
    let n1 = graph.add_node(dummy("Test"));
    let n2 = graph.add_node(dummy("Test"));
    assert!(graph.connect_nodes(n1, "rear", n2, "front", 0).is_ok());
    assert!(graph.connect_nodes(n2, "rear", n1, "front", 0).is_err());
    assert_eq!(graph.edge_count(), 1);
}

#[test]
fn connect_nodes_unknown_port() {
    let mut graph = OpticGraph::default();
    let n1 = graph.add_node(dummy("Test"));
    let n2 = graph.add_node(dummy("Test"));
    assert!(graph.connect_nodes(n1, "front", n2, "front", 0).is_err());
    assert!(graph.connect_nodes(n1, "rear", n2, "rear", 0).is_err());
    assert_eq!(graph.edge_count(), 0);
}

#[test]
fn node_by_uuid() {
    let mut graph = OpticGraph::default();
    let n1 = graph.add_node(dummy("dummy"));
    let uuid = graph.node_by_idx(n1).unwrap().uuid();
    assert!(graph.node_by_uuid(uuid).is_some());
    assert!(graph.node_by_uuid(new_id()).is_none());
}

#[test]
fn node_id() {
    let mut graph = OpticGraph::default();
    let n1 = graph.add_node(dummy("dummy"));
    let uuid = graph.node_by_idx(n1).unwrap().uuid();
    assert_eq!(graph.node_idx_by_uuid(uuid), Some(n1));
    assert_eq!(graph.node_idx_by_uuid(new_id()), None);
}

#[test]
fn is_single_tree() {
    let mut graph = OpticGraph::default();
    let n1 = graph.add_node(dummy("dummy"));
    let n2 = graph.add_node(dummy("dummy"));
    let n3 = graph.add_node(dummy("dummy"));
    let n4 = graph.add_node(dummy("dummy"));
    graph.connect_nodes(n1, "rear", n2, "front", 0).unwrap();
    graph.connect_nodes(n3, "rear", n4, "front", 0).unwrap();
    assert_eq!(graph.is_single_tree(), false);
    graph.connect_nodes(n2, "rear", n3, "front", 0).unwrap();
    assert_eq!(graph.is_single_tree(), true);
}

#[test]
fn serialize_deserialize() {
    let mut graph = OpticGraph::default();
    graph.add_node(dummy("dummy"));
    let nodes = nodes_of(&graph);
    let edges = graph.edge_infos();
    let restored = OpticGraph::from_parts(nodes, edges);
    assert!(restored.is_ok());
    assert_eq!(restored.unwrap().node_count(), 1);
}

#[test]
fn saved_edges_restore_the_same_connections() {
    let mut graph = OpticGraph::default();
    let n1 = graph.add_node(dummy("a"));
    let n2 = graph.add_node(dummy("b"));
    let n3 = graph.add_node(dummy("c"));
    graph.connect_nodes(n1, "rear", n2, "front", 1.0f64.to_bits()).unwrap();
    graph.connect_nodes(n2, "rear", n3, "front", 2.0f64.to_bits()).unwrap();
    let infos = graph.edge_infos();
    assert_eq!(infos.len(), 2);
    let restored = OpticGraph::from_parts(nodes_of(&graph), infos.clone()).unwrap();
    assert_eq!(restored.edge_count(), 2);
    assert_eq!(restored.edge_infos(), infos);
    for k in 0..2 {
        assert_eq!(restored.edge_by_idx(k).unwrap(), graph.edge_by_idx(k).unwrap());
    }
}

#[test]
fn from_parts_unknown_node_fails() {
    let nodes = vec![dummy("a")];
    let id = nodes[0].uuid();
    let edges = vec![(id, 12345u128, "rear".to_string(), "front".to_string(), 0u64)];
    match OpticGraph::from_parts(nodes, edges) {
        Err(OpossumError::OpticScenery(msg)) => {
            assert_eq!(msg, "target id 00000000-0000-0000-0000-000000003039 does not exist")
        },
        _ => panic!("unknown target node accepted"),
    }
}

#[test]
fn from_parts_names_reference_nodes() {
    let target = dummy("lens");
    let target_id = target.uuid();
    let mut reference = NodeAttr::new("reference", false);
    reference.create_property("reference id", "", Proptype::Uuid(target_id)).unwrap();
    let graph = OpticGraph::from_parts(vec![target, reference], vec![]).unwrap();
    assert_eq!(graph.node_by_idx(1).unwrap().name(), "ref (lens)");
    let mut dangling = NodeAttr::new("reference", false);
    dangling.create_property("reference id", "", Proptype::Uuid(7)).unwrap();
    assert!(OpticGraph::from_parts(vec![dangling], vec![]).is_err());
}

#[test]
fn invert_graph_reverses_edges() {
    let mut graph = OpticGraph::default();
    let n1 = graph.add_node(dummy("a"));
    let n2 = graph.add_node(dummy("b"));
    graph.connect_nodes(n1, "rear", n2, "front", 0).unwrap();
    assert!(graph.is_src_node(n1));
    assert!(graph.is_sink_node(n2));
    graph.invert_graph().unwrap();
    assert!(graph.is_src_node(n2));
    assert!(graph.is_sink_node(n1));
    let light = graph.edge_by_idx(0).unwrap();
    assert_eq!(light.src_port(), "front");
    assert_eq!(light.target_port(), "rear");
    assert!(graph.node_by_idx(n1).unwrap().inverted());
    assert_eq!(graph.topologically_sorted().unwrap(), vec![n2, n1]);
}

#[test]
fn edge_data_travels_to_incoming_edges() {
    let mut graph = OpticGraph::default();
    let n1 = graph.add_node(dummy("a"));
    let n2 = graph.add_node(dummy("b"));
    graph.connect_nodes(n1, "rear", n2, "front", 0).unwrap();
    assert!(graph.incoming_edges(n2).is_empty());
    graph.set_outgoing_edge_data(n1, "rear", 99);
    let incoming = graph.incoming_edges(n2);
    assert_eq!(incoming.get("front"), Some(&99));
    assert!(graph.contains_detector() == false);
}

#[test]
fn dot_edges() {
    let mut graph = OpticGraph::default();
    let n1 = graph.add_node(dummy("a"));
    let n2 = graph.add_node(dummy("b"));
    graph.connect_nodes(n1, "rear", n2, "front", 0).unwrap();
    let id1 = format!("{:032x}", graph.node_by_idx(n1).unwrap().uuid());
    let id2 = format!("{:032x}", graph.node_by_idx(n2).unwrap().uuid());
    assert_eq!(
        graph.create_dot_edges().unwrap(),
        format!("  i{id1}:rear -> i{id2}:front \n}}\n")
    );
}

#[test]
fn indices_beyond_32_bits_do_not_exist() {
    let mut graph = OpticGraph::default();
    let n1 = graph.add_node(dummy("a"));
    let n2 = graph.add_node(dummy("b"));
    let big: usize = (u32::MAX as usize).wrapping_add(1);
    if big != 0 {
        assert!(graph.node_by_idx(big).is_err());
        assert!(graph.edge_by_idx(big).is_err());
        assert!(graph.connect_nodes(big, "rear", n2, "front", 0).is_err());
        assert!(graph.connect_nodes(n1, "rear", big + n2, "front", 0).is_err());
        assert_eq!(graph.edge_count(), 0);
    }
    graph.connect_nodes(n1, "rear", n2, "front", 0).unwrap();
    if big != 0 {
        assert!(graph.edge_by_idx(big).is_err());
    }
}

#[test]
fn from_parts_keeps_nodes_but_reference_names() {
    let mut target = dummy("lens");
    target.create_property("extra", "", Proptype::I32(3)).unwrap();
    let target_id = target.uuid();
    let mut reference = NodeAttr::new("reference", false);
    reference.create_property("reference id", "", Proptype::Uuid(target_id)).unwrap();
    let reference_id = reference.uuid();
    let graph = OpticGraph::from_parts(vec![target, reference], vec![]).unwrap();
    let t = graph.node_by_idx(0).unwrap();
    assert_eq!(t.name(), "lens");
    assert_eq!(t.properties().get("extra").unwrap(), &Proptype::I32(3));
    let r = graph.node_by_idx(1).unwrap();
    assert_eq!(r.uuid(), reference_id);
    assert_eq!(r.properties().get("reference id").unwrap(), &Proptype::Uuid(target_id));
}
