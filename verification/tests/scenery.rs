use opossum::name_map::NameMap;
use opossum::node_attr::NodeAttr;
use opossum::optic_ports::{OpticPorts, PortType};
use opossum::scenery::{OpticScenery, SceneryResources};

fn dummy(name: &str) -> NodeAttr {
    let mut node = NodeAttr::new("dummy", false);
    node.set_name(name);
    let mut ports = OpticPorts::new();
    ports.add(&PortType::Input, "front").unwrap();
    ports.add(&PortType::Output, "rear").unwrap();
    node.set_ports(ports);
    node
}

#[test]
fn description_and_header() {
    let mut scenery = OpticScenery::default();
    assert_eq!(scenery.description(), "");
    scenery.set_description("my setup").unwrap();
    assert_eq!(scenery.description(), "my setup");
    assert_eq!(
        scenery.add_dot_header("LR"),
        "digraph {\n\tfontsize = 8;\n\tcompound = true;\n\trankdir = \"LR\";\n\tlabel=\"my setup\"\n\tfontname=\"Courier\"\n\tnode [fontname=\"Courier\" fontsize = 8]\n\tedge [fontname=\"Courier\"]\n\n"
    );
}

#[test]
fn to_dot_has_header_nodes_edges() {
    let mut scenery = OpticScenery::new();
    let a = scenery.add_node(dummy("a"));
    let b = scenery.add_node(dummy("b"));
    scenery.connect_nodes(a, "rear", b, "front", 0).unwrap();
    let dot = scenery.to_dot("TB", "  nodes;\n").unwrap();
    assert!(dot.starts_with("digraph {\n"));
    assert!(dot.contains("  nodes;\n"));
    assert!(dot.contains(" -> "));
    assert!(dot.ends_with("}\n"));
}

#[test]
fn stale_nodes_and_order() {
    let mut scenery = OpticScenery::new();
    let a = scenery.add_node(dummy("a"));
    let b = scenery.add_node(dummy("b"));
    let c = scenery.add_node(dummy("c"));
    let lonely = scenery.add_node(dummy("lonely"));
    scenery.connect_nodes(b, "rear", c, "front", 0).unwrap();
    scenery.connect_nodes(a, "rear", b, "front", 0).unwrap();
    assert!(scenery.is_stale_node(lonely));
    assert!(scenery.is_stale_node(99));
    assert!(!scenery.is_stale_node(a));
    assert_eq!(scenery.analysis_order().unwrap(), vec![a, b, c]);
}

#[test]
fn light_travels_through_connections() {
    let mut scenery = OpticScenery::new();
    let a = scenery.add_node(dummy("a"));
    let b = scenery.add_node(dummy("b"));
    scenery.connect_nodes(a, "rear", b, "front", 0).unwrap();
    let mut out: NameMap<u64> = NameMap::new();
    out.insert("rear".to_string(), 17);
    out.insert("unconnected".to_string(), 18);
    scenery.store_outgoing_light(a, &out);
    let incoming = scenery.incoming_light(b);
    assert_eq!(incoming.len(), 1);
    assert_eq!(incoming.get("front"), Some(&17));
}

#[test]
fn global_conf() {
    let mut scenery = OpticScenery::new();
    assert_eq!(scenery.global_conf().ambient_refr_index, 1.0f64.to_bits());
    scenery.set_global_conf(SceneryResources { ambient_refr_index: 1.33f64.to_bits() });
    assert_eq!(f64::from_bits(scenery.global_conf().ambient_refr_index), 1.33);
    assert_eq!(SceneryResources::default().ambient_refr_index, 1.0f64.to_bits());
}

#[test]
fn optic_scenery_new() {
    let scenery = OpticScenery::new();
    assert_eq!(scenery.description(), "");
    assert_eq!(scenery.graph_ref().edge_count(), 0);
    assert_eq!(scenery.graph_ref().node_count(), 0);
}

#[test]
fn optic_scenery_description() {
    let mut scenery = OpticScenery::new();
    assert_eq!(scenery.description(), "");
    scenery.set_description("Test").unwrap();
    assert_eq!(scenery.description(), "Test")
}

#[test]
fn analyze_dummy_test() {
    let mut scenery = OpticScenery::new();
    let node1 = scenery.add_node(dummy("dummy1"));
    let node2 = scenery.add_node(dummy("dummy2"));
    scenery.connect_nodes(node1, "rear", node2, "front", 0).unwrap();
    assert_eq!(scenery.analysis_order().unwrap(), vec![node1, node2]);
}

#[test]
fn analyze_empty_test() {
    let scenery = OpticScenery::new();
    assert_eq!(scenery.analysis_order().unwrap(), Vec::<usize>::new());
}

#[test]
fn analyze_stale_node() {
    let mut scenery = OpticScenery::new();
    let n = scenery.add_node(dummy("dummy"));
    assert!(scenery.is_stale_node(n));
    assert_eq!(scenery.analysis_order().unwrap(), Vec::<usize>::new());
}

#[test]
fn analyze_unconnected_sub_trees() {
    let mut scenery = OpticScenery::new();
    let n1 = scenery.add_node(dummy("dummy"));
    let n2 = scenery.add_node(dummy("dummy"));
    let n3 = scenery.add_node(dummy("dummy"));
    let n4 = scenery.add_node(dummy("dummy"));
    scenery.connect_nodes(n1, "rear", n2, "front", 0).unwrap();
    scenery.connect_nodes(n3, "rear", n4, "front", 0).unwrap();
    assert!(!scenery.graph_ref().is_single_tree());
    let order = scenery.analysis_order().unwrap();
    assert_eq!(order.len(), 4);
}

#[test]
fn scenery_with_parts_defaults() {
    let mut g = opossum::optic_graph::OpticGraph::new();
    g.add_node(dummy("a"));
    let scenery = OpticScenery::with_parts(g, None, None);
    assert_eq!(scenery.graph_ref().node_count(), 1);
    assert!(scenery.properties().is_empty());
    assert_eq!(scenery.global_conf().ambient_refr_index, 1.0f64.to_bits());
}
