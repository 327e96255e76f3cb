use opossum::port_map::PortMap;

fn new_id() -> u128 {
    uuid::Uuid::new_v4().as_u128()
}

#[test]
fn add() {
    let mut port_map = PortMap::default();
    assert_eq!(port_map.len(), 0);
    assert!(port_map.add("", new_id(), "internal1").is_err());
    assert!(port_map.add("external1", new_id(), "").is_err());
    port_map.add("external1", new_id(), "internal1").unwrap();
    assert_eq!(port_map.len(), 1);
}

#[test]
fn remove() {
    let mut port_map = PortMap::default();
    assert_eq!(port_map.remove(new_id(), "internal1"), false);
    let uuid = new_id();
    port_map.add("external1", uuid, "internal1").unwrap();
    assert_eq!(port_map.remove(0, "internal1"), false);
    assert_eq!(port_map.remove(uuid, "internal2"), false);
    assert_eq!(port_map.remove(uuid, "internal1"), true);
    assert_eq!(port_map.len(), 0);
}

#[test]
fn remove_all_from_uuid() {
    let mut port_map = PortMap::default();
    assert_eq!(port_map.remove_all_from_uuid(new_id()), false);
    let uuid1 = new_id();
    port_map.add("external1", uuid1, "internal1").unwrap();
    port_map.add("external2", uuid1, "internal2").unwrap();
    let uuid2 = new_id();
    port_map.add("external3", uuid2, "internal1").unwrap();
    port_map.add("external4", uuid2, "internal2").unwrap();
    port_map.add("external5", uuid2, "internal3").unwrap();
    assert_eq!(port_map.remove_all_from_uuid(0), false);
    assert_eq!(port_map.remove_all_from_uuid(uuid1), true);
    assert_eq!(port_map.len(), 3);
    assert_eq!(port_map.remove_all_from_uuid(uuid2), true);
    assert_eq!(port_map.len(), 0);
}

#[test]
fn port_names() {
    let mut port_map = PortMap::default();
    port_map.add("external1", new_id(), "internal1").unwrap();
    port_map.add("external2", new_id(), "internal2").unwrap();
    let mut port_names = port_map.port_names();
    port_names.sort();
    assert_eq!(port_names, vec!["external1", "external2"]);
}

#[test]
fn get() {
    let mut port_map = PortMap::default();
    let node_id = new_id();
    port_map.add("external1", node_id, "internal1").unwrap();
    assert_eq!(port_map.get("external1"), Some(&(node_id, "internal1".to_string())));
    assert_eq!(port_map.get("external2"), None);
}

#[test]
fn external_port_name() {
    let mut port_map = PortMap::default();
    let node_id = new_id();
    port_map.add("external1", node_id, "internal1").unwrap();
    assert_eq!(port_map.external_port_name(node_id, "internal1"), Some("external1".to_string()));
    assert_eq!(port_map.external_port_name(node_id, "internal2"), None);
}

#[test]
fn contains_external_name() {
    let mut port_map = PortMap::default();
    port_map.add("external1", new_id(), "internal1").unwrap();
    port_map.add("external2", new_id(), "internal2").unwrap();
    assert!(port_map.contains_external_name("external1"));
    assert!(port_map.contains_external_name("external2"));
    assert!(!port_map.contains_external_name("external3"));
}

#[test]
fn contains_node() {
    let mut port_map = PortMap::default();
    let node_id1 = new_id();
    let node_id2 = new_id();
    port_map.add("external1", node_id1, "internal1").unwrap();
    port_map.add("external2", node_id2, "internal2").unwrap();
    assert!(port_map.contains_node(node_id1));
    assert!(port_map.contains_node(node_id2));
    assert!(!port_map.contains_node(0));
}

#[test]
fn assigned_ports_for_node() {
    let mut port_map = PortMap::default();
    let node_id1 = new_id();
    let node_id2 = new_id();
    port_map.add("external1", node_id1, "internal1").unwrap();
    port_map.add("external2", node_id1, "internal2").unwrap();
    port_map.add("external3", node_id2, "internal2").unwrap();
    let mut ports = port_map.assigned_ports_for_node(node_id1);
    ports.sort();
    assert_eq!(ports[0].0, "external1");
    assert_eq!(ports[0].1, "internal1");
    assert_eq!(ports[1].0, "external2");
    assert_eq!(ports[1].1, "internal2");
    let ports = port_map.assigned_ports_for_node(node_id2);
    assert_eq!(ports[0].0, "external3");
    assert_eq!(ports[0].1, "internal2");
    assert!(port_map.assigned_ports_for_node(0).is_empty());
}

#[test]
fn add_replaces_and_remove_takes_smallest_name() {
    let mut port_map = PortMap::default();
    port_map.add("b", 9, "x").unwrap();
    port_map.add("a", 9, "x").unwrap();
    port_map.add("a", 9, "x").unwrap();
    assert_eq!(port_map.len(), 2);
    assert_eq!(port_map.external_port_name(9, "x"), Some("a".to_string()));
    assert!(port_map.remove(9, "x"));
    assert_eq!(port_map.port_names(), vec!["b".to_string()]);
}
