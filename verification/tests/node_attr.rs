use opossum::node_attr::NodeAttr;
use opossum::optic_port::{Aperture, CircleConfig};
use opossum::optic_ports::{OpticPorts, PortType};
use opossum::properties::{Properties, Proptype};

fn with_ports(node_type: &str) -> NodeAttr {
    let mut node = NodeAttr::new(node_type, false);
    let mut ports = OpticPorts::new();
    ports.add(&PortType::Input, "in").unwrap();
    ports.add(&PortType::Output, "out").unwrap();
    node.set_ports(ports);
    node
}

#[test]
fn set_properties_sets_known_properties() {
    let mut node = with_ports("lens");
    node.create_property("focal length", "", Proptype::Length(1.0f64.to_bits())).unwrap();
    let mut given = Properties::default();
    given.create("focal length", "", Proptype::Length(2.0f64.to_bits())).unwrap();
    given.create("unknown", "", Proptype::I32(1)).unwrap();
    given.create("inverted", "", Proptype::Bool(true)).unwrap();
    assert!(node.set_properties(given).is_ok());
    assert_eq!(node.get_property("focal length").unwrap(), &Proptype::Length(2.0f64.to_bits()));
    assert!(node.get_property("unknown").is_err());
    assert!(node.inverted());
}

#[test]
fn set_properties_refuses_other_kinds() {
    let mut node = with_ports("lens");
    let mut given = Properties::default();
    given.create("inverted", "", Proptype::I32(1)).unwrap();
    assert!(node.set_properties(given).is_err());
    assert!(!node.inverted());
}

#[test]
fn set_properties_takes_apertures() {
    let mut node = with_ports("lens");
    node.create_property("apertures", "", Proptype::OpticPorts(OpticPorts::new())).unwrap();
    let mut from = OpticPorts::new();
    from.add(&PortType::Input, "in").unwrap();
    let circle = Aperture::BinaryCircle(CircleConfig { radius: 4, center: (0, 0) });
    from.set_aperture(&PortType::Input, "in", &circle).unwrap();
    let mut given = Properties::default();
    given.create("apertures", "", Proptype::OpticPorts(from)).unwrap();
    assert!(node.set_properties(given).is_ok());
    assert_eq!(node.ports().aperture(&PortType::Input, "in"), Some(&circle));
    let mut wrong = OpticPorts::new();
    wrong.add(&PortType::Input, "elsewhere").unwrap();
    let mut given = Properties::default();
    given.create("apertures", "", Proptype::OpticPorts(wrong)).unwrap();
    assert!(node.set_properties(given).is_err());
}

#[test]
fn set_node_attr_takes_over_attributes() {
    let mut node = with_ports("lens");
    let mut other = NodeAttr::new("other", false);
    other.set_name("copied");
    other.set_uuid(42);
    other.set_inverted(true);
    node.set_node_attr(other);
    assert_eq!(node.name(), "copied");
    assert_eq!(node.uuid(), 42);
    assert_eq!(node.node_type(), "lens");
    assert!(node.inverted());
    assert!(node.ports().names(&PortType::Input).is_empty());
}

#[test]
fn node_aperture_and_coating_follow_inversion() {
    let mut node = with_ports("lens");
    node.set_inverted(true);
    let circle = Aperture::BinaryCircle(CircleConfig { radius: 1, center: (2, 3) });
    assert!(node.set_aperture(&PortType::Input, "out", &circle).is_ok());
    assert!(node.set_aperture(&PortType::Input, "in", &circle).is_err());
    assert_eq!(node.ports().aperture(&PortType::Input, "out"), Some(&circle));
    assert!(node.has_port(&PortType::Output, "in"));
}

#[test]
fn new_node_identifier_is_version_four() {
    let a = NodeAttr::new("dummy", false);
    let b = NodeAttr::new("dummy", false);
    assert_eq!((a.uuid() >> 76) & 0xf, 4);
    assert_eq!((a.uuid() >> 62) & 0x3, 2);
    assert_ne!(a.uuid(), b.uuid());
}
