use opossum::name_map::NameMap;
use opossum::optic_port::{Aperture, CircleConfig};
use opossum::optic_ports::PortType;
use opossum::properties::Proptype;
use opossum::wedge::Wedge;

#[test]
fn mod_ports() {
    let node = Wedge::default();
    assert_eq!(node.ports().names(&PortType::Input), vec!["input_1"]);
    assert_eq!(node.ports().names(&PortType::Output), vec!["output_1"]);
}

#[test]
fn mod_default() {
    let node = Wedge::default();
    assert_eq!(node.name(), "wedge");
    assert_eq!(node.node_type(), "wedge");
    assert_eq!(node.node_color(), "aquamarine");
    assert_eq!(node.inverted(), false);
    if let Ok(Proptype::Length(p)) = node.properties().get("center thickness") {
        assert_eq!(f64::from_bits(*p), 0.01);
    } else {
        assert!(false, "could not read center thickness.");
    }
    if let Ok(Proptype::Angle(p)) = node.properties().get("wedge") {
        assert_eq!(f64::from_bits(*p), 0.0);
    } else {
        assert!(false, "could not read angle.");
    }
    if let Ok(Proptype::RefractiveIndex(p)) = node.properties().get("refractive index") {
        assert_eq!(f64::from_bits(*p), 1.5);
    } else {
        assert!(false, "could not read refractive index.");
    }
}

#[test]
fn mod_new() {
    let n = 1.5f64.to_bits();
    let zero = 0.0f64.to_bits();
    assert!(Wedge::new("test", (-0.0001f64).to_bits(), zero, true, n).is_err());
    assert!(Wedge::new("test", f64::NEG_INFINITY.to_bits(), zero, true, n).is_err());
    assert!(Wedge::new("test", f64::INFINITY.to_bits(), zero, true, n).is_err());
    assert!(Wedge::new("test", f64::NAN.to_bits(), zero, true, n).is_err());
    assert!(Wedge::new("test", 0.01f64.to_bits(), f64::NAN.to_bits(), true, n).is_err());
    assert!(Wedge::new("test", 0.01f64.to_bits(), f64::INFINITY.to_bits(), true, n).is_err());
    assert!(Wedge::new("test", 0.01f64.to_bits(), 1.6f64.to_bits(), false, n).is_err());
    let angle = (89.0f64).to_radians();
    let node = Wedge::new("test", 0.01f64.to_bits(), angle.to_bits(), true, n).unwrap();
    assert_eq!(node.name(), "test");
    assert_eq!(node.node_type(), "wedge");
    assert_eq!(node.inverted(), false);
    if let Ok(Proptype::Length(p)) = node.properties().get("center thickness") {
        assert_eq!(f64::from_bits(*p), 0.01);
    } else {
        assert!(false, "could not read center thickness.");
    }
    if let Ok(Proptype::Angle(p)) = node.properties().get("wedge") {
        assert_eq!(f64::from_bits(*p), angle);
    } else {
        assert!(false, "could not read angle.");
    }
    if let Ok(Proptype::RefractiveIndex(p)) = node.properties().get("refractive index") {
        assert_eq!(f64::from_bits(*p), 1.5);
    } else {
        assert!(false, "could not read refractive index.");
    }
}

#[test]
fn mod_analyze_empty() {
    let node = Wedge::default();
    let input: NameMap<u32> = NameMap::new();
    let output = node.analyze_energy(input).unwrap();
    assert!(output.is_empty());
}

#[test]
fn mod_analyze_wrong_port() {
    let node = Wedge::default();
    let mut input: NameMap<u32> = NameMap::new();
    input.insert("output_1".to_string(), 7);
    let output = node.analyze_energy(input).unwrap();
    assert!(output.is_empty());
}

#[test]
fn mod_analyze_energy_ok() {
    let node = Wedge::default();
    let mut input: NameMap<u32> = NameMap::new();
    input.insert("input_1".to_string(), 42);
    let output = node.analyze_energy(input).unwrap();
    assert!(output.contains_key("output_1"));
    assert_eq!(output.len(), 1);
    assert_eq!(output.get("output_1"), Some(&42));
}

#[test]
fn analyze_energy_inverted_runs_backwards() {
    let mut node = Wedge::default();
    node.set_inverted(true).unwrap();
    assert!(node.inverted());
    let mut input: NameMap<u32> = NameMap::new();
    input.insert("input_1".to_string(), 1);
    assert!(node.analyze_energy(input).unwrap().is_empty());
    let mut input: NameMap<u32> = NameMap::new();
    input.insert("output_1".to_string(), 5);
    let output = node.analyze_energy(input).unwrap();
    assert_eq!(output.len(), 1);
    assert_eq!(output.get("input_1"), Some(&5));
}

#[test]
fn mod_set_aperture() {
    let mut node = Wedge::default();
    let circle = Aperture::BinaryCircle(CircleConfig { radius: 1, center: (0, 0) });
    assert!(node.set_aperture(&PortType::Input, "input_1", &circle).is_ok());
    assert!(node.set_aperture(&PortType::Input, "output_1", &circle).is_err());
    assert!(node.set_aperture(&PortType::Output, "output_1", &circle).is_ok());
    assert!(node.set_aperture(&PortType::Output, "input_1", &circle).is_err());
    assert_eq!(node.ports().aperture(&PortType::Input, "input_1"), Some(&circle));
}

#[test]
fn mod_inverted() {
    let mut node = Wedge::default();
    node.set_inverted(true).unwrap();
    assert!(node.inverted());
    assert_eq!(node.ports().names(&PortType::Input), vec!["output_1"]);
    assert_eq!(node.ports().names(&PortType::Output), vec!["input_1"]);
}

#[test]
fn set_property_keeps_kind() {
    let mut node = Wedge::default();
    assert!(node.set_property("wedge", Proptype::Angle(0.1f64.to_bits())).is_ok());
    assert!(node.set_property("wedge", Proptype::Bool(true)).is_err());
    assert!(node.set_property("unknown", Proptype::Bool(true)).is_err());
    assert_eq!(node.properties().get("wedge").unwrap(), &Proptype::Angle(0.1f64.to_bits()));
}

#[test]
fn wedge_default() {
    let node = Wedge::default();
    assert_eq!(node.name(), "wedge");
    assert_eq!(node.node_type(), "wedge");
    assert_eq!(node.node_color(), "aquamarine");
    assert_eq!(node.inverted(), false);
    if let Ok(Proptype::Length(p)) = node.properties().get("center thickness") {
        assert_eq!(f64::from_bits(*p), 0.01);
    } else {
        assert!(false, "could not read center thickness.");
    }
    if let Ok(Proptype::Angle(p)) = node.properties().get("wedge") {
        assert_eq!(f64::from_bits(*p), 0.0);
    } else {
        assert!(false, "could not read angle.");
    }
    if let Ok(Proptype::RefractiveIndex(p)) = node.properties().get("refractive index") {
        assert_eq!(f64::from_bits(*p), 1.5);
    } else {
        assert!(false, "could not read refractive index.");
    }
}

fn within_limits(angle_deg: f64) -> bool {
    angle_deg.abs() < 90.0
}

fn new_wedge(thickness_mm: f64, angle_deg: f64, n: f64) -> bool {
    Wedge::new(
        "test",
        (thickness_mm / 1000.0).to_bits(),
        angle_deg.to_radians().to_bits(),
        within_limits(angle_deg),
        n.to_bits(),
    )
    .is_ok()
}

#[test]
fn wedge_new() {
    assert!(!new_wedge(-0.1, 0.0, 1.5));
    assert!(!new_wedge(f64::NEG_INFINITY, 0.0, 1.5));
    assert!(!new_wedge(f64::INFINITY, 0.0, 1.5));
    assert!(!new_wedge(f64::NAN, 0.0, 1.5));
    assert!(!new_wedge(0.0, f64::NEG_INFINITY, 1.0));
    assert!(!new_wedge(0.0, f64::INFINITY, 1.0));
    assert!(!new_wedge(0.0, f64::NAN, 1.0));
    assert!(!new_wedge(0.0, 90.01, 1.0));
    assert!(!new_wedge(0.0, -90.01, 1.0));
    assert!(new_wedge(0.0, 89.99, 1.0));
    assert!(new_wedge(0.0, -89.99, 1.0));
    let n = Wedge::new("test", 0.0f64.to_bits(), 10.0f64.to_radians().to_bits(), true, 1.0f64.to_bits())
        .unwrap();
    assert_eq!(n.name(), "test");
    if let Ok(Proptype::Length(p)) = n.properties().get("center thickness") {
        assert_eq!(f64::from_bits(*p), 0.0);
    } else {
        assert!(false, "could not read center thickness.");
    }
    if let Ok(Proptype::Angle(p)) = n.properties().get("wedge") {
        assert_eq!(f64::from_bits(*p), 10.0f64.to_radians());
    } else {
        assert!(false, "could not read angle.");
    }
    if let Ok(Proptype::RefractiveIndex(p)) = n.properties().get("refractive index") {
        assert_eq!(f64::from_bits(*p), 1.0);
    } else {
        assert!(false, "could not read refractive index.");
    }
}

#[test]
fn wedge_inverted() {
    let mut node = Wedge::default();
    assert!(!node.inverted());
    node.set_inverted(true).unwrap();
    assert!(node.inverted());
}

#[test]
fn wedge_analyze_empty() {
    let node = Wedge::default();
    let input: NameMap<u32> = NameMap::new();
    let output = node.analyze_energy(input).unwrap();
    assert!(output.is_empty());
}
