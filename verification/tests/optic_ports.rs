use opossum::optic_port::{Aperture, CircleConfig, CoatingType, OpticPort};
use opossum::optic_ports::{OpticPorts, PortType};

#[test]
fn optic_ports_new() {
    let ports = OpticPorts::new();
    assert_eq!(ports.ports(&PortType::Input).len(), 0);
    assert_eq!(ports.ports(&PortType::Output).len(), 0);
    assert_eq!(ports.inverted(), false);
}

#[test]
fn add_input_ok() {
    let mut ports = OpticPorts::new();
    assert!(ports.add(&PortType::Input, "Test").is_ok());
    assert_eq!(ports.ports(&PortType::Input).len(), 1);
}

#[test]
fn add_input_twice() {
    let mut ports = OpticPorts::new();
    assert!(ports.add(&PortType::Input, "Test").is_ok());
    assert!(ports.add(&PortType::Input, "Test").is_err());
    assert_eq!(ports.ports(&PortType::Input).len(), 1);
}

#[test]
fn add_output_ok() {
    let mut ports = OpticPorts::new();
    assert!(ports.add(&PortType::Output, "Test").is_ok());
    assert_eq!(ports.ports(&PortType::Output).len(), 1);
}

#[test]
fn add_output_twice() {
    let mut ports = OpticPorts::new();
    assert!(ports.add(&PortType::Output, "Test").is_ok());
    assert!(ports.add(&PortType::Output, "Test").is_err());
    assert_eq!(ports.ports(&PortType::Output).len(), 1);
}

#[test]
fn inputs() {
    let mut ports = OpticPorts::new();
    ports.add(&PortType::Input, "Test1").unwrap();
    ports.add(&PortType::Input, "Test2").unwrap();
    ports.add(&PortType::Output, "Test3").unwrap();
    ports.add(&PortType::Output, "Test4").unwrap();
    let mut v = ports.names(&PortType::Input);
    v.sort();
    assert_eq!(v, vec!["Test1".to_string(), "Test2".to_string()]);
}

#[test]
fn inputs_inverted() {
    let mut ports = OpticPorts::new();
    ports.set_inverted(true);
    ports.add(&PortType::Input, "Test1").unwrap();
    ports.add(&PortType::Input, "Test2").unwrap();
    ports.add(&PortType::Output, "Test3").unwrap();
    ports.add(&PortType::Output, "Test4").unwrap();
    let mut v = ports.names(&PortType::Input);
    v.sort();
    assert_eq!(v, vec!["Test3".to_string(), "Test4".to_string()]);
}

#[test]
fn outputs() {
    let mut ports = OpticPorts::new();
    ports.add(&PortType::Input, "Test1").unwrap();
    ports.add(&PortType::Input, "Test2").unwrap();
    ports.add(&PortType::Output, "Test3").unwrap();
    ports.add(&PortType::Output, "Test4").unwrap();
    let mut v = ports.names(&PortType::Output);
    v.sort();
    assert_eq!(v, vec!["Test3".to_string(), "Test4".to_string()]);
}

#[test]
fn outputs_inverted() {
    let mut ports = OpticPorts::new();
    ports.set_inverted(true);
    ports.add(&PortType::Input, "Test1").unwrap();
    ports.add(&PortType::Input, "Test2").unwrap();
    ports.add(&PortType::Output, "Test3").unwrap();
    ports.add(&PortType::Output, "Test4").unwrap();
    let mut v = ports.names(&PortType::Output);
    v.sort();
    assert_eq!(v, vec!["Test1".to_string(), "Test2".to_string()]);
}

#[test]
fn set_inverted() {
    let mut ports = OpticPorts::new();
    ports.set_inverted(true);
    assert_eq!(ports.inverted(), true);
}

#[test]
fn display_empty() {
    let ports = OpticPorts::new();
    assert_eq!(ports.to_string(), "inputs:\n  None\noutput:\n  None\n".to_owned());
}

#[test]
fn display_entries() {
    let mut ports = OpticPorts::new();
    ports.add(&PortType::Input, "test1").unwrap();
    ports.add(&PortType::Input, "test2").unwrap();
    ports.add(&PortType::Output, "test3").unwrap();
    ports.add(&PortType::Output, "test4").unwrap();
    assert_eq!(
        ports.to_string(),
        "inputs:\n  <test1> OpticPort { aperture: None, coating: IdealAR }\n  <test2> OpticPort { aperture: None, coating: IdealAR }\noutput:\n  <test3> OpticPort { aperture: None, coating: IdealAR }\n  <test4> OpticPort { aperture: None, coating: IdealAR }\n"
            .to_owned()
    );
}

#[test]
fn display_entries_inverted() {
    let mut ports = OpticPorts::new();
    ports.add(&PortType::Input, "test1").unwrap();
    ports.add(&PortType::Input, "test2").unwrap();
    ports.add(&PortType::Output, "test3").unwrap();
    ports.add(&PortType::Output, "test4").unwrap();
    ports.set_inverted(true);
    assert_eq!(
        ports.to_string(),
        "inputs:\n  <test3> OpticPort { aperture: None, coating: IdealAR }\n  <test4> OpticPort { aperture: None, coating: IdealAR }\noutput:\n  <test1> OpticPort { aperture: None, coating: IdealAR }\n  <test2> OpticPort { aperture: None, coating: IdealAR }\nports are inverted\n"
            .to_owned()
    );
}

#[test]
fn ports_names_are_sorted() {
    let mut ports = OpticPorts::new();
    ports.add(&PortType::Input, "b").unwrap();
    ports.add(&PortType::Input, "a").unwrap();
    ports.add(&PortType::Input, "c").unwrap();
    assert_eq!(ports.names(&PortType::Input), vec!["a".to_string(), "b".to_string(), "c".to_string()]);
}

#[test]
fn set_aperture_then_read() {
    let mut ports = OpticPorts::new();
    ports.add(&PortType::Input, "in").unwrap();
    let circle = Aperture::BinaryCircle(CircleConfig { radius: 1, center: (0, 0) });
    assert!(ports.set_aperture(&PortType::Input, "in", &circle).is_ok());
    assert_eq!(ports.aperture(&PortType::Input, "in"), Some(&circle));
    assert_eq!(ports.coating(&PortType::Input, "in"), Some(&CoatingType::IdealAR));
    assert!(ports.set_aperture(&PortType::Input, "missing", &circle).is_err());
    assert!(ports.set_aperture(&PortType::Output, "in", &circle).is_err());
    assert_eq!(ports.aperture(&PortType::Output, "in"), None);
}

#[test]
fn set_coating_inverted_targets_stored_outputs() {
    let mut ports = OpticPorts::new();
    ports.add(&PortType::Output, "out").unwrap();
    ports.set_inverted(true);
    let coating = CoatingType::ConstantR { reflectivity: 7 };
    assert!(ports.set_coating(&PortType::Input, "out", &coating).is_ok());
    assert_eq!(ports.coating(&PortType::Input, "out"), Some(&coating));
    ports.set_inverted(false);
    assert_eq!(ports.coating(&PortType::Output, "out"), Some(&coating));
}

#[test]
fn set_apertures_copies_matching_ports() {
    let mut ports = OpticPorts::new();
    ports.add(&PortType::Input, "a").unwrap();
    ports.add(&PortType::Output, "b").unwrap();
    let mut source = OpticPorts::new();
    source.add(&PortType::Input, "a").unwrap();
    let circle = Aperture::BinaryCircle(CircleConfig { radius: 2, center: (1, 1) });
    source.set_aperture(&PortType::Input, "a", &circle).unwrap();
    assert!(ports.set_apertures(source).is_ok());
    assert_eq!(ports.aperture(&PortType::Input, "a"), Some(&circle));
    let mut unknown = OpticPorts::new();
    unknown.add(&PortType::Output, "zzz").unwrap();
    assert!(ports.set_apertures(unknown).is_err());
}

#[test]
fn optic_port_debug_text() {
    let port = OpticPort::default();
    assert_eq!(port.debug_text(), "OpticPort { aperture: None, coating: IdealAR }".to_owned());
    let mut port = OpticPort::new(Aperture::NoAperture, CoatingType::IdealAR);
    port.set_coating(CoatingType::ConstantR { reflectivity: 1 });
    assert_eq!(port.coating(), &CoatingType::ConstantR { reflectivity: 1 });
    port.set_aperture(Aperture::BinaryCircle(CircleConfig { radius: 3, center: (0, 0) }));
    assert_eq!(port.aperture(), &Aperture::BinaryCircle(CircleConfig { radius: 3, center: (0, 0) }));
}
