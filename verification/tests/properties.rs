use opossum::error::OpossumError;
use opossum::properties::{Properties, Property, Proptype};

#[test]
fn mod_properties_create() {
    let mut props = Properties::default();
    assert!(props.create("test", "my description", Proptype::I32(1)).is_ok());
    assert_eq!(props.nr_of_props(), 1);
    assert!(props.create("test2", "my description", Proptype::I32(1)).is_ok());
    assert_eq!(props.nr_of_props(), 2);
    assert!(props.create("test", "my description", Proptype::I32(2)).is_err());
    assert_eq!(props.nr_of_props(), 2);
}

#[test]
fn properties_properties_create() {
    let mut props = Properties::default();
    assert!(props.create("test", "my description", Proptype::I32(1)).is_ok());
    assert_eq!(props.nr_of_props(), 1);
    assert!(props.create("test2", "my description", Proptype::I32(1)).is_ok());
    assert_eq!(props.nr_of_props(), 2);
    assert!(props.create("test", "my description", Proptype::I32(2)).is_err());
    assert_eq!(props.nr_of_props(), 2);
}

#[test]
fn mod_properties_get() {
    let mut props = Properties::default();
    props.create("test", "my description", Proptype::I32(1)).unwrap();
    let prop = props.get("test").unwrap();
    assert!(matches!(prop, &Proptype::I32(1)));
    assert!(props.get("wrong").is_err());
}

#[test]
fn properties_properties_get() {
    let mut props = Properties::default();
    props.create("test", "my description", Proptype::I32(1)).unwrap();
    let prop = props.get("test").unwrap();
    assert!(matches!(prop, &Proptype::I32(1)));
    assert!(props.get("wrong").is_err());
}

#[test]
fn properties_node_type() {
    let mut props = Properties::default();
    assert!(props.node_type().is_err());
    props.create("node_type", "my description", Proptype::String("my node".to_string())).unwrap();
    assert_eq!(props.node_type().unwrap(), "my node");
    let mut props = Properties::default();
    props.create("node_type", "my description", Proptype::Bool(true)).unwrap();
    assert!(props.node_type().is_err());
}

#[test]
fn properties_name_falls_back_to_node_type() {
    let mut props = Properties::default();
    assert!(props.name().is_err());
    props.create("node_type", "", Proptype::String("dummy".to_string())).unwrap();
    assert_eq!(props.name().unwrap(), "dummy");
    props.create("name", "", Proptype::String("my name".to_string())).unwrap();
    assert_eq!(props.name().unwrap(), "my name");
}

#[test]
fn mod_properties_get_bool() {
    let mut props = Properties::default();
    props.create("no bool", "my description", Proptype::I32(1)).unwrap();
    props.create("my bool", "my description", Proptype::Bool(true)).unwrap();
    props.create("my other bool", "my description", Proptype::Bool(false)).unwrap();
    assert!(props.get_bool("wrong").is_err());
    assert!(props.get_bool("no bool").is_err());
    assert_eq!(props.get_bool("my bool").unwrap(), true);
    assert_eq!(props.get_bool("my other bool").unwrap(), false);
}

#[test]
fn properties_properties_get_bool() {
    let mut props = Properties::default();
    props.create("no bool", "my description", Proptype::I32(1)).unwrap();
    props.create("my bool", "my description", Proptype::Bool(true)).unwrap();
    props.create("my other bool", "my description", Proptype::Bool(false)).unwrap();
    assert!(props.get_bool("wrong").is_err());
    assert!(props.get_bool("no bool").is_err());
    assert_eq!(props.get_bool("my bool").unwrap(), true);
    assert_eq!(props.get_bool("my other bool").unwrap(), false);
    assert!(props.inverted().is_err());
}

#[test]
fn is_empty() {
    let mut props = Properties::default();
    assert_eq!(props.is_empty(), true);
    props.create("my prop", "my description", Proptype::I32(1)).unwrap();
    assert_eq!(props.is_empty(), false);
}

#[test]
fn property_new() {
    let prop = Property::new(Proptype::Bool(true), "my description".to_string());
    assert_eq!(prop.description(), "my description");
    assert_eq!(prop.prop(), &Proptype::Bool(true));
}

#[test]
fn property_description() {
    let prop = Property::new(Proptype::Bool(true), "my description".to_string());
    assert_eq!(prop.description(), "my description");
}

#[test]
fn set_different_type() {
    let mut prop = Property::new(Proptype::Bool(true), "".to_string());
    assert!(prop.set_value(Proptype::Bool(false)).is_ok());
    assert!(prop.set_value(Proptype::F64(3.14f64.to_bits())).is_err());
}

#[test]
fn property_set_different_type() {
    let mut prop = Property::new(Proptype::Bool(true), "".to_string());
    assert!(prop.set_value(Proptype::Bool(false)).is_ok());
    assert!(prop.set_value(Proptype::F64(3.14f64.to_bits())).is_err());
}

#[test]
fn set_then_get_and_update() {
    let mut props = Properties::default();
    props.create("a", "", Proptype::I32(1)).unwrap();
    props.create("b", "", Proptype::Bool(false)).unwrap();
    assert!(props.set("a", Proptype::I32(5)).is_ok());
    assert_eq!(props.get("a").unwrap(), &Proptype::I32(5));
    assert!(matches!(props.set("a", Proptype::Bool(true)), Err(OpossumError::Properties(_))));
    assert!(props.set("c", Proptype::I32(5)).is_err());
    let mut other = Properties::default();
    other.create("a", "", Proptype::Bool(true)).unwrap();
    other.create("b", "", Proptype::Bool(true)).unwrap();
    other.create("c", "", Proptype::I32(3)).unwrap();
    props.update(other);
    assert_eq!(props.get("a").unwrap(), &Proptype::I32(5));
    assert_eq!(props.get("b").unwrap(), &Proptype::Bool(true));
    assert!(props.get("c").is_err());
    assert_eq!(props.names(), vec!["a".to_string(), "b".to_string()]);
}

#[test]
fn proptype_from_values() {
    assert!(matches!(Proptype::from(String::new()), Proptype::String(_)));
    assert_eq!(Proptype::from(true), Proptype::Bool(true));
    assert_eq!(Proptype::from(-3i32), Proptype::I32(-3));
    let p: Proptype = "abc".to_owned().into();
    assert_eq!(p, Proptype::String("abc".to_owned()));
}
