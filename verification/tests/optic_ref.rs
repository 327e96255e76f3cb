use opossum::node_attr::NodeAttr;
use opossum::optic_ref::OpticRef;
use opossum::scenery::SceneryResources;

#[test]
fn optic_ref_new() {
    let uuid = uuid::Uuid::new_v4().as_u128();
    let mut dummy = NodeAttr::new("dummy", false);
    dummy.set_uuid(uuid);
    let optic_ref = OpticRef::new(dummy, None);
    assert_eq!(optic_ref.uuid(), uuid);
}

#[test]
fn debug() {
    assert_eq!(
        OpticRef::new(NodeAttr::new("dummy", false), None).debug_text(),
        "OpticRef { optical_ref: RefCell { value: 'dummy' (dummy) } }"
    );
}

#[test]
fn optic_ref_update_global_config() {
    let mut optic_ref = OpticRef::new(NodeAttr::new("dummy", false), None);
    assert_eq!(optic_ref.global_conf(), None);
    let conf = SceneryResources { ambient_refr_index: 1.5f64.to_bits() };
    optic_ref.update_global_config(Some(conf));
    assert_eq!(optic_ref.global_conf(), Some(conf));
    assert_eq!(optic_ref.optical_ref().node_type(), "dummy");
}
