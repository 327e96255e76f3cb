use opossum::document::OpmDocument;
use opossum::error::OpossumError;
use opossum::scenery::{OpticScenery, SceneryResources};

#[test]
fn analyzers_add_get_remove() {
    let mut doc: OpmDocument<OpticScenery, &str> = OpmDocument::new(OpticScenery::new(), "0.1.0");
    assert!(doc.analyzers().is_empty());
    let id = doc.add_analyzer("energy");
    assert_eq!(doc.analyzers().len(), 1);
    assert_eq!(doc.analyzer(id).unwrap(), &"energy");
    assert!(matches!(doc.analyzer(id.wrapping_add(1)), Err(OpossumError::OpmDocument(_))));
    assert!(doc.remove_analyzer(id).is_ok());
    assert!(doc.remove_analyzer(id).is_err());
    assert!(doc.analyzers().is_empty());
}

#[test]
fn version_and_resources() {
    let mut doc: OpmDocument<OpticScenery, u8> = OpmDocument::new(OpticScenery::new(), "0.1.0");
    assert!(doc.has_version("0.1.0"));
    assert!(!doc.has_version("0.2.0"));
    assert_eq!(doc.opm_file_version(), "0.1.0");
    doc.set_global_conf(SceneryResources { ambient_refr_index: 2.0f64.to_bits() });
    assert_eq!(doc.global_conf().ambient_refr_index, 2.0f64.to_bits());
    assert_eq!(doc.scenery().description(), "");
}

#[test]
fn opm_document_new() {
    let mut scenery = OpticScenery::new();
    scenery.set_description("MyTest").unwrap();
    let document: OpmDocument<OpticScenery, String> = OpmDocument::new(scenery, "0.1.0");
    assert_eq!(document.scenery().description(), "MyTest");
    assert!(document.analyzers().is_empty());
}

#[test]
fn opm_document_default() {
    let document: OpmDocument<OpticScenery, String> = OpmDocument::new(OpticScenery::default(), "0.1.0");
    assert_eq!(document.opm_file_version(), "0.1.0");
    assert!(document.analyzers().is_empty());
}

#[test]
fn add_analyzer() {
    let mut document: OpmDocument<OpticScenery, String> = OpmDocument::new(OpticScenery::default(), "0.1.0");
    assert!(document.analyzers().is_empty());
    document.add_analyzer("Energy".to_owned());
    assert_eq!(document.analyzers().len(), 1);
}

#[test]
fn analyzers() {
    let mut document: OpmDocument<OpticScenery, String> = OpmDocument::new(OpticScenery::default(), "0.1.0");
    document.add_analyzer("Energy".to_owned());
    document.add_analyzer("RayTrace".to_owned());
    assert_eq!(document.analyzers().len(), 2);
}

#[test]
fn analyzer() {
    let mut document: OpmDocument<OpticScenery, String> = OpmDocument::new(OpticScenery::default(), "0.1.0");
    let uuid1 = document.add_analyzer("Energy".to_owned());
    let uuid2 = document.add_analyzer("Energy".to_owned());
    assert!(document.analyzer(uuid1).is_ok());
    assert!(document.analyzer(uuid2).is_ok());
    assert!(document.analyzer(0).is_err());
}

#[test]
fn remove_analyzer() {
    let mut document: OpmDocument<OpticScenery, String> = OpmDocument::new(OpticScenery::default(), "0.1.0");
    let uuid1 = document.add_analyzer("Energy".to_owned());
    let uuid2 = document.add_analyzer("Energy".to_owned());
    assert!(document.remove_analyzer(uuid1).is_ok());
    assert_eq!(document.analyzers().len(), 1);
    assert!(document.remove_analyzer(0).is_err());
    assert!(document.remove_analyzer(uuid2).is_ok());
    assert!(document.analyzers().is_empty());
}

#[test]
fn analyzers_keep_the_order_they_were_added_in() {
    let mut document: OpmDocument<OpticScenery, String> = OpmDocument::new(OpticScenery::default(), "0.1.0");
    let ids: Vec<u128> = (0..5).map(|i| document.add_analyzer(format!("a{i}"))).collect();
    assert_eq!(document.analyzer_ids(), ids);
    document.remove_analyzer(ids[2]).unwrap();
    assert_eq!(document.analyzer_ids(), vec![ids[0], ids[1], ids[3], ids[4]]);
    document.insert_analyzer(7, "b".to_owned());
    document.insert_analyzer(ids[0], "c".to_owned());
    assert_eq!(document.analyzer_ids(), vec![ids[0], ids[1], ids[3], ids[4], 7]);
    assert_eq!(document.analyzer(ids[0]).unwrap(), "c");
}
