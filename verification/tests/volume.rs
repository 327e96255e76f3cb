use opossum::volume::{OpticalVolume, SDFOperation};

#[test]
fn volume_new_empty_is_none() {
    let v: Option<OpticalVolume<u32, u64, u8>> = OpticalVolume::new(Vec::new(), None, 1, 0);
    assert!(v.is_none());
}

#[test]
fn volume_new_defaults_to_union() {
    let v = OpticalVolume::new(vec![1u32, 2], None, 7u64, 3u8).unwrap();
    assert_eq!(v.sdf_op(), SDFOperation::Union);
    assert_eq!(v.surf_objs(), &vec![1, 2]);
    assert_eq!(*v.isometry(), 3);
}

#[test]
fn volume_add_surface_and_isometry() {
    let mut v = OpticalVolume::new(vec![1u32], Some(SDFOperation::Subtraction { idx: 0 }), 7u64, 3u8)
        .unwrap();
    v.add_surf_obj(5);
    assert_eq!(v.surf_objs(), &vec![1, 5]);
    assert_eq!(v.sdf_op(), SDFOperation::Subtraction { idx: 0 });
    v.set_isometry(9);
    assert_eq!(*v.isometry(), 9);
    assert_eq!(v.surf_objs(), &vec![1, 5]);
}

#[test]
fn volume_sdf_operands() {
    let v = OpticalVolume::new(vec![10u32, 11, 12], None, 1u64, 0u8).unwrap();
    assert_eq!(v.sdf_operands(), (0, vec![1, 2]));
    let v = OpticalVolume::new(vec![10u32, 11, 12], Some(SDFOperation::Intersection), 1u64, 0u8).unwrap();
    assert_eq!(v.sdf_operands(), (0, vec![1, 2]));
    let v = OpticalVolume::new(vec![10u32, 11, 12], Some(SDFOperation::Subtraction { idx: 1 }), 1u64, 0u8)
        .unwrap();
    assert_eq!(v.sdf_operands(), (1, vec![0, 2]));
    let v = OpticalVolume::new(vec![10u32, 11, 12], Some(SDFOperation::Subtraction { idx: 2 }), 1u64, 0u8)
        .unwrap();
    assert_eq!(v.sdf_operands(), (2, vec![0, 1]));
    let v = OpticalVolume::new(vec![10u32], None, 1u64, 0u8).unwrap();
    assert_eq!(v.sdf_operands(), (0, vec![]));
}

#[test]
fn volume_single_surface_ignores_subtraction_index() {
    let v = OpticalVolume::new(vec![10u32], Some(SDFOperation::Subtraction { idx: 5 }), 1u64, 0u8).unwrap();
    assert_eq!(v.sdf_operands(), (0, vec![]));
}
