use opossum::error::OpossumError;
use opossum::optic_port::{Aperture, CircleConfig, CoatingType};
use opossum::optic_surface::{HitMap, HitPoint, OpticSurface, DEFAULT_LIDT};

fn point(x: f64) -> HitPoint {
    HitPoint { x: x.to_bits(), y: 0, z: 0, energy: 1.0f64.to_bits() }
}

#[test]
fn new_and_setters() {
    let mut s: OpticSurface<&str, u32> = OpticSurface::new("plane", CoatingType::IdealAR, Aperture::NoAperture, DEFAULT_LIDT);
    assert_eq!(s.geo_surface(), &"plane");
    s.set_geo_surface("sphere");
    assert_eq!(s.geo_surface(), &"sphere");
    let circle = Aperture::BinaryCircle(CircleConfig { radius: 1, center: (0, 0) });
    s.set_aperture(circle);
    assert_eq!(s.aperture(), &circle);
    s.set_coating(CoatingType::ConstantR { reflectivity: 0.5f64.to_bits() });
    assert_eq!(s.coating(), &CoatingType::ConstantR { reflectivity: 0.5f64.to_bits() });
    assert_eq!(f64::from_bits(s.lidt()), 10000.0);
}

#[test]
fn ray_caches() {
    let mut s: OpticSurface<(), u32> = OpticSurface::with_geo_surface(());
    s.add_to_forward_rays_cache(1);
    s.add_to_backward_rays_cache(2);
    s.add_to_rays_cache(3, true);
    s.add_to_rays_cache(4, false);
    assert_eq!(s.forward_rays_cache(), &vec![1, 3]);
    assert_eq!(s.backwards_rays_cache(), &vec![2, 4]);
    assert_eq!(s.get_rays_cache(true), &vec![2, 4]);
    s.get_rays_cache_mut(false).push(5);
    assert_eq!(s.get_rays_cache(false), &vec![1, 3, 5]);
    s.set_forward_rays_cache(vec![]);
    s.set_backwards_rays_cache(vec![9]);
    assert!(s.forward_rays_cache().is_empty());
    assert_eq!(s.backwards_rays_cache(), &vec![9]);
}

#[test]
fn lidt_only_takes_positive_normal_values() {
    let mut s: OpticSurface<(), u32> = OpticSurface::with_geo_surface(());
    s.set_lidt((-1.0f64).to_bits());
    assert_eq!(s.lidt(), DEFAULT_LIDT);
    s.set_lidt(0.0f64.to_bits());
    assert_eq!(s.lidt(), DEFAULT_LIDT);
    s.set_lidt(f64::INFINITY.to_bits());
    assert_eq!(s.lidt(), DEFAULT_LIDT);
    s.set_lidt(f64::NAN.to_bits());
    assert_eq!(s.lidt(), DEFAULT_LIDT);
    s.set_lidt(5.0f64.to_bits());
    assert_eq!(f64::from_bits(s.lidt()), 5.0);
}

#[test]
fn hit_map_and_fluence() {
    let mut s: OpticSurface<(), u32> = OpticSurface::with_geo_surface(());
    assert!(s.get_rays_hit_map(0, 7).is_none());
    s.add_to_hit_map(point(1.0), 0, 7);
    s.add_to_hit_map(point(2.0), 1, 7);
    s.add_to_hit_map(point(3.0), 0, 7);
    assert_eq!(s.get_rays_hit_map(0, 7).unwrap(), vec![point(1.0), point(3.0)]);
    assert!(s.evaluate_fluence_of_ray_bundle(8, 0, 4, Ok(Some(1.0f64.to_bits()))).is_ok());
    assert_eq!(s.hit_map().critical_fluence(8), None);
    let failed = Err(OpossumError::Other("no fluence".to_owned()));
    assert!(s.evaluate_fluence_of_ray_bundle(8, 0, 4, failed.clone()).is_ok());
    assert!(s.evaluate_fluence_of_ray_bundle(7, 0, 4, failed).is_err());
    assert!(s.evaluate_fluence_of_ray_bundle(7, 0, 4, Ok(None)).is_ok());
    assert_eq!(s.hit_map().critical_fluence(7), None);
    assert!(s.evaluate_fluence_of_ray_bundle(7, 0, 4, Ok(Some(2.0f64.to_bits()))).is_ok());
    assert_eq!(s.hit_map().critical_fluence(7), Some((2.0f64.to_bits(), 4, 0)));
    s.reset_hit_map();
    assert!(s.get_rays_hit_map(0, 7).is_none());
    assert_eq!(s.hit_map().critical_fluence(7), None);
    let mut m = HitMap::new();
    m.add_critical_fluence(1, 2, 3, 4);
    m.add_critical_fluence(1, 5, 6, 7);
    assert_eq!(m.critical_fluence(1), Some((6, 5, 7)));
}
