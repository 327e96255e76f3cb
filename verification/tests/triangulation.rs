use opossum::triangulation::{check_triangulated_surface, filter_triangles};

#[test]
fn triangulated_surface_checks() {
    let tris = vec![(0, 1, 2), (1, 2, 3)];
    assert!(check_triangulated_surface(0, None, None).is_err());
    assert!(check_triangulated_surface(3, None, None).is_ok());
    assert!(check_triangulated_surface(4, Some(&tris), None).is_ok());
    assert!(check_triangulated_surface(3, Some(&tris), None).is_err());
    assert!(check_triangulated_surface(4, Some(&tris), Some(2)).is_ok());
    assert!(check_triangulated_surface(4, Some(&tris), Some(1)).is_err());
    assert!(check_triangulated_surface(4, None, Some(7)).is_ok());
}

#[test]
fn triangles_outside_the_points_are_dropped() {
    let flat = vec![0, 1, 2, 1, 2, 5, 2, 3, 0];
    assert_eq!(filter_triangles(&flat, 4), vec![(0, 1, 2), (2, 3, 0)]);
    assert_eq!(filter_triangles(&vec![], 4), vec![]);
}
