use opossum::positions::{
    FibonacciEllipse, FibonacciRectangle, Grid, HexagonalTiling, Hexapolar, Random, SobolDist,
    FIVE_MILLIMETERS,
};

fn mm(v: f64) -> u64 {
    (v / 1000.0).to_bits()
}

const ZERO: u64 = 0;

#[test]
fn grid_new_wrong() {
    assert!(Grid::new((ZERO, ZERO), (1, 1)).is_err());
    assert!(Grid::new((ZERO, mm(1.0)), (1, 1)).is_ok());
    assert!(Grid::new((mm(1.0), ZERO), (1, 1)).is_ok());
    assert!(Grid::new((mm(-0.1), mm(1.0)), (1, 1)).is_err());
    assert!(Grid::new((mm(f64::NAN), mm(1.0)), (1, 1)).is_err());
    assert!(Grid::new((mm(f64::INFINITY), mm(1.0)), (1, 1)).is_err());

    assert!(Grid::new((mm(1.0), mm(-0.1)), (1, 1)).is_err());
    assert!(Grid::new((mm(1.0), mm(f64::NAN)), (1, 1)).is_err());
    assert!(Grid::new((mm(1.0), mm(f64::INFINITY)), (1, 1)).is_err());
    assert!(Grid::new((mm(1.0), mm(1.0)), (0, 1)).is_err());
    assert!(Grid::new((mm(1.0), mm(1.0)), (1, 0)).is_err());
}

#[test]
fn hexapolar_new_wrong() {
    assert!(Hexapolar::new(mm(-0.1), 1).is_err());
    assert!(Hexapolar::new(mm(f64::NAN), 1).is_err());
    assert!(Hexapolar::new(mm(f64::INFINITY), 1).is_err());
}

#[test]
fn new_rect_wrong() {
    assert!(FibonacciRectangle::new(mm(-0.1), mm(0.1), 1).is_err());
    assert!(FibonacciRectangle::new(mm(0.1), mm(-0.1), 1).is_err());
    assert!(FibonacciRectangle::new(mm(f64::NAN), mm(0.1), 1).is_err());
    assert!(FibonacciRectangle::new(mm(f64::INFINITY), mm(0.1), 1).is_err());
    assert!(FibonacciRectangle::new(mm(f64::NEG_INFINITY), mm(0.1), 1).is_err());
    assert!(FibonacciRectangle::new(mm(0.1), mm(f64::NAN), 1).is_err());
    assert!(FibonacciRectangle::new(mm(0.1), mm(f64::INFINITY), 1).is_err());
    assert!(FibonacciRectangle::new(mm(0.1), mm(f64::NEG_INFINITY), 1).is_err());
    assert!(FibonacciRectangle::new(mm(0.0), mm(0.0), 1).is_err());
    assert!(FibonacciRectangle::new(ZERO, mm(1.0), 0).is_err());
}

#[test]
fn new_ellipse_wrong() {
    assert!(FibonacciEllipse::new(mm(-0.1), mm(0.1), 1).is_err());
    assert!(FibonacciEllipse::new(mm(0.1), mm(-0.1), 1).is_err());
    assert!(FibonacciEllipse::new(mm(f64::NAN), mm(0.1), 1).is_err());
    assert!(FibonacciEllipse::new(mm(f64::INFINITY), mm(0.1), 1).is_err());
    assert!(FibonacciEllipse::new(mm(f64::NEG_INFINITY), mm(0.1), 1).is_err());
    assert!(FibonacciEllipse::new(mm(0.1), mm(f64::NAN), 1).is_err());
    assert!(FibonacciEllipse::new(mm(0.1), mm(f64::INFINITY), 1).is_err());
    assert!(FibonacciEllipse::new(mm(0.1), mm(f64::NEG_INFINITY), 1).is_err());
    assert!(FibonacciEllipse::new(mm(0.), mm(0.0), 1).is_err());
    assert!(FibonacciEllipse::new(mm(0.1), mm(0.0), 0).is_err());
}

#[test]
fn generate_one_rect() {
    assert!(FibonacciRectangle::new(ZERO, ZERO, 1).is_err());
}

#[test]
fn generate_one_ellipse() {
    assert!(FibonacciEllipse::new(ZERO, ZERO, 1).is_err());
}

#[test]
fn random_new_wrong() {
    assert!(Random::new(ZERO, ZERO, 1).is_err());
    assert!(Random::new(mm(-0.1), mm(1.0), 1).is_err());
    assert!(Random::new(mm(f64::NAN), mm(1.0), 1).is_err());
    assert!(Random::new(mm(f64::INFINITY), mm(1.0), 1).is_err());

    assert!(Random::new(mm(1.0), mm(-0.1), 1).is_err());
    assert!(Random::new(mm(1.0), mm(f64::NAN), 1).is_err());
    assert!(Random::new(mm(1.0), mm(f64::INFINITY), 1).is_err());
    assert!(Random::new(mm(1.0), mm(1.0), 0).is_err());
}

#[test]
fn sobol_new_wrong() {
    assert!(SobolDist::new(ZERO, ZERO, 1).is_err());
    assert!(SobolDist::new(mm(-0.1), mm(1.0), 1).is_err());
    assert!(SobolDist::new(mm(f64::NAN), mm(1.0), 1).is_err());
    assert!(SobolDist::new(mm(f64::INFINITY), mm(1.0), 1).is_err());
    assert!(SobolDist::new(mm(1.0), mm(-0.1), 1).is_err());
    assert!(SobolDist::new(mm(1.0), mm(f64::NAN), 1).is_err());
    assert!(SobolDist::new(mm(1.0), mm(f64::INFINITY), 1).is_err());
    assert!(SobolDist::new(mm(1.0), mm(1.0), 0).is_err());
}

#[test]
fn random_accepts_one_zero_side() {
    assert!(Random::new(ZERO, mm(1.0), 1).is_ok());
    assert!(Random::new(mm(1.0), ZERO, 1).is_ok());
    assert!(Random::new(mm(1.0), mm(2.0), 3).is_ok());
    assert!(Random::new((-0.0f64).to_bits(), mm(1.0), 1).is_err());
}

#[test]
fn hexagonal_tiling_new() {
    assert!(HexagonalTiling::new(mm(1.0), 3, (ZERO, ZERO)).is_ok());
    assert!(HexagonalTiling::new(mm(-1.0), 3, (ZERO, ZERO)).is_err());
    assert!(HexagonalTiling::new(mm(1.0), 3, (f64::NAN.to_bits(), ZERO)).is_err());
    assert!(HexagonalTiling::new(mm(1.0), 3, (ZERO, f64::INFINITY.to_bits())).is_err());
    let h = HexagonalTiling::default();
    assert_eq!(h.radius(), FIVE_MILLIMETERS);
    assert_eq!(h.nr_of_hex_along_radius(), 7);
    assert_eq!(h.center(), (0, 0));
}

#[test]
fn distribution_defaults_and_setters() {
    assert_eq!(f64::from_bits(FIVE_MILLIMETERS), 0.005);
    let mut g = Grid::default();
    assert_eq!(g.nr_of_points(), (100, 100));
    assert_eq!(g.side_length(), (FIVE_MILLIMETERS, FIVE_MILLIMETERS));
    g.set_nr_of_points_x(3);
    g.set_side_length_y(mm(2.0));
    assert_eq!(g.nr_of_points(), (3, 100));
    assert_eq!(g.side_length_x(), FIVE_MILLIMETERS);
    assert_eq!(g.side_length_y(), mm(2.0));
    let mut h = Hexapolar::default();
    assert_eq!((h.radius(), h.nr_of_rings()), (FIVE_MILLIMETERS, 7));
    h.set_nr_of_rings(2);
    assert_eq!(h.nr_of_rings(), 2);
    let mut f = FibonacciEllipse::default();
    assert_eq!(f.nr_of_points(), 1000);
    f.set_radius_x(mm(1.0));
    assert_eq!((f.radius_x(), f.radius_y()), (mm(1.0), FIVE_MILLIMETERS));
    let r = FibonacciRectangle::new(mm(1.0), ZERO, 7).unwrap();
    assert_eq!((r.side_length_x(), r.side_length_y(), r.nr_of_points()), (mm(1.0), ZERO, 7));
}
