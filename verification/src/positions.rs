//! Distributions of points in a plane, from which ray bundles are started: their parameters
//! and the checks made on them.
//!
//! Lengths are `f64` values in meters carried as their bit patterns. The points themselves are
//! computed with floating-point arithmetic outside this crate.
use vstd::prelude::*;
use crate::error::{OpmResult, OpossumError};
use crate::float_bits::{
    bits_is_finite, bits_is_sign_negative, bits_is_zero, is_finite, is_sign_negative, is_zero,
};

verus! {

/// The bit pattern of 5 mm (`0.005` m), the default extent of the distributions.
pub const FIVE_MILLIMETERS: u64 = 0x3f74_7ae1_47ae_147bu64;

/// A length that may span a distribution: not negative (not even `-0.0`) and finite.
pub open spec fn valid_extent(bits: u64) -> bool {
    !is_sign_negative(bits) && is_finite(bits)
}

/// Whether a length is not negative and finite (see [`valid_extent`]).
fn check_extent(bits: u64) -> (b: bool)
    ensures
        b == valid_extent(bits),
{
    !bits_is_sign_negative(bits) && bits_is_finite(bits)
}

/// A rectangular, evenly spaced grid of points.
#[derive(Debug, Clone, Copy, PartialEq, Eq, Structural)]
pub struct Grid {
    nr_of_points_x: usize,
    nr_of_points_y: usize,
    side_length_x: u64,
    side_length_y: u64,
}

impl Grid {
    /// The number of points along x and along y.
    pub closed spec fn spec_nr_of_points(self) -> (usize, usize) {
        (self.nr_of_points_x, self.nr_of_points_y)
    }

    /// The side lengths along x and along y.
    pub closed spec fn spec_side_length(self) -> (u64, u64) {
        (self.side_length_x, self.side_length_y)
    }

    /// Creates a grid with the given side lengths and numbers of points.
    ///
    /// Fails if both side lengths are zero, if a side length is negative or not finite, or if a
    /// number of points is zero.
    pub fn new(side_length: (u64, u64), nr_of_points: (usize, usize)) -> (r: OpmResult<Self>)
        ensures
            r is Ok <==> !(is_zero(side_length.0) && is_zero(side_length.1))
                && valid_extent(side_length.0) && valid_extent(side_length.1)
                && nr_of_points.0 != 0 && nr_of_points.1 != 0,
            r matches Ok(g) ==> g.spec_side_length() == side_length && g.spec_nr_of_points() == nr_of_points,
            r matches Err(e) ==> e is Other,
    {
        if bits_is_zero(side_length.0) && bits_is_zero(side_length.1) {
            return Err(OpossumError::Other("at least one side length must be > zero".to_owned()));
        }
        if !check_extent(side_length.0) {
            return Err(OpossumError::Other("side length x must be >= zero and finite".to_owned()));
        }
        if !check_extent(side_length.1) {
            return Err(OpossumError::Other("side length x must be >= zero and finite".to_owned()));
        }
        if nr_of_points.0 == 0 || nr_of_points.1 == 0 {
            return Err(OpossumError::Other("both components of nr_of_points must be > 0".to_owned()));
        }
        Ok(Grid {
            nr_of_points_x: nr_of_points.0,
            nr_of_points_y: nr_of_points.1,
            side_length_x: side_length.0,
            side_length_y: side_length.1,
        })
    }

    /// The number of points along x and along y.
    pub fn nr_of_points(&self) -> (n: (usize, usize))
        ensures
            n == self.spec_nr_of_points(),
    {
        (self.nr_of_points_x, self.nr_of_points_y)
    }

    /// The side lengths along x and along y.
    pub fn side_length(&self) -> (s: (u64, u64))
        ensures
            s == self.spec_side_length(),
    {
        (self.side_length_x, self.side_length_y)
    }

    /// The side length along x.
    pub fn side_length_x(&self) -> (s: u64)
        ensures
            s == self.spec_side_length().0,
    {
        self.side_length_x
    }

    /// The side length along y.
    pub fn side_length_y(&self) -> (s: u64)
        ensures
            s == self.spec_side_length().1,
    {
        self.side_length_y
    }

    /// Sets the numbers of points along x and along y (unchecked).
    pub fn set_nr_of_points(&mut self, nr_of_points: (usize, usize))
        ensures
            final(self).spec_nr_of_points() == nr_of_points,
            final(self).spec_side_length() == old(self).spec_side_length(),
    {
        self.nr_of_points_x = nr_of_points.0;
        self.nr_of_points_y = nr_of_points.1;
    }

    /// Sets the number of points along x (unchecked).
    pub fn set_nr_of_points_x(&mut self, nr_of_points_x: usize)
        ensures
            final(self).spec_nr_of_points() == (nr_of_points_x, old(self).spec_nr_of_points().1),
            final(self).spec_side_length() == old(self).spec_side_length(),
    {
        self.nr_of_points_x = nr_of_points_x;
    }

    /// Sets the number of points along y (unchecked).
    pub fn set_nr_of_points_y(&mut self, nr_of_points_y: usize)
        ensures
            final(self).spec_nr_of_points() == (old(self).spec_nr_of_points().0, nr_of_points_y),
            final(self).spec_side_length() == old(self).spec_side_length(),
    {
        self.nr_of_points_y = nr_of_points_y;
    }

    /// Sets the side lengths along x and along y (unchecked).
    pub fn set_side_length(&mut self, side_length: (u64, u64))
        ensures
            final(self).spec_side_length() == side_length,
            final(self).spec_nr_of_points() == old(self).spec_nr_of_points(),
    {
        self.side_length_x = side_length.0;
        self.side_length_y = side_length.1;
    }

    /// Sets the side length along x (unchecked).
    pub fn set_side_length_x(&mut self, side_length_x: u64)
        ensures
            final(self).spec_side_length() == (side_length_x, old(self).spec_side_length().1),
            final(self).spec_nr_of_points() == old(self).spec_nr_of_points(),
    {
        self.side_length_x = side_length_x;
    }

    /// Sets the side length along y (unchecked).
    pub fn set_side_length_y(&mut self, side_length_y: u64)
        ensures
            final(self).spec_side_length() == (old(self).spec_side_length().0, side_length_y),
            final(self).spec_nr_of_points() == old(self).spec_nr_of_points(),
    {
        self.side_length_y = side_length_y;
    }
}

impl Default for Grid {
    /// 100 x 100 points on a square of 5 mm.
    fn default() -> (g: Self)
        ensures
            g.spec_nr_of_points() == (100usize, 100usize),
            g.spec_side_length() == (FIVE_MILLIMETERS, FIVE_MILLIMETERS),
    {
        Grid { nr_of_points_x: 100, nr_of_points_y: 100, side_length_x: FIVE_MILLIMETERS, side_length_y: FIVE_MILLIMETERS }
    }
}

/// Rings of points around a center point: ring `k` (from 1) holds `6 k` evenly spaced points.
#[derive(Debug, Clone, Copy, PartialEq, Eq, Structural)]
pub struct Hexapolar {
    nr_of_rings: u8,
    radius: u64,
}

impl Hexapolar {
    /// The number of rings.
    pub closed spec fn spec_nr_of_rings(self) -> u8 {
        self.nr_of_rings
    }

    /// The radius of the outermost ring.
    pub closed spec fn spec_radius(self) -> u64 {
        self.radius
    }

    /// Creates a hexapolar distribution. Fails if the radius is negative or not finite.
    pub fn new(radius: u64, nr_of_rings: u8) -> (r: OpmResult<Self>)
        ensures
            r is Ok <==> valid_extent(radius),
            r matches Ok(h) ==> h.spec_radius() == radius && h.spec_nr_of_rings() == nr_of_rings,
            r matches Err(e) ==> e is Other,
    {
        if !check_extent(radius) {
            return Err(OpossumError::Other("radius must be positive and finite".to_owned()));
        }
        Ok(Hexapolar { nr_of_rings, radius })
    }

    /// The radius of the outermost ring.
    pub fn radius(&self) -> (r: u64)
        ensures
            r == self.spec_radius(),
    {
        self.radius
    }

    /// The number of rings.
    pub fn nr_of_rings(&self) -> (n: u8)
        ensures
            n == self.spec_nr_of_rings(),
    {
        self.nr_of_rings
    }

    /// Sets the radius (unchecked).
    pub fn set_radius(&mut self, radius: u64)
        ensures
            final(self).spec_radius() == radius,
            final(self).spec_nr_of_rings() == old(self).spec_nr_of_rings(),
    {
        self.radius = radius;
    }

    /// Sets the number of rings.
    pub fn set_nr_of_rings(&mut self, nr_of_rings: u8)
        ensures
            final(self).spec_nr_of_rings() == nr_of_rings,
            final(self).spec_radius() == old(self).spec_radius(),
    {
        self.nr_of_rings = nr_of_rings;
    }
}

impl Default for Hexapolar {
    /// 7 rings within a radius of 5 mm.
    fn default() -> (h: Self)
        ensures
            h.spec_nr_of_rings() == 7,
            h.spec_radius() == FIVE_MILLIMETERS,
    {
        Hexapolar { nr_of_rings: 7, radius: FIVE_MILLIMETERS }
    }
}

/// Whether two extents and a number of points span a Fibonacci distribution: both extents not
/// negative and finite, not both zero, and at least one point.
pub open spec fn fibonacci_valid(a: u64, b: u64, n: usize) -> bool {
    valid_extent(a) && valid_extent(b) && n != 0 && !(is_zero(a) && is_zero(b))
}

/// Whether two extents and a number of points span a Fibonacci distribution (see
/// [`fibonacci_valid`]).
fn check_fibonacci(a: u64, b: u64, n: usize) -> (r: bool)
    ensures
        r == fibonacci_valid(a, b, n),
{
    check_extent(a) && check_extent(b) && n != 0 && !(bits_is_zero(a) && bits_is_zero(b))
}

/// Points on a rectangle, placed along a Fibonacci lattice.
#[derive(Debug, Clone, Copy, PartialEq, Eq, Structural)]
pub struct FibonacciRectangle {
    nr_of_rays: usize,
    side_length_x: u64,
    side_length_y: u64,
}

impl FibonacciRectangle {
    /// The number of points.
    pub closed spec fn spec_nr_of_points(self) -> usize {
        self.nr_of_rays
    }

    /// The side lengths along x and along y.
    pub closed spec fn spec_side_lengths(self) -> (u64, u64) {
        (self.side_length_x, self.side_length_y)
    }

    /// Creates a Fibonacci rectangle. Fails unless [`fibonacci_valid`] holds.
    pub fn new(side_length_x: u64, side_length_y: u64, nr_of_rays: usize) -> (r: OpmResult<Self>)
        ensures
            r is Ok <==> fibonacci_valid(side_length_x, side_length_y, nr_of_rays),
            r matches Ok(f) ==> f.spec_nr_of_points() == nr_of_rays
                && f.spec_side_lengths() == (side_length_x, side_length_y),
            r matches Err(e) ==> e is Other,
    {
        if !check_fibonacci(side_length_x, side_length_y, nr_of_rays) {
            return Err(OpossumError::Other(
                "side length must be positive and finite and the number of rays greater than zero!".to_owned()));
        }
        Ok(FibonacciRectangle { nr_of_rays, side_length_x, side_length_y })
    }

    /// The number of points.
    pub fn nr_of_points(&self) -> (n: usize)
        ensures
            n == self.spec_nr_of_points(),
    {
        self.nr_of_rays
    }

    /// The side length along x.
    pub fn side_length_x(&self) -> (s: u64)
        ensures
            s == self.spec_side_lengths().0,
    {
        self.side_length_x
    }

    /// The side length along y.
    pub fn side_length_y(&self) -> (s: u64)
        ensures
            s == self.spec_side_lengths().1,
    {
        self.side_length_y
    }

    /// Sets the number of points (unchecked).
    pub fn set_nr_of_points(&mut self, nr_of_points: usize)
        ensures
            final(self).spec_nr_of_points() == nr_of_points,
            final(self).spec_side_lengths() == old(self).spec_side_lengths(),
    {
        self.nr_of_rays = nr_of_points;
    }

    /// Sets the side length along x (unchecked).
    pub fn set_side_length_x(&mut self, side_length_x: u64)
        ensures
            final(self).spec_side_lengths() == (side_length_x, old(self).spec_side_lengths().1),
            final(self).spec_nr_of_points() == old(self).spec_nr_of_points(),
    {
        self.side_length_x = side_length_x;
    }

    /// Sets the side length along y (unchecked).
    pub fn set_side_length_y(&mut self, side_length_y: u64)
        ensures
            final(self).spec_side_lengths() == (old(self).spec_side_lengths().0, side_length_y),
            final(self).spec_nr_of_points() == old(self).spec_nr_of_points(),
    {
        self.side_length_y = side_length_y;
    }
}

impl Default for FibonacciRectangle {
    /// 1000 points on a square of 5 mm.
    fn default() -> (f: Self)
        ensures
            f.spec_nr_of_points() == 1000,
            f.spec_side_lengths() == (FIVE_MILLIMETERS, FIVE_MILLIMETERS),
    {
        FibonacciRectangle { nr_of_rays: 1000, side_length_x: FIVE_MILLIMETERS, side_length_y: FIVE_MILLIMETERS }
    }
}

/// Points on an ellipse, placed along a Fibonacci spiral.
#[derive(Debug, Clone, Copy, PartialEq, Eq, Structural)]
pub struct FibonacciEllipse {
    nr_of_rays: usize,
    radius_x: u64,
    radius_y: u64,
}

impl FibonacciEllipse {
    /// The number of points.
    pub closed spec fn spec_nr_of_points(self) -> usize {
        self.nr_of_rays
    }

    /// The radii along x and along y.
    pub closed spec fn spec_radii(self) -> (u64, u64) {
        (self.radius_x, self.radius_y)
    }

    /// Creates a Fibonacci ellipse. Fails unless [`fibonacci_valid`] holds.
    pub fn new(radius_x: u64, radius_y: u64, nr_of_rays: usize) -> (r: OpmResult<Self>)
        ensures
            r is Ok <==> fibonacci_valid(radius_x, radius_y, nr_of_rays),
            r matches Ok(f) ==> f.spec_nr_of_points() == nr_of_rays && f.spec_radii() == (radius_x, radius_y),
            r matches Err(e) ==> e is Other,
    {
        if !check_fibonacci(radius_x, radius_y, nr_of_rays) {
            return Err(OpossumError::Other(
                "radius must be positive and finite and the number of rays greater than zero!".to_owned()));
        }
        Ok(FibonacciEllipse { nr_of_rays, radius_x, radius_y })
    }

    /// The number of points.
    pub fn nr_of_points(&self) -> (n: usize)
        ensures
            n == self.spec_nr_of_points(),
    {
        self.nr_of_rays
    }

    /// The radius along x.
    pub fn radius_x(&self) -> (r: u64)
        ensures
            r == self.spec_radii().0,
    {
        self.radius_x
    }

    /// The radius along y.
    pub fn radius_y(&self) -> (r: u64)
        ensures
            r == self.spec_radii().1,
    {
        self.radius_y
    }

    /// Sets the number of points (unchecked).
    pub fn set_nr_of_points(&mut self, nr_of_points: usize)
        ensures
            final(self).spec_nr_of_points() == nr_of_points,
            final(self).spec_radii() == old(self).spec_radii(),
    {
        self.nr_of_rays = nr_of_points;
    }

    /// Sets the radius along x (unchecked).
    pub fn set_radius_x(&mut self, radius_x: u64)
        ensures
            final(self).spec_radii() == (radius_x, old(self).spec_radii().1),
            final(self).spec_nr_of_points() == old(self).spec_nr_of_points(),
    {
        self.radius_x = radius_x;
    }

    /// Sets the radius along y (unchecked).
    pub fn set_radius_y(&mut self, radius_y: u64)
        ensures
            final(self).spec_radii() == (old(self).spec_radii().0, radius_y),
            final(self).spec_nr_of_points() == old(self).spec_nr_of_points(),
    {
        self.radius_y = radius_y;
    }
}

impl Default for FibonacciEllipse {
    /// 1000 points on a circle of radius 5 mm.
    fn default() -> (f: Self)
        ensures
            f.spec_nr_of_points() == 1000,
            f.spec_radii() == (FIVE_MILLIMETERS, FIVE_MILLIMETERS),
    {
        FibonacciEllipse { nr_of_rays: 1000, radius_x: FIVE_MILLIMETERS, radius_y: FIVE_MILLIMETERS }
    }
}

/// Whether two side lengths and a number of points span a rectangle of random or quasi-random
/// (Sobol) points: not both zero, each not negative and finite, and at least one point.
pub open spec fn rectangle_valid(a: u64, b: u64, n: usize) -> bool {
    !(is_zero(a) && is_zero(b)) && valid_extent(a) && valid_extent(b) && n != 0
}

/// Points on a rectangle, placed along a low-discrepancy quasi-random (Sobol) sequence.
#[derive(Debug, Clone, Copy, PartialEq, Eq, Structural)]
pub struct SobolDist {
    nr_of_points: usize,
    side_length_x: u64,
    side_length_y: u64,
}

impl SobolDist {
    /// The number of points.
    pub closed spec fn spec_nr_of_points(self) -> usize {
        self.nr_of_points
    }

    /// The side lengths along x and along y.
    pub closed spec fn spec_side_lengths(self) -> (u64, u64) {
        (self.side_length_x, self.side_length_y)
    }

    /// Creates a Sobol distribution. Fails unless [`rectangle_valid`] holds.
    pub fn new(side_length_x: u64, side_length_y: u64, nr_of_points: usize) -> (r: OpmResult<Self>)
        ensures
            r is Ok <==> rectangle_valid(side_length_x, side_length_y, nr_of_points),
            r matches Ok(s) ==> s.spec_nr_of_points() == nr_of_points
                && s.spec_side_lengths() == (side_length_x, side_length_y),
            r matches Err(e) ==> e is Other,
    {
        if bits_is_zero(side_length_x) && bits_is_zero(side_length_y) {
            return Err(OpossumError::Other("At least one side length must be != zero".to_owned()));
        }
        if !check_extent(side_length_x) {
            return Err(OpossumError::Other("side_length_x must be >= zero and finite".to_owned()));
        }
        if !check_extent(side_length_y) {
            return Err(OpossumError::Other("side_length_y must be >= zero and finite".to_owned()));
        }
        if nr_of_points == 0 {
            return Err(OpossumError::Other("nr_of_points must be >= 1.".to_owned()));
        }
        Ok(SobolDist { nr_of_points, side_length_x, side_length_y })
    }
}

/// Points on a rectangle, placed uniformly at random.
#[derive(Debug, Clone, Copy, PartialEq, Eq, Structural)]
pub struct Random {
    nr_of_points: usize,
    side_length_x: u64,
    side_length_y: u64,
}

impl Random {
    /// The number of points.
    pub closed spec fn spec_nr_of_points(self) -> usize {
        self.nr_of_points
    }

    /// The side lengths along x and along y.
    pub closed spec fn spec_side_lengths(self) -> (u64, u64) {
        (self.side_length_x, self.side_length_y)
    }

    /// Creates a random distribution. Fails unless [`rectangle_valid`] holds: if both side
    /// lengths are zero, if a side length is negative or not finite, or if the number of points
    /// is zero.
    pub fn new(side_length_x: u64, side_length_y: u64, nr_of_points: usize) -> (r: OpmResult<Self>)
        ensures
            r is Ok <==> rectangle_valid(side_length_x, side_length_y, nr_of_points),
            r matches Ok(s) ==> s.spec_nr_of_points() == nr_of_points
                && s.spec_side_lengths() == (side_length_x, side_length_y),
            r matches Err(e) ==> e is Other,
    {
        if bits_is_zero(side_length_x) && bits_is_zero(side_length_y) {
            return Err(OpossumError::Other("At least one side length must be != zero".to_owned()));
        }
        if !check_extent(side_length_x) {
            return Err(OpossumError::Other("side_length_x must be >= zero and finite".to_owned()));
        }
        if !check_extent(side_length_y) {
            return Err(OpossumError::Other("side_length_y must be >= zero and finite".to_owned()));
        }
        if nr_of_points == 0 {
            return Err(OpossumError::Other("nr_of_points must be >= 1.".to_owned()));
        }
        Ok(Random { nr_of_points, side_length_x, side_length_y })
    }

    /// The number of points.
    pub fn nr_of_points(&self) -> (n: usize)
        ensures
            n == self.spec_nr_of_points(),
    {
        self.nr_of_points
    }

    /// The side length along x.
    pub fn side_length_x(&self) -> (s: u64)
        ensures
            s == self.spec_side_lengths().0,
    {
        self.side_length_x
    }

    /// The side length along y.
    pub fn side_length_y(&self) -> (s: u64)
        ensures
            s == self.spec_side_lengths().1,
    {
        self.side_length_y
    }

    /// Sets the number of points (unchecked).
    pub fn set_nr_of_points(&mut self, nr_of_points: usize)
        ensures
            final(self).spec_nr_of_points() == nr_of_points,
            final(self).spec_side_lengths() == old(self).spec_side_lengths(),
    {
        self.nr_of_points = nr_of_points;
    }

    /// Sets the side length along x (unchecked).
    pub fn set_side_length_x(&mut self, side_length_x: u64)
        ensures
            final(self).spec_side_lengths() == (side_length_x, old(self).spec_side_lengths().1),
            final(self).spec_nr_of_points() == old(self).spec_nr_of_points(),
    {
        self.side_length_x = side_length_x;
    }

    /// Sets the side length along y (unchecked).
    pub fn set_side_length_y(&mut self, side_length_y: u64)
        ensures
            final(self).spec_side_lengths() == (old(self).spec_side_lengths().0, side_length_y),
            final(self).spec_nr_of_points() == old(self).spec_nr_of_points(),
    {
        self.side_length_y = side_length_y;
    }
}

impl Default for Random {
    /// 1000 points on a square of 5 mm.
    fn default() -> (r: Self)
        ensures
            r.spec_nr_of_points() == 1000,
            r.spec_side_lengths() == (FIVE_MILLIMETERS, FIVE_MILLIMETERS),
    {
        Random { nr_of_points: 1000, side_length_x: FIVE_MILLIMETERS, side_length_y: FIVE_MILLIMETERS }
    }
}

/// Hexagons of points around a center, out to a radius.
#[derive(Debug, Clone, Copy, PartialEq, Eq, Structural)]
pub struct HexagonalTiling {
    nr_of_hex_along_radius: u8,
    radius: u64,
    center_x: u64,
    center_y: u64,
}

impl HexagonalTiling {
    /// The number of hexagons along the radius.
    pub closed spec fn spec_nr_of_hex_along_radius(self) -> u8 {
        self.nr_of_hex_along_radius
    }

    /// The radius.
    pub closed spec fn spec_radius(self) -> u64 {
        self.radius
    }

    /// The center (x and y).
    pub closed spec fn spec_center(self) -> (u64, u64) {
        (self.center_x, self.center_y)
    }

    /// Creates a hexagonal tiling. Fails if the radius is negative or not finite, or if a
    /// coordinate of the center is not finite.
    pub fn new(radius: u64, nr_of_hex_along_radius: u8, center: (u64, u64)) -> (r: OpmResult<Self>)
        ensures
            r is Ok <==> valid_extent(radius) && is_finite(center.0) && is_finite(center.1),
            r matches Ok(h) ==> h.spec_radius() == radius && h.spec_center() == center
                && h.spec_nr_of_hex_along_radius() == nr_of_hex_along_radius,
            r matches Err(e) ==> e is Other,
    {
        if !check_extent(radius) {
            return Err(OpossumError::Other("radius must be positive and finite".to_owned()));
        }
        if !bits_is_finite(center.0) || !bits_is_finite(center.1) {
            return Err(OpossumError::Other("center coordinates must be finite".to_owned()));
        }
        Ok(HexagonalTiling { nr_of_hex_along_radius, radius, center_x: center.0, center_y: center.1 })
    }

    /// The number of hexagons along the radius.
    pub fn nr_of_hex_along_radius(&self) -> (n: u8)
        ensures
            n == self.spec_nr_of_hex_along_radius(),
    {
        self.nr_of_hex_along_radius
    }

    /// The radius.
    pub fn radius(&self) -> (r: u64)
        ensures
            r == self.spec_radius(),
    {
        self.radius
    }

    /// The center (x and y).
    pub fn center(&self) -> (c: (u64, u64))
        ensures
            c == self.spec_center(),
    {
        (self.center_x, self.center_y)
    }
}

impl Default for HexagonalTiling {
    /// 7 hexagons along a radius of 5 mm, centered at the origin.
    fn default() -> (h: Self)
        ensures
            h.spec_nr_of_hex_along_radius() == 7,
            h.spec_radius() == FIVE_MILLIMETERS,
            h.spec_center() == (0u64, 0u64),
    {
        HexagonalTiling { nr_of_hex_along_radius: 7, radius: FIVE_MILLIMETERS, center_x: 0, center_y: 0 }
    }
}

/// The kinds of point distributions.
#[derive(Debug, Clone, Copy, PartialEq, Eq, Structural)]
pub enum PosDistType {
    /// A rectangular grid.
    Grid(Grid),
    /// A hexagonal tiling.
    HexagonalTiling(HexagonalTiling),
    /// Hexapolar rings.
    Hexapolar(Hexapolar),
    /// A Fibonacci rectangle.
    FibonacciRectangle(FibonacciRectangle),
    /// A Fibonacci ellipse.
    FibonacciEllipse(FibonacciEllipse),
    /// A quasi-random (Sobol) rectangle.
    Sobol(SobolDist),
}

} // verus!
