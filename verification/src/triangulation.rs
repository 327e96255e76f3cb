//! The index checks of triangulated surfaces: triangles given by the indices of their three
//! corner points.
use vstd::prelude::*;
use crate::error::{OpmResult, OpossumError};

verus! {

/// The three corner indices of a triangle.
pub type Triangle = (usize, usize, usize);

/// All corners of the triangles are indices below `n`.
pub open spec fn corners_below(triangles: Seq<Triangle>, n: int) -> bool {
    forall|i: int| 0 <= i < triangles.len() ==> (#[trigger] triangles[i]).0 < n && triangles[i].1 < n
        && triangles[i].2 < n
}

/// Whether a triangulated surface can be made from `nr_of_points` points and the optional
/// triangles and optional number of face normals: there are points; where triangles are given,
/// every corner index is below the number of points, and where face normals are given too,
/// there is one normal per triangle.
pub open spec fn surface_valid(nr_of_points: usize, triangles: Option<Seq<Triangle>>, nr_of_normals: Option<usize>) -> bool {
    nr_of_points > 0 && match triangles {
        Some(t) => normals_match(t, nr_of_normals) && corners_below(t, nr_of_points as int),
        None => true,
    }
}

/// Where a number of face normals is given, it is the number of triangles.
pub open spec fn normals_match(triangles: Seq<Triangle>, nr_of_normals: Option<usize>) -> bool {
    match nr_of_normals {
        Some(m) => triangles.len() == m,
        None => true,
    }
}

/// Checks the indices of a triangulated surface (see [`surface_valid`]); face normals are only
/// counted when triangles are given.
///
/// # Errors
///
/// This function returns an error if there are no points, if the numbers of triangles and face
/// normals differ, or if a corner index is not below the number of points.
pub fn check_triangulated_surface(
    nr_of_points: usize,
    triangle_idx: Option<&Vec<Triangle>>,
    nr_of_normals: Option<usize>,
) -> (r: OpmResult<()>)
    ensures
        r is Ok <==> surface_valid(nr_of_points, match triangle_idx {
            Some(t) => Some(t@),
            None => None,
        }, nr_of_normals),
        r matches Err(e) ==> e is Other,
{
    if nr_of_points == 0 {
        return Err(OpossumError::Other(
            "No z-data provided! Cannot create `PlotData::TriangulatedSurface`!".to_owned()));
    }
    match triangle_idx {
        None => Ok(()),
        Some(t) => {
            if let Some(m) = nr_of_normals {
                if t.len() != m {
                    return Err(OpossumError::Other(
                        "Shapes of triangle indices and face normals does not match! Cannot create `PlotData::TriangulatedSurface`!".to_owned()));
                }
            }
            let mut i: usize = 0;
            while i < t.len()
                invariant
                    triangle_idx == Some(t),
                    nr_of_points > 0,
                    normals_match(t@, nr_of_normals),
                    i <= t@.len(),
                    corners_below(t@.take(i as int), nr_of_points as int),
                decreases t@.len() - i,
            {
                let tri = t[i];
                if tri.0 >= nr_of_points || tri.1 >= nr_of_points || tri.2 >= nr_of_points {
                    proof {
                        assert(t@[i as int] == tri);
                        assert(!corners_below(t@, nr_of_points as int));
                    }
                    return Err(OpossumError::Other(
                        "Maximum triangle index is larger than number of points! Cannot create `PlotData::TriangulatedSurface`!".to_owned()));
                }
                proof {
                    assert forall|j: int| 0 <= j < i + 1 implies (#[trigger] t@.take(i + 1)[j]).0 < nr_of_points
                        && t@.take(i + 1)[j].1 < nr_of_points && t@.take(i + 1)[j].2 < nr_of_points by {
                        if j < i {
                            assert(t@.take(i + 1)[j] == t@.take(i as int)[j]);
                        }
                    }
                }
                i = i + 1;
            }
            assert(t@.take(t@.len() as int) =~= t@);
            assert(corners_below(t@, nr_of_points as int));
            assert(normals_match(t@, nr_of_normals));
            Ok(())
        },
    }
}

/// The triangles of a flat list of corner indices, three per triangle.
pub open spec fn triangles_of(flat: Seq<usize>) -> Seq<Triangle> {
    Seq::new(flat.len() / 3, |k: int| (flat[3 * k], flat[3 * k + 1], flat[3 * k + 2]))
}

/// The triangle has all its corners below `n`.
pub open spec fn triangle_below(t: Triangle, n: usize) -> bool {
    t.0 < n && t.1 < n && t.2 < n
}

/// The triangles of a flat list of corner indices (three per triangle, in order) whose corners
/// are all below `nr_of_points`, in order.
pub fn filter_triangles(flat: &Vec<usize>, nr_of_points: usize) -> (r: Vec<Triangle>)
    requires
        flat@.len() % 3 == 0,
    ensures
        r@ == triangles_of(flat@).filter(|t: Triangle| triangle_below(t, nr_of_points)),
{
    let ghost all = triangles_of(flat@);
    let n = flat.len() / 3;
    let mut r: Vec<Triangle> = Vec::new();
    let mut k: usize = 0;
    while k < n
        invariant
            n == all.len(),
            n * 3 == flat@.len(),
            flat@.len() <= usize::MAX,
            k <= n,
            all == triangles_of(flat@),
            r@ == all.take(k as int).filter(|t: Triangle| triangle_below(t, nr_of_points)),
        decreases n - k,
    {
        assert(3 * k + 2 < flat@.len()) by (nonlinear_arith)
            requires
                k < n,
                n * 3 == flat@.len(),
        ;
        let base: usize = 3 * k;
        let tri = (flat[base], flat[base + 1], flat[base + 2]);
        assert(tri == all[k as int]);
        assert(all.take(k + 1).drop_last() =~= all.take(k as int));
        if tri.0 < nr_of_points && tri.1 < nr_of_points && tri.2 < nr_of_points {
            r.push(tri);
        }
        proof {
            reveal_with_fuel(Seq::filter, 1);
            assert(all.take(k + 1).last() == tri);
        }
        k = k + 1;
    }
    assert(all.take(n as int) =~= all);
    r
}

} // verus!
