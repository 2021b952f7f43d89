//! Geometries, bounding rectangles and points. They are values of the `geo`
//! crate that the library carries around without looking inside; every
//! question about them is put to `geo`.

use vstd::prelude::*;

verus! {

/// A geometry of the `geo` crate. Its coordinates are floating-point
/// numbers, which the proofs do not look at: to them the value is opaque.
#[verifier::external_body]
#[derive(Debug)]
pub struct Geometry(pub geo::Geometry);

/// An axis-aligned rectangle of the `geo` crate, opaque to the proofs.
#[verifier::external_body]
#[derive(Debug)]
pub struct Rect(pub geo::Rect);

/// A coordinate pair of the `geo` crate, opaque to the proofs.
#[verifier::external_body]
#[derive(Debug)]
pub struct Point(pub geo::Coord);

/// What `geo` gives as the bounding rectangle of a geometry: the smallest
/// axis-aligned rectangle that encloses it, or nothing for an empty geometry.
pub uninterp spec fn geometry_bounding_rect(geometry: Geometry) -> Option<Rect>;

/// Whether `geo` finds the point inside the rectangle.
pub uninterp spec fn rect_contains(rect: Rect, point: Point) -> bool;

/// Whether `geo` finds the point inside the geometry.
pub uninterp spec fn geometry_contains(geometry: Geometry, point: Point) -> bool;

/// The coordinates of a geometry in the order in which `geo` walks them,
/// each as the bit patterns of its x and its y.
pub uninterp spec fn geometry_coord_bits(geometry: Geometry) -> Seq<(u64, u64)>;

/// The bit pattern is that of a finite number: its eleven exponent bits
/// are not all set, as they are for the infinities and for not-a-number.
pub open spec fn is_finite_bits(bits: u64) -> bool {
    (bits >> 52) & 0x7ff != 0x7ff
}

/// Both numbers of every coordinate pair are finite.
pub open spec fn all_finite(coords: Seq<(u64, u64)>) -> bool {
    forall|i: int|
        0 <= i < coords.len() ==> is_finite_bits((#[trigger] coords[i]).0) && is_finite_bits(
            coords[i].1,
        )
}

/// The most coordinates that a geometry may have for `geo` to look for a
/// point in it: `geo` counts the edges that a ray crosses in 32 bits.
pub const MAX_COORDS: usize = 0x7fff_ffff;

/// `geo` can look for a point in the geometry: every coordinate is finite
/// and there are no more than `MAX_COORDS` of them.
pub open spec fn geometry_is_hit_testable(geometry: Geometry) -> bool {
    geometry_coord_bits(geometry).len() <= MAX_COORDS && all_finite(geometry_coord_bits(geometry))
}

/// What `geo` gives as the bounding rectangle of two rectangles taken
/// together: the rectangle from the smaller of their minima to the larger
/// of their maxima.
pub uninterp spec fn rect_union(first: Rect, second: Rect) -> Option<Rect>;

/// Copies a rectangle. `geo::Rect` is a `Copy` type, so the copy equals the
/// rectangle it was made of; that is not proved.
#[verifier::external_body]
pub(crate) fn copy_of_rect(rect: &Rect) -> (copy: Rect)
    ensures
        copy == *rect,
{
    Rect(rect.0)
}

/// Calls `geo::BoundingRect::bounding_rect` on the collection of the two
/// rectangles. Nothing is proved of the rectangle; the contract only gives
/// the answer its name.
#[verifier::external_body]
pub(crate) fn union_of_rects(first: &Rect, second: &Rect) -> (merged: Option<Rect>)
    ensures
        merged == rect_union(*first, *second),
{
    let both = geo::GeometryCollection::new_from(
        vec![geo::Geometry::Rect(first.0), geo::Geometry::Rect(second.0)],
    );
    geo::BoundingRect::bounding_rect(&both).map(Rect)
}

/// Calls `geo::BoundingRect::bounding_rect` on a geometry. Nothing is proved
/// of the rectangle; the contract only gives the answer its name.
#[verifier::external_body]
pub(crate) fn bounding_rect_of(geometry: &Geometry) -> (rect: Option<Rect>)
    ensures
        rect == geometry_bounding_rect(*geometry),
{
    geo::BoundingRect::bounding_rect(&geometry.0).map(Rect)
}

/// Calls `geo::Contains::contains` on a rectangle and a point. Nothing is
/// proved of the answer; the contract only gives it its name.
#[verifier::external_body]
pub(crate) fn rect_contains_point(rect: &Rect, point: &Point) -> (inside: bool)
    ensures
        inside == rect_contains(*rect, *point),
{
    geo::Contains::contains(&rect.0, &point.0)
}

/// Walks the geometry with `geo::CoordsIter::coords_iter` and hands out the
/// bit patterns of each coordinate, as `to_bits` of std gives them. The
/// contract only gives the walk its name.
#[verifier::external_body]
pub(crate) fn coord_bits_of(geometry: &Geometry) -> (bits: Vec<(u64, u64)>)
    ensures
        bits@ == geometry_coord_bits(*geometry),
{
    geo::CoordsIter::coords_iter(&geometry.0).map(|coord| (coord.x.to_bits(), coord.y.to_bits())).collect()
}

/// Whether `geo` can look for a point in the geometry: whether every
/// coordinate is finite and there are no more than `MAX_COORDS` of them.
pub fn is_hit_testable(geometry: &Geometry) -> (testable: bool)
    ensures
        testable == geometry_is_hit_testable(*geometry),
{
    let bits = coord_bits_of(geometry);
    if bits.len() > MAX_COORDS {
        return false;
    }
    let mut i: usize = 0;
    while i < bits.len()
        invariant
            i <= bits.len(),
            bits@ == geometry_coord_bits(*geometry),
            all_finite(bits@.take(i as int)),
        decreases bits.len() - i,
    {
        let pair = bits[i];
        if (pair.0 >> 52) & 0x7ff == 0x7ff || (pair.1 >> 52) & 0x7ff == 0x7ff {
            assert(!is_finite_bits(bits@[i as int].0) || !is_finite_bits(bits@[i as int].1));
            return false;
        }
        assert forall|k: int| 0 <= k < i + 1 implies is_finite_bits(
            (#[trigger] bits@.take(i + 1)[k]).0,
        ) && is_finite_bits(bits@.take(i + 1)[k].1) by {
            if k < i {
                assert(bits@.take(i + 1)[k] == bits@.take(i as int)[k]);
            }
        }
        i += 1;
    }
    assert(bits@.take(i as int) =~= bits@);
    true
}

/// Calls `geo::Contains::contains` on a geometry and a point. Nothing is
/// proved of the answer; the contract only gives it its name. A ring whose
/// first coordinate is not a number cannot be closed, and `geo` may panic
/// on an open ring, as it may where its 32-bit count of crossed edges
/// overflows: so the call is only made for a geometry with finite
/// coordinates, and not too many of them.
#[verifier::external_body]
pub(crate) fn geometry_contains_point(geometry: &Geometry, point: &Point) -> (inside: bool)
    requires
        geometry_is_hit_testable(*geometry),
    ensures
        inside == geometry_contains(*geometry, *point),
{
    geo::Contains::contains(&geometry.0, &point.0)
}

} // verus!
