//! Fixed-point geographic coordinates.
//!
//! Longitudes and latitudes are held as integer micro-degrees. Clipping works
//! in a shifted space, `(lon + 180, 90 - lat)`, whose coordinates are
//! non-negative over the whole globe and axis-aligned with the unit-degree
//! clipping grid.

use vstd::prelude::*;

verus! {

/// Number of fixed-point units per degree: coordinates are micro-degrees.
pub const DEGREE_UNITS: i32 = 1_000_000;

/// Shift applied to a longitude, in micro-degrees (180 degrees).
pub const LON_SHIFT: i32 = 180_000_000;

/// Shift applied to a latitude, in micro-degrees (90 degrees).
pub const LAT_SHIFT: i32 = 90_000_000;

/// Width of the shifted domain in whole degrees (0..360).
pub const DOMAIN_WIDTH: i32 = 360;

/// Height of the shifted domain in whole degrees (0..180).
pub const DOMAIN_HEIGHT: i32 = 180;

/// Largest accepted magnitude of an input coordinate, in micro-degrees.
/// It is far beyond the geographic range; it only keeps shifted values
/// inside `i32`.
pub const COORD_LIMIT: i32 = 1_500_000_000;

/// A point in micro-degrees: either `(lon, lat)` or, after shifting,
/// `(lon + 180, 90 - lat)` scaled by `DEGREE_UNITS`.
pub type FpPoint = (i32, i32);

/// A ring of points; a closed ring repeats its first point at the end.
pub type FpRing = Vec<FpPoint>;

/// A polygon as a list of rings: the outer ring first, holes after it.
pub type FpRings = Vec<FpRing>;

/// Whether a point is within the accepted coordinate range.
pub open spec fn in_coord_range(p: FpPoint) -> bool {
    -COORD_LIMIT <= p.0 && p.0 <= COORD_LIMIT && -COORD_LIMIT <= p.1 && p.1 <= COORD_LIMIT
}

/// Whether every point of a ring is within the accepted range.
pub open spec fn ring_in_range(r: Seq<FpPoint>) -> bool {
    forall|i: int| 0 <= i < r.len() ==> in_coord_range(r[i])
}

/// Whether every point of every ring is within the accepted range.
pub open spec fn rings_in_range(rs: Seq<Seq<FpPoint>>) -> bool {
    forall|i: int| 0 <= i < rs.len() ==> ring_in_range(rs[i])
}

/// The mathematical view of a list of rings: a sequence of sequences of points.
pub open spec fn rings_view(rs: Seq<FpRing>) -> Seq<Seq<FpPoint>> {
    rs.map_values(|r: FpRing| r@)
}

/// One point moved into the shifted clipping space.
pub open spec fn shifted_point(p: FpPoint) -> FpPoint
    recommends
        in_coord_range(p),
{
    (((p.0 + LON_SHIFT) as i32), ((LAT_SHIFT - p.1) as i32))
}

/// A ring moved into the shifted clipping space.
pub open spec fn shifted_ring(r: Seq<FpPoint>) -> Seq<FpPoint> {
    r.map_values(|p: FpPoint| shifted_point(p))
}

/// A polygon moved into the shifted clipping space.
pub open spec fn shifted_rings(rs: Seq<Seq<FpPoint>>) -> Seq<Seq<FpPoint>> {
    rs.map_values(|r: Seq<FpPoint>| shifted_ring(r))
}

/// Moves one ring into the shifted clipping space.
pub fn shift_ring(r: &FpRing) -> (s: FpRing)
    requires
        ring_in_range(r@),
    ensures
        s@ == shifted_ring(r@),
{
    let mut s: FpRing = Vec::new();
    let mut i: usize = 0;
    while i < r.len()
        invariant
            ring_in_range(r@),
            i <= r@.len(),
            s@ == shifted_ring(r@).take(i as int),
        decreases r@.len() - i,
    {
        assert(in_coord_range(r@[i as int]));
        let p = r[i];
        s.push((p.0 + LON_SHIFT, LAT_SHIFT - p.1));
        assert(s@ == shifted_ring(r@).take(i + 1int));
        i = i + 1;
    }
    assert(shifted_ring(r@).take(r@.len() as int) == shifted_ring(r@));
    s
}

/// Moves a whole polygon into the shifted clipping space.
pub fn shift_rings(rs: &FpRings) -> (s: FpRings)
    requires
        rings_in_range(rings_view(rs@)),
    ensures
        rings_view(s@) == shifted_rings(rings_view(rs@)),
{
    let mut s: FpRings = Vec::new();
    let mut i: usize = 0;
    while i < rs.len()
        invariant
            rings_in_range(rings_view(rs@)),
            i <= rs@.len(),
            s@.len() == i,
            forall|j: int| 0 <= j < i ==> s@[j]@ == shifted_ring(rs@[j]@),
        decreases rs@.len() - i,
    {
        assert(rings_view(rs@)[i as int] == rs@[i as int]@);
        let r = shift_ring(&rs[i]);
        s.push(r);
        i = i + 1;
    }
    proof {
        assert forall|j: int| 0 <= j < rs@.len() implies rings_view(s@)[j] == shifted_rings(
            rings_view(rs@),
        )[j] by {
            assert(rings_view(s@)[j] == s@[j]@);
            assert(shifted_rings(rings_view(rs@))[j] == shifted_ring(rings_view(rs@)[j]));
            assert(rings_view(rs@)[j] == rs@[j]@);
        }
        assert(rings_view(s@) =~= shifted_rings(rings_view(rs@)));
    }
    s
}

/// Appends the first point of a ring at its end when the ring is not yet
/// closed, so that the first point always equals the last.
pub fn close_ring(r: &mut FpRing)
    ensures
        old(r)@.len() == 0 ==> final(r)@ == old(r)@,
        old(r)@.len() > 0 && old(r)@.first() == old(r)@.last() ==> final(r)@ == old(r)@,
        old(r)@.len() > 0 && old(r)@.first() != old(r)@.last() ==> final(r)@ == old(r)@.push(
            old(r)@.first(),
        ),
        final(r)@.len() > 0 ==> final(r)@.first() == final(r)@.last(),
{
    if r.len() > 0 {
        let first = r[0];
        let last = r[r.len() - 1];
        if !(first.0 == last.0 && first.1 == last.1) {
            r.push(first);
        }
    }
}

} // verus!
