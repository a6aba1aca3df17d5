//! Per-feature tessellation outcomes for the streaming pipeline.
//!
//! The pipeline fans one tessellation task out per polygon; the decision
//! what a feature contributes — one fragment per polygon, or a recoverable
//! error that skips the feature without touching its siblings — is made
//! here, as a pure function of the feature's geometry.

use vstd::prelude::*;
use crate::coords::{FpPoint, FpRings, rings_view, rings_in_range, shifted_rings, in_coord_range,
    COORD_LIMIT};
use crate::mesh::Fragment;
use crate::tess::{draw_polygon, fragment_matches, poly_tris};
use crate::tile::GeomKind;

verus! {

/// The geometry of one feature, in true lon/lat micro-degrees, as the
/// closed set of variants the pipeline distinguishes.
pub enum FeatureGeometry {
    Polygon(FpRings),
    MultiPolygon(Vec<FpRings>),
    Unsupported(GeomKind),
}

/// Why a feature yields no fragments. Either way the feature is skipped and
/// its siblings are unaffected; an empty polygon is not an error and yields
/// an empty fragment instead.
#[derive(Clone, Copy, PartialEq, Eq, Structural, Debug)]
pub enum TessError {
    UnsupportedGeometry(GeomKind),
    CoordinateRange,
}

/// Whether every polygon of a list is within the accepted coordinate range.
pub open spec fn all_in_range(ps: Seq<FpRings>) -> bool {
    forall|i: int| 0 <= i < ps.len() ==> rings_in_range(rings_view(ps[i]@))
}

/// Checks at run time that every coordinate of a polygon is within the
/// accepted range.
pub fn rings_in_range_exec(rings: &FpRings) -> (b: bool)
    ensures
        b == rings_in_range(rings_view(rings@)),
{
    let mut i: usize = 0;
    while i < rings.len()
        invariant
            i <= rings@.len(),
            forall|j: int| 0 <= j < i ==> crate::coords::ring_in_range(rings_view(rings@)[j]),
        decreases rings@.len() - i,
    {
        let r = &rings[i];
        let mut j: usize = 0;
        while j < r.len()
            invariant
                i < rings@.len(),
                r@ == rings@[i as int]@,
                j <= r@.len(),
                forall|k: int| 0 <= k < j ==> in_coord_range(r@[k]),
            decreases r@.len() - j,
        {
            let p = r[j];
            if p.0 < -COORD_LIMIT || p.0 > COORD_LIMIT || p.1 < -COORD_LIMIT || p.1 > COORD_LIMIT {
                assert(!in_coord_range(rings_view(rings@)[i as int][j as int]));
                return false;
            }
            j = j + 1;
        }
        assert(crate::coords::ring_in_range(rings_view(rings@)[i as int]));
        i = i + 1;
    }
    true
}

/// Tessellates one feature: one fragment per polygon of the feature, or a
/// recoverable error. An unsupported geometry kind is reported as exactly
/// that; a coordinate outside the accepted range is reported rather than
/// clamped. Success is owed for every in-range polygonal feature.
#[verifier::loop_isolation(false)]
pub fn feature_fragments(geom: &FeatureGeometry, color: u32) -> (r: Result<Vec<Fragment>, TessError>)
    ensures
        (*geom) matches FeatureGeometry::Unsupported(k) ==> r == Err::<Vec<Fragment>, TessError>(
            TessError::UnsupportedGeometry(k),
        ),
        (*geom) matches FeatureGeometry::Polygon(p) ==> {
            if rings_in_range(rings_view(p@)) {
                &&& r.is_ok()
                &&& r.unwrap()@.len() == 1
                &&& fragment_matches(r.unwrap()@[0], poly_tris(shifted_rings(rings_view(p@))),
                    color)
            } else {
                r == Err::<Vec<Fragment>, TessError>(TessError::CoordinateRange)
            }
        },
        (*geom) matches FeatureGeometry::MultiPolygon(ps) ==> {
            if all_in_range(ps@) {
                &&& r.is_ok()
                &&& r.unwrap()@.len() == ps@.len()
                &&& forall|i: int|
                    0 <= i < ps@.len() ==> fragment_matches(r.unwrap()@[i], poly_tris(
                        shifted_rings(rings_view(ps@[i]@)),
                    ), color)
            } else {
                r == Err::<Vec<Fragment>, TessError>(TessError::CoordinateRange)
            }
        },
{
    match geom {
        FeatureGeometry::Unsupported(k) => Err(TessError::UnsupportedGeometry(*k)),
        FeatureGeometry::Polygon(p) => {
            if rings_in_range_exec(p) {
                let frag = draw_polygon(p, color);
                let mut v: Vec<Fragment> = Vec::new();
                v.push(frag);
                Ok(v)
            } else {
                Err(TessError::CoordinateRange)
            }
        },
        FeatureGeometry::MultiPolygon(ps) => {
            let mut i: usize = 0;
            while i < ps.len()
                invariant
                    i <= ps@.len(),
                    forall|j: int| 0 <= j < i ==> rings_in_range(rings_view(ps@[j]@)),
                decreases ps@.len() - i,
            {
                if !rings_in_range_exec(&ps[i]) {
                    assert(!rings_in_range(rings_view(ps@[i as int]@)));
                    return Err(TessError::CoordinateRange);
                }
                i = i + 1;
            }
            let mut v: Vec<Fragment> = Vec::new();
            let mut k: usize = 0;
            while k < ps.len()
                invariant
                    all_in_range(ps@),
                    k <= ps@.len(),
                    v@.len() == k,
                    forall|j: int|
                        0 <= j < k ==> fragment_matches(v@[j], poly_tris(
                            shifted_rings(rings_view(ps@[j]@)),
                        ), color),
                decreases ps@.len() - k,
            {
                let frag = draw_polygon(&ps[k], color);
                v.push(frag);
                k = k + 1;
            }
            Ok(v)
        },
    }
}

} // verus!
