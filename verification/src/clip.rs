//! Trusted boundary to the `geo` crate.
//!
//! The tessellator needs two geometric operations it does not implement
//! itself: boolean polygon intersection and ear-clipping triangulation. Both
//! are deterministic functions of their argument polygons, far too large to
//! state here, so each result is given a name (`intersection_parts`,
//! `earcut_tris`) and the wrappers promise to return exactly the named
//! value. All coordinates cross this boundary as fixed-point integers.

use vstd::prelude::*;
use crate::coords::{FpPoint, FpRing, FpRings, rings_view};

verus! {

/// One triangle in shifted fixed-point coordinates, corners `a`, `b`, `c`.
#[derive(Clone, Copy, PartialEq, Eq, Structural, Debug)]
pub struct FpTri {
    pub ax: i32,
    pub ay: i32,
    pub bx: i32,
    pub by: i32,
    pub cx: i32,
    pub cy: i32,
}

/// The mathematical view of a list of polygons, each a list of rings.
pub open spec fn parts_view(ps: Seq<FpRings>) -> Seq<Seq<Seq<FpPoint>>> {
    ps.map_values(|p: FpRings| rings_view(p@))
}

/// The boolean intersection of two polygons, as the `geo` crate computes it:
/// a list of disjoint result polygons (rings with holes), rounded back to
/// fixed-point coordinates.
pub uninterp spec fn intersection_parts(poly: Seq<Seq<FpPoint>>, cell: Seq<Seq<FpPoint>>) -> Seq<
    Seq<Seq<FpPoint>>,
>;

/// The ear-clipping triangulation of one polygon, as the `geo` crate
/// computes it, rounded back to fixed-point coordinates.
pub uninterp spec fn earcut_tris(poly: Seq<Seq<FpPoint>>) -> Seq<FpTri>;

/// The length of a ring once closed: rings are handed to `geo` as given,
/// and its polygon constructor appends the first point when the ring is
/// open.
pub open spec fn ring_closed_len(r: Seq<FpPoint>) -> int {
    if r.len() > 0 && r.first() == r.last() {
        r.len() as int
    } else {
        r.len() as int + 1
    }
}

/// Whether a polygon may be handed to the triangulation: at least one ring,
/// and every ring at least a closed triangle. geo's ear-cut entry point
/// asserts exactly this of its rings and underflows on an empty polygon, so
/// the wrapper requires it.
pub open spec fn earcut_ready(p: Seq<Seq<FpPoint>>) -> bool {
    &&& p.len() > 0
    &&& forall|i: int| 0 <= i < p.len() ==> ring_closed_len(p[i]) >= 4
}

/// Carries geo's polygon value opaquely between the conversion steps and
/// the geometric calls; nothing about its contents is stated here.
#[verifier::external_body]
struct GeoPoly {
    inner: geo_types::Polygon,
}

/// Relies on `geo_types::Polygon::new` and `geo_types::LineString`: builds
/// geo's polygon value from fixed-point rings, the first ring as the
/// exterior and the rest as holes.
#[verifier::external_body]
fn geo_polygon(p: &FpRings) -> (g: GeoPoly) {
    let coords = |r: &FpRing| -> Vec<geo_types::Coord> {
        r.iter().map(|q| geo_types::Coord { x: q.0.into(), y: q.1.into() }).collect()
    };
    let outer = if p.len() > 0 { coords(&p[0]) } else { Vec::new() };
    let holes = p.iter().skip(1).map(|r| geo_types::LineString(coords(r))).collect();
    GeoPoly { inner: geo_types::Polygon::new(geo_types::LineString(outer), holes) }
}

/// Relies on `geo_types::Polygon::exterior` and `interiors`: reads a geo
/// polygon back as fixed-point rings, exterior first.
#[verifier::external_body]
fn grid_polygon(g: GeoPoly) -> (p: FpRings) {
    let mut rings: FpRings = Vec::new();
    rings.push(g.inner.exterior().0.iter().map(|c| (c.x as i32, c.y as i32)).collect());
    for r in g.inner.interiors() {
        rings.push(r.0.iter().map(|c| (c.x as i32, c.y as i32)).collect());
    }
    rings
}

/// Relies on `geo::BooleanOps::intersection`: the overlapping region of the
/// two polygons, as zero or more disjoint polygons. The result depends on
/// the two arguments alone; it is exactly the value named by
/// `intersection_parts`.
#[verifier::external_body]
pub fn intersect_polygons(poly: &FpRings, cell: &FpRings) -> (r: Vec<FpRings>)
    ensures
        parts_view(r@) == intersection_parts(rings_view(poly@), rings_view(cell@)),
{
    let a = geo_polygon(poly);
    let b = geo_polygon(cell);
    geo::BooleanOps::intersection(&a.inner, &b.inner)
        .0
        .into_iter()
        .map(|p| grid_polygon(GeoPoly { inner: p }))
        .collect()
}

/// Relies on `geo::TriangulateEarcut::earcut_triangles`: the ear-clipping
/// triangulation of the polygon. The result depends on the argument alone;
/// it is exactly the value named by `earcut_tris`. The precondition keeps
/// out the polygons on which geo's entry point panics: one with no
/// coordinates underflows its capacity count, and in debug builds it
/// asserts at least four coordinates per closed ring.
#[verifier::external_body]
pub fn earcut_polygon(poly: &FpRings) -> (r: Vec<FpTri>)
    requires
        earcut_ready(rings_view(poly@)),
    ensures
        r@ == earcut_tris(rings_view(poly@)),
{
    let g = geo_polygon(poly);
    geo::TriangulateEarcut::earcut_triangles(&g.inner)
        .iter()
        .map(
            |t| FpTri {
                ax: t.v1().x as i32,
                ay: t.v1().y as i32,
                bx: t.v2().x as i32,
                by: t.v2().y as i32,
                cx: t.v3().x as i32,
                cy: t.v3().y as i32,
            },
        )
        .collect()
}

} // verus!
