//! Vector-tile ingest.
//!
//! A tile at address `(z, x, y)` covers an angular span of `360/2^z` by
//! `180/2^z` degrees; feature coordinates are tile-local integers relative
//! to a per-layer `extent`. Decoding the binary payload is the black-box
//! work of the `mvt_reader` crate behind a trusted boundary; mapping the
//! decoded integer coordinates into global micro-degrees is verified
//! exactly here.

use vstd::prelude::*;
use vstd::arithmetic::power2::{pow2, lemma2_to64, lemma_pow2_unfold, lemma_pow2_strictly_increases};
use vstd::arithmetic::div_mod::{
    lemma_hoist_over_denominator, lemma_multiply_divide_le, lemma_div_pos_is_pos,
};
use crate::coords::{FpPoint, FpRing, FpRings, in_coord_range, close_ring};

verus! {

/// Geometry kinds a decoded feature may carry.
#[derive(Clone, Copy, PartialEq, Eq, Structural, Debug)]
pub enum GeomKind {
    Point,
    Line,
    LineString,
    Polygon,
    MultiPoint,
    MultiLineString,
    MultiPolygon,
    GeometryCollection,
    Rect,
    Triangle,
}

/// Why a tile payload was rejected as a whole.
#[derive(Clone, Copy, PartialEq, Eq, Structural, Debug)]
pub enum DecodeError {
    Malformed,
}

/// What one decoded feature became.
pub enum FeatureOutcome {
    /// One polygon of the feature, rings in global micro-degrees, closed.
    Polygon(FpRings),
    /// The feature's geometry kind is not handled; the feature is skipped.
    Unsupported(GeomKind),
    /// A coordinate fell outside the supported mapping range.
    OutOfRange,
}

/// Largest accepted zoom level.
pub const MAX_ZOOM: u32 = 30;

/// Largest accepted layer extent.
pub const MAX_EXTENT: u32 = 1_048_576;

/// Whether one tile-local coordinate pair is within the supported mapping
/// range: bounded zoom and extent, tile address inside the zoom level's
/// grid, and the coordinate within one extent of the tile square.
pub open spec fn tile_args_ok(z: int, x: int, y: int, extent: int, cx: int, cy: int) -> bool {
    &&& 0 <= z <= MAX_ZOOM
    &&& 1 <= extent <= MAX_EXTENT
    &&& 0 <= x < pow2(z as nat)
    &&& 0 <= y < pow2(z as nat)
    &&& -extent <= cx <= 2 * extent
    &&& -extent <= cy <= 2 * extent
}

/// The global longitude, in micro-degrees, of tile-local `cx`:
/// `180 + x*(360/2^z) + (cx/extent)*(360/2^z)` degrees, rounded down.
pub open spec fn tile_lon_udeg(z: int, x: int, extent: int, cx: int) -> int {
    180_000_000 + ((x * extent + cx) * 360_000_000) / (extent * pow2(z as nat) as int)
}

/// The global latitude, in micro-degrees, of tile-local `cy`:
/// `90 - y*(180/2^z) - (cy/extent)*(180/2^z)` degrees, the offset rounded
/// down.
pub open spec fn tile_lat_udeg(z: int, y: int, extent: int, cy: int) -> int {
    90_000_000 - ((y * extent + cy) * 180_000_000) / (extent * pow2(z as nat) as int)
}

/// Two to the given power.
fn pow2_u64(z: u32) -> (r: u64)
    requires
        z <= MAX_ZOOM,
    ensures
        r as int == pow2(z as nat),
        1 <= r,
{
    let mut i: u32 = 0;
    let mut r: u64 = 1;
    proof {
        lemma2_to64();
    }
    while i < z
        invariant
            i <= z,
            z <= MAX_ZOOM,
            r as int == pow2(i as nat),
        decreases z - i,
    {
        proof {
            lemma_pow2_strictly_increases(i as nat, 31);
            lemma2_to64();
            lemma_pow2_unfold((i + 1) as nat);
        }
        r = r * 2;
        i = i + 1;
    }
    r
}

/// Maps one tile-local coordinate pair to global micro-degrees, exactly by
/// the tile formula; `None` when the arguments are outside the supported
/// range.
pub fn tile_to_global(z: u32, x: u32, y: u32, extent: u32, cx: i64, cy: i64) -> (r: Option<
    FpPoint,
>)
    ensures
        r.is_some() <==> tile_args_ok(z as int, x as int, y as int, extent as int, cx as int,
            cy as int),
        r.is_some() ==> r.unwrap().0 as int == tile_lon_udeg(z as int, x as int, extent as int,
            cx as int),
        r.is_some() ==> r.unwrap().1 as int == tile_lat_udeg(z as int, y as int, extent as int,
            cy as int),
        r.is_some() ==> in_coord_range(r.unwrap()),
{
    if z > MAX_ZOOM || extent == 0 || extent > MAX_EXTENT {
        return None;
    }
    let scale = pow2_u64(z);
    proof {
        lemma_pow2_strictly_increases(z as nat, 31);
        lemma2_to64();
    }
    if (x as u64) >= scale || (y as u64) >= scale {
        return None;
    }
    let e = extent as i64;
    if cx < -e || cx > 2 * e || cy < -e || cy > 2 * e {
        return None;
    }
    let ei: i128 = extent as i128;
    let si: i128 = scale as i128;
    proof {
        assert(1 <= ei * si <= 0x8000000000000i128) by (nonlinear_arith)
            requires
                1 <= ei <= 0x100000,
                1 <= si <= 0x80000000,
        ;
        assert(0 <= (x as i128) * ei <= ei * si - ei && 0 <= (y as i128) * ei <= ei * si - ei)
            by (nonlinear_arith)
            requires
                0 <= (x as i128) <= si - 1,
                0 <= (y as i128) <= si - 1,
                1 <= ei,
                1 <= si,
        ;
    }
    let den: i128 = ei * si;
    let mx: i128 = (x as i128) * ei + (cx as i128) + den;
    let my: i128 = (y as i128) * ei + (cy as i128) + den;
    proof {
        assert(den - ei >= 0);
        assert(-ei <= (cx as i128) <= 2 * ei);
        assert(-ei <= (cy as i128) <= 2 * ei);
        assert(0 <= (x as i128) * ei <= den - ei);
        assert(0 <= (y as i128) * ei <= den - ei);
        assert(0 <= mx <= 3 * den && 0 <= my <= 3 * den);
        assert(0 <= mx * 360_000_000 <= den * 1_080_000_000) by (nonlinear_arith)
            requires
                0 <= mx <= 3 * den,
                1 <= den,
        ;
        assert(0 <= my * 180_000_000 <= den * 540_000_000) by (nonlinear_arith)
            requires
                0 <= my <= 3 * den,
                1 <= den,
        ;
        assert(den * 1_080_000_000 <= 0x400000000000000000000i128 && den * 540_000_000
            <= 0x400000000000000000000i128) by (nonlinear_arith)
            requires
                1 <= den <= 0x8000000000000i128,
        ;
    }
    let numx: i128 = mx * 360_000_000;
    let numy: i128 = my * 180_000_000;
    let qx: i128 = numx / den;
    let qy: i128 = numy / den;
    proof {
        lemma_div_pos_is_pos(numx as int, den as int);
        lemma_div_pos_is_pos(numy as int, den as int);
        lemma_multiply_divide_le(numx as int, den as int, 1_080_000_000);
        lemma_multiply_divide_le(numy as int, den as int, 540_000_000);
        assert(0 <= qx <= 1_080_000_000 && 0 <= qy <= 540_000_000);
    }
    let lon: i64 = 180_000_000i64 + (qx as i64) - 360_000_000i64;
    let lat: i64 = 270_000_000i64 - (qy as i64);
    proof {
        let n0 = ((x as int) * (extent as int) + (cx as int)) * 360_000_000;
        let m0 = ((y as int) * (extent as int) + (cy as int)) * 180_000_000;
        assert(numx as int == n0 + 360_000_000 * (den as int) && numy as int == m0 + 180_000_000
            * (den as int)) by (nonlinear_arith)
            requires
                mx == (x as i128) * ei + (cx as i128) + den,
                my == (y as i128) * ei + (cy as i128) + den,
                numx == mx * 360_000_000,
                numy == my * 180_000_000,
                ei == extent as i128,
                n0 == ((x as int) * (extent as int) + (cx as int)) * 360_000_000,
                m0 == ((y as int) * (extent as int) + (cy as int)) * 180_000_000,
        ;
        lemma_hoist_over_denominator(n0, 360_000_000, den as nat);
        lemma_hoist_over_denominator(m0, 180_000_000, den as nat);
        assert(qx as int == n0 / (den as int) + 360_000_000);
        assert(qy as int == m0 / (den as int) + 180_000_000);
        assert(den as int == (extent as int) * pow2(z as nat) as int) by (nonlinear_arith)
            requires
                den == ei * si,
                ei == extent as i128,
                si as int == pow2(z as nat),
        ;
    }
    Some((lon as i32, lat as i32))
}

/// Carries `mvt_reader`'s decoded tile opaquely.
#[verifier::external_body]
pub struct TileReader {
    inner: mvt_reader::Reader,
}

/// Carries one decoded feature of a layer opaquely, its tile-local integer
/// coordinates included.
#[verifier::external_body]
pub struct TileFeature {
    inner: mvt_reader::feature::Feature<i32>,
}

/// Whether the payload decodes as a vector tile: `mvt_reader`'s protobuf
/// parse is a function of the bytes alone.
pub uninterp spec fn mvt_parses(data: Seq<u8>) -> bool;

/// The payload a reader was decoded from.
pub uninterp spec fn reader_payload(r: TileReader) -> Seq<u8>;

/// Whether every layer of the decoded payload carries a supported version.
pub uninterp spec fn mvt_meta_ok(data: Seq<u8>) -> bool;

/// The coordinate extent of each layer of the decoded payload, in layer
/// order, with the decoder's default substituted where a layer omits it.
pub uninterp spec fn mvt_extents(data: Seq<u8>) -> Seq<u32>;

/// Whether the features of layer `i` of the decoded payload parse with
/// `i32` coordinates.
pub uninterp spec fn mvt_layer_ok(data: Seq<u8>, i: int) -> bool;

/// The geometry kind of each feature of layer `i`, in feature order.
pub uninterp spec fn mvt_kinds(data: Seq<u8>, i: int) -> Seq<GeomKind>;

/// The polygons of each feature of layer `i`, in feature order: per
/// feature, per polygon, the tile-local rings (empty for a feature that is
/// not polygonal).
pub uninterp spec fn mvt_polys(data: Seq<u8>, i: int) -> Seq<Seq<Seq<Seq<(i32, i32)>>>>;

/// The geometry kind one decoded feature carries.
pub uninterp spec fn feature_kind_of(f: TileFeature) -> GeomKind;

/// The polygons one decoded feature carries, as tile-local rings.
pub uninterp spec fn feature_polys_of(f: TileFeature) -> Seq<Seq<Seq<(i32, i32)>>>;

/// The mathematical view of a list of tile-local polygons.
pub open spec fn tile_polys_view(ps: Seq<Vec<Vec<(i32, i32)>>>) -> Seq<Seq<Seq<(i32, i32)>>> {
    ps.map_values(|p: Vec<Vec<(i32, i32)>>| p@.map_values(|r: Vec<(i32, i32)>| r@))
}

/// Relies on `mvt_reader::Reader::new`: decodes the binary tile payload —
/// a deterministic protobuf parse of the bytes — or fails on a malformed
/// one.
#[verifier::external_body]
pub fn read_tile(data: Vec<u8>) -> (r: Result<TileReader, DecodeError>)
    ensures
        r.is_ok() <==> mvt_parses(data@),
        r matches Ok(rd) ==> reader_payload(rd) == data@,
        !r.is_ok() ==> (r matches Err(e) && e == DecodeError::Malformed),
{
    match mvt_reader::Reader::new(data) {
        Ok(inner) => Ok(TileReader { inner }),
        Err(_) => Err(DecodeError::Malformed),
    }
}

/// Relies on `mvt_reader::Reader::get_layer_metadata`: one entry per layer,
/// in layer order, carrying the layer's coordinate extent; the crate
/// substitutes 4096 where a layer omits its extent. Fails exactly when some
/// layer has an unsupported version.
#[verifier::external_body]
pub fn layer_extents(r: &TileReader) -> (v: Result<Vec<u32>, DecodeError>)
    ensures
        v.is_ok() <==> mvt_meta_ok(reader_payload(*r)),
        v matches Ok(ex) ==> ex@ == mvt_extents(reader_payload(*r)),
        !v.is_ok() ==> (v matches Err(e) && e == DecodeError::Malformed),
{
    match r.inner.get_layer_metadata() {
        Ok(layers) => Ok(layers.iter().map(|l| l.extent).collect()),
        Err(_) => Err(DecodeError::Malformed),
    }
}

/// Relies on `mvt_reader::Reader::get_features_as::<i32>`: the features of
/// one layer with tile-local integer coordinates, in feature order; an
/// absent layer index yields an empty list. Each returned feature carries
/// exactly the kind and polygons the payload's layer `i` decodes to.
#[verifier::external_body]
pub fn layer_features(r: &TileReader, layer: usize) -> (v: Result<Vec<TileFeature>, DecodeError>)
    ensures
        v.is_ok() <==> mvt_layer_ok(reader_payload(*r), layer as int),
        v matches Ok(fs) ==> {
            &&& fs@.len() == mvt_kinds(reader_payload(*r), layer as int).len()
            &&& mvt_polys(reader_payload(*r), layer as int).len() == fs@.len()
            &&& forall|j: int|
                0 <= j < fs@.len() ==> feature_kind_of(fs@[j]) == mvt_kinds(
                    reader_payload(*r),
                    layer as int,
                )[j]
            &&& forall|j: int|
                0 <= j < fs@.len() ==> feature_polys_of(fs@[j]) == mvt_polys(
                    reader_payload(*r),
                    layer as int,
                )[j]
        },
        !v.is_ok() ==> (v matches Err(e) && e == DecodeError::Malformed),
{
    match r.inner.get_features_as::<i32>(layer) {
        Ok(fs) => Ok(fs.into_iter().map(|inner| TileFeature { inner }).collect()),
        Err(_) => Err(DecodeError::Malformed),
    }
}

/// Relies on `geo_types::Geometry`: names which geometry variant the
/// decoded feature carries, one arm per variant.
#[verifier::external_body]
pub fn feature_kind(f: &TileFeature) -> (k: GeomKind)
    ensures
        k == feature_kind_of(*f),
{
    match &f.inner.geometry {
        geo_types::Geometry::Point(_) => GeomKind::Point,
        geo_types::Geometry::Line(_) => GeomKind::Line,
        geo_types::Geometry::LineString(_) => GeomKind::LineString,
        geo_types::Geometry::Polygon(_) => GeomKind::Polygon,
        geo_types::Geometry::MultiPoint(_) => GeomKind::MultiPoint,
        geo_types::Geometry::MultiLineString(_) => GeomKind::MultiLineString,
        geo_types::Geometry::MultiPolygon(_) => GeomKind::MultiPolygon,
        geo_types::Geometry::GeometryCollection(_) => GeomKind::GeometryCollection,
        geo_types::Geometry::Rect(_) => GeomKind::Rect,
        geo_types::Geometry::Triangle(_) => GeomKind::Triangle,
    }
}

/// Relies on `geo_types::Polygon::exterior` and `interiors`: the feature's
/// polygons as tile-local rings, exterior first; empty for a feature that
/// is not polygonal.
#[verifier::external_body]
pub fn feature_polygon_rings(f: &TileFeature) -> (polys: Vec<Vec<Vec<(i32, i32)>>>)
    ensures
        tile_polys_view(polys@) == feature_polys_of(*f),
{
    let rings_of = |p: &geo_types::Polygon<i32>| -> Vec<Vec<(i32, i32)>> {
        core::iter::once(p.exterior())
            .chain(p.interiors().iter())
            .map(|r| r.0.iter().map(|c| (c.x, c.y)).collect())
            .collect()
    };
    match &f.inner.geometry {
        geo_types::Geometry::Polygon(p) => vec![rings_of(p)],
        geo_types::Geometry::MultiPolygon(m) => m.0.iter().map(rings_of).collect(),
        _ => Vec::new(),
    }
}

/// A ring with its first point appended at the end when it was not closed.
pub open spec fn close_seq(s: Seq<FpPoint>) -> Seq<FpPoint> {
    if s.len() > 0 && s.first() != s.last() {
        s.push(s.first())
    } else {
        s
    }
}

/// The global micro-degree image of a tile-local ring.
pub open spec fn mapped_ring(z: int, x: int, y: int, extent: int, ring: Seq<(i32, i32)>) -> Seq<
    FpPoint,
> {
    ring.map_values(
        |p: (i32, i32)|
            (
                (tile_lon_udeg(z, x, extent, p.0 as int) as i32),
                (tile_lat_udeg(z, y, extent, p.1 as int) as i32),
            ),
    )
}

/// Whether every point of a tile-local ring is within the supported range.
pub open spec fn ring_args_ok(z: int, x: int, y: int, extent: int, ring: Seq<(i32, i32)>) -> bool {
    forall|i: int|
        0 <= i < ring.len() ==> tile_args_ok(z, x, y, extent, ring[i].0 as int, ring[i].1 as int)
}

/// Maps one tile-local ring to global micro-degrees and closes it.
pub fn convert_tile_ring(z: u32, x: u32, y: u32, extent: u32, ring: &Vec<(i32, i32)>) -> (r: Option<
    FpRing,
>)
    ensures
        r.is_some() <==> ring_args_ok(z as int, x as int, y as int, extent as int, ring@),
        r.is_some() ==> r.unwrap()@ == close_seq(
            mapped_ring(z as int, x as int, y as int, extent as int, ring@),
        ),
        r.is_some() ==> crate::coords::ring_in_range(r.unwrap()@),
        r.is_some() && r.unwrap()@.len() > 0 ==> r.unwrap()@.first() == r.unwrap()@.last(),
{
    let ghost m = mapped_ring(z as int, x as int, y as int, extent as int, ring@);
    let mut out: FpRing = Vec::new();
    let mut i: usize = 0;
    while i < ring.len()
        invariant
            i <= ring@.len(),
            m == mapped_ring(z as int, x as int, y as int, extent as int, ring@),
            out@ == m.take(i as int),
            forall|j: int| 0 <= j < i ==> tile_args_ok(z as int, x as int, y as int, extent as int,
                ring@[j].0 as int, ring@[j].1 as int),
            forall|j: int| 0 <= j < i ==> in_coord_range(m[j]),
        decreases ring@.len() - i,
    {
        let p = ring[i];
        match tile_to_global(z, x, y, extent, p.0 as i64, p.1 as i64) {
            Some(g) => {
                out.push(g);
                assert(out@ =~= m.take(i + 1int));
            },
            None => {
                assert(!tile_args_ok(z as int, x as int, y as int, extent as int,
                    ring@[i as int].0 as int, ring@[i as int].1 as int));
                return None;
            },
        }
        i = i + 1;
    }
    assert(out@ =~= m);
    close_ring(&mut out);
    let ghost c = close_seq(m);
    proof {
        if m.len() > 0 && m.first() != m.last() {
            assert(out@ == m.push(m.first()));
            assert forall|j: int| 0 <= j < out@.len() implies in_coord_range(out@[j]) by {
                if j < m.len() {
                } else {
                    assert(out@[j] == m.first());
                }
            }
        }
    }
    Some(out)
}

/// Maps a whole tile-local polygon to global micro-degrees, every ring
/// closed; `None` when any coordinate is outside the supported range.
pub fn convert_tile_polygon(z: u32, x: u32, y: u32, extent: u32, rings: &Vec<Vec<(i32, i32)>>) -> (r:
    Option<FpRings>)
    ensures
        r.is_some() <==> forall|i: int|
            0 <= i < rings@.len() ==> ring_args_ok(z as int, x as int, y as int, extent as int,
                rings@[i]@),
        r.is_some() ==> {
            let p = r.unwrap();
            &&& p@.len() == rings@.len()
            &&& forall|i: int|
                0 <= i < rings@.len() ==> p@[i]@ == close_seq(
                    mapped_ring(z as int, x as int, y as int, extent as int, rings@[i]@),
                )
            &&& crate::coords::rings_in_range(crate::coords::rings_view(p@))
        },
{
    let mut out: FpRings = Vec::new();
    let mut i: usize = 0;
    while i < rings.len()
        invariant
            i <= rings@.len(),
            out@.len() == i,
            forall|j: int| 0 <= j < i ==> ring_args_ok(z as int, x as int, y as int, extent as int,
                rings@[j]@),
            forall|j: int| 0 <= j < i ==> out@[j]@ == close_seq(
                mapped_ring(z as int, x as int, y as int, extent as int, rings@[j]@),
            ),
            forall|j: int| 0 <= j < i ==> crate::coords::ring_in_range(out@[j]@),
        decreases rings@.len() - i,
    {
        match convert_tile_ring(z, x, y, extent, &rings[i]) {
            Some(ring) => {
                out.push(ring);
            },
            None => {
                return None;
            },
        }
        i = i + 1;
    }
    proof {
        assert forall|j: int| 0 <= j < out@.len() implies crate::coords::ring_in_range(
            crate::coords::rings_view(out@)[j],
        ) by {
            assert(crate::coords::rings_view(out@)[j] == out@[j]@);
        }
    }
    Some(out)
}

/// One decoded outcome, viewed mathematically.
pub enum OutcomeView {
    Polygon(Seq<Seq<FpPoint>>),
    Unsupported(GeomKind),
    OutOfRange,
}

/// The mathematical view of one outcome.
pub open spec fn outcome_view(o: FeatureOutcome) -> OutcomeView {
    match o {
        FeatureOutcome::Polygon(p) => OutcomeView::Polygon(crate::coords::rings_view(p@)),
        FeatureOutcome::Unsupported(k) => OutcomeView::Unsupported(k),
        FeatureOutcome::OutOfRange => OutcomeView::OutOfRange,
    }
}

/// The mathematical view of a list of outcomes.
pub open spec fn outcomes_view(s: Seq<FeatureOutcome>) -> Seq<OutcomeView> {
    s.map_values(|o: FeatureOutcome| outcome_view(o))
}

/// What one decoded polygon yields: its rings mapped to global
/// micro-degrees and closed, when every coordinate is within the supported
/// range; the out-of-range report otherwise.
pub open spec fn polygon_outcome_view(z: int, x: int, y: int, extent: int, poly: Seq<
    Seq<(i32, i32)>,
>) -> OutcomeView {
    if forall|i: int| 0 <= i < poly.len() ==> ring_args_ok(z, x, y, extent, poly[i]) {
        OutcomeView::Polygon(
            poly.map_values(|r: Seq<(i32, i32)>| close_seq(mapped_ring(z, x, y, extent, r))),
        )
    } else {
        OutcomeView::OutOfRange
    }
}

/// What the first `k` polygons of one feature yield, in order.
pub open spec fn polys_outcomes_upto(z: int, x: int, y: int, extent: int, polys: Seq<
    Seq<Seq<(i32, i32)>>,
>, k: int) -> Seq<OutcomeView>
    decreases k,
{
    if k <= 0 {
        Seq::empty()
    } else {
        polys_outcomes_upto(z, x, y, extent, polys, k - 1).push(
            polygon_outcome_view(z, x, y, extent, polys[k - 1]),
        )
    }
}

/// What one decoded feature yields: one outcome per polygon for a
/// polygonal feature, one `Unsupported` outcome for every other kind.
pub open spec fn feature_outcomes_view(z: int, x: int, y: int, extent: int, kind: GeomKind, polys: Seq<
    Seq<Seq<(i32, i32)>>,
>) -> Seq<OutcomeView> {
    if kind == GeomKind::Polygon || kind == GeomKind::MultiPolygon {
        polys_outcomes_upto(z, x, y, extent, polys, polys.len() as int)
    } else {
        seq![OutcomeView::Unsupported(kind)]
    }
}

/// What the first `j` features of layer `i` yield, in order.
pub open spec fn layer_outcomes_upto(data: Seq<u8>, z: int, x: int, y: int, i: int, j: int) -> Seq<
    OutcomeView,
>
    decreases j,
{
    if j <= 0 {
        Seq::empty()
    } else {
        layer_outcomes_upto(data, z, x, y, i, j - 1) + feature_outcomes_view(
            z,
            x,
            y,
            mvt_extents(data)[i] as int,
            mvt_kinds(data, i)[j - 1],
            mvt_polys(data, i)[j - 1],
        )
    }
}

/// What the first `i` layers of the payload yield, in order.
pub open spec fn tile_outcomes_upto(data: Seq<u8>, z: int, x: int, y: int, i: int) -> Seq<
    OutcomeView,
>
    decreases i,
{
    if i <= 0 {
        Seq::empty()
    } else {
        tile_outcomes_upto(data, z, x, y, i - 1) + layer_outcomes_upto(
            data,
            z,
            x,
            y,
            i - 1,
            mvt_kinds(data, i - 1).len() as int,
        )
    }
}

/// Everything the payload yields at tile address `(z, x, y)`: the layers in
/// order, each layer's features in order.
pub open spec fn tile_outcomes(data: Seq<u8>, z: int, x: int, y: int) -> Seq<OutcomeView> {
    tile_outcomes_upto(data, z, x, y, mvt_extents(data).len() as int)
}

/// Whether the payload decodes in full: the tile parses, every layer's
/// version is supported, and every layer's features parse.
pub open spec fn tile_decodes(data: Seq<u8>) -> bool {
    &&& mvt_parses(data)
    &&& mvt_meta_ok(data)
    &&& forall|i: int| 0 <= i < mvt_extents(data).len() ==> mvt_layer_ok(data, i)
}

/// Decodes one tile payload and maps every feature into global coordinates.
/// It succeeds exactly when the payload decodes in full, and fails with the
/// recoverable decode error otherwise, never a panic. On success the
/// outcomes are, in order, what the decoded features yield: each polygonal
/// feature one outcome per polygon — the mapped, closed rings when every
/// coordinate is in range, the out-of-range report otherwise — and every
/// other geometry kind one `Unsupported` outcome, never an abort of the
/// tile.
#[verifier::loop_isolation(false)]
pub fn decode_tile(z: u32, x: u32, y: u32, data: Vec<u8>) -> (r: Result<
    Vec<FeatureOutcome>,
    DecodeError,
>)
    ensures
        r.is_ok() <==> tile_decodes(data@),
        !r.is_ok() ==> (r matches Err(e) && e == DecodeError::Malformed),
        r matches Ok(outs) ==> outcomes_view(outs@) == tile_outcomes(data@, z as int, x as int,
            y as int),
        r matches Ok(outs) ==> forall|i: int| 0 <= i < outs@.len() ==> outcome_ok(outs@[i]),
{
    let ghost d = data@;
    let reader = match read_tile(data) {
        Ok(rd) => rd,
        Err(_) => {
            return Err(DecodeError::Malformed);
        },
    };
    let extents = match layer_extents(&reader) {
        Ok(v) => v,
        Err(_) => {
            return Err(DecodeError::Malformed);
        },
    };
    assert(extents@ == mvt_extents(d));
    let mut outcomes: Vec<FeatureOutcome> = Vec::new();
    let mut li: usize = 0;
    while li < extents.len()
        invariant
            li <= extents@.len(),
            forall|j: int| 0 <= j < li ==> mvt_layer_ok(d, j),
            outcomes_view(outcomes@) == tile_outcomes_upto(d, z as int, x as int, y as int,
                li as int),
            forall|i: int| 0 <= i < outcomes@.len() ==> outcome_ok(outcomes@[i]),
        decreases extents@.len() - li,
    {
        let feats = match layer_features(&reader, li) {
            Ok(v) => v,
            Err(_) => {
                assert(!mvt_layer_ok(d, li as int));
                return Err(DecodeError::Malformed);
            },
        };
        let ghost kinds = mvt_kinds(d, li as int);
        let ghost lpolys = mvt_polys(d, li as int);
        let extent = extents[li];
        let mut fi: usize = 0;
        while fi < feats.len()
            invariant
                fi <= feats@.len(),
                outcomes_view(outcomes@) == tile_outcomes_upto(d, z as int, x as int, y as int,
                    li as int) + layer_outcomes_upto(d, z as int, x as int, y as int, li as int,
                    fi as int),
                forall|i: int| 0 <= i < outcomes@.len() ==> outcome_ok(outcomes@[i]),
            decreases feats@.len() - fi,
        {
            let f = &feats[fi];
            let kind = feature_kind(f);
            assert(kind == kinds[fi as int]);
            let ghost fpolys = lpolys[fi as int];
            match kind {
                GeomKind::Polygon | GeomKind::MultiPolygon => {
                    let polys = feature_polygon_rings(f);
                    assert(tile_polys_view(polys@) == fpolys);
                    let mut pi: usize = 0;
                    while pi < polys.len()
                        invariant
                            pi <= polys@.len(),
                            outcomes_view(outcomes@) == tile_outcomes_upto(d, z as int, x as int,
                                y as int, li as int) + layer_outcomes_upto(d, z as int, x as int,
                                y as int, li as int, fi as int) + polys_outcomes_upto(z as int,
                                x as int, y as int, extent as int, fpolys, pi as int),
                            forall|i: int| 0 <= i < outcomes@.len() ==> outcome_ok(outcomes@[i]),
                        decreases polys@.len() - pi,
                    {
                        proof {
                            assert(fpolys[pi as int] == tile_polys_view(polys@)[pi as int]);
                            assert(tile_polys_view(polys@)[pi as int] == polys@[pi as int]@
                                .map_values(|r: Vec<(i32, i32)>| r@));
                        }
                        let ghost before = outcomes@;
                        match convert_tile_polygon(z, x, y, extent, &polys[pi]) {
                            Some(p) => {
                                proof {
                                    let pv = fpolys[pi as int];
                                    assert forall|i: int| 0 <= i < pv.len() implies ring_args_ok(
                                        z as int, x as int, y as int, extent as int, pv[i],
                                    ) by {
                                        assert(pv[i] == polys@[pi as int]@[i]@);
                                    }
                                    assert(crate::coords::rings_view(p@) =~= pv.map_values(
                                        |r: Seq<(i32, i32)>| close_seq(
                                            mapped_ring(z as int, x as int, y as int, extent as int,
                                            r),
                                        ),
                                    )) by {
                                        assert forall|i: int|
                                            0 <= i < pv.len() implies crate::coords::rings_view(
                                            p@,
                                        )[i] == close_seq(
                                            mapped_ring(z as int, x as int, y as int, extent as int,
                                            pv[i]),
                                        ) by {
                                            assert(pv[i] == polys@[pi as int]@[i]@);
                                            assert(crate::coords::rings_view(p@)[i] == p@[i]@);
                                        }
                                    }
                                    assert(outcome_view(FeatureOutcome::Polygon(p))
                                        == polygon_outcome_view(z as int, x as int, y as int,
                                        extent as int, pv));
                                }
                                outcomes.push(FeatureOutcome::Polygon(p));
                            },
                            None => {
                                proof {
                                    let pv = fpolys[pi as int];
                                    assert(!(forall|i: int|
                                        0 <= i < pv.len() ==> ring_args_ok(z as int, x as int,
                                        y as int, extent as int, pv[i]))) by {
                                        let bad = choose|i: int|
                                            0 <= i < polys@[pi as int]@.len() && !ring_args_ok(
                                                z as int, x as int, y as int, extent as int,
                                                polys@[pi as int]@[i]@,
                                            );
                                        assert(pv[bad] == polys@[pi as int]@[bad]@);
                                    }
                                    assert(polygon_outcome_view(z as int, x as int, y as int,
                                        extent as int, pv) == OutcomeView::OutOfRange);
                                }
                                outcomes.push(FeatureOutcome::OutOfRange);
                            },
                        }
                        proof {
                            assert(outcomes_view(outcomes@) =~= outcomes_view(before).push(
                                polygon_outcome_view(z as int, x as int, y as int, extent as int,
                                fpolys[pi as int]),
                            ));
                        }
                        pi = pi + 1;
                    }
                    proof {
                        assert(polys@.len() == fpolys.len());
                        assert(feature_outcomes_view(z as int, x as int, y as int, extent as int,
                            kinds[fi as int], fpolys) == polys_outcomes_upto(z as int, x as int,
                            y as int, extent as int, fpolys, fpolys.len() as int));
                    }
                },
                _ => {
                    let ghost before = outcomes@;
                    outcomes.push(FeatureOutcome::Unsupported(kind));
                    proof {
                        assert(feature_outcomes_view(z as int, x as int, y as int, extent as int,
                            kinds[fi as int], fpolys) =~= seq![OutcomeView::Unsupported(kind)]);
                        assert(outcomes_view(outcomes@) =~= outcomes_view(before)
                            + feature_outcomes_view(z as int, x as int, y as int, extent as int,
                            kinds[fi as int], fpolys));
                    }
                },
            }
            proof {
                assert(layer_outcomes_upto(d, z as int, x as int, y as int, li as int, fi + 1int)
                    == layer_outcomes_upto(d, z as int, x as int, y as int, li as int, fi as int)
                    + feature_outcomes_view(z as int, x as int, y as int,
                    mvt_extents(d)[li as int] as int, kinds[fi as int], lpolys[fi as int]));
                assert(outcomes_view(outcomes@) =~= tile_outcomes_upto(d, z as int, x as int,
                    y as int, li as int) + layer_outcomes_upto(d, z as int, x as int, y as int,
                    li as int, fi + 1int));
            }
            fi = fi + 1;
        }
        proof {
            assert(feats@.len() == kinds.len());
            assert(tile_outcomes_upto(d, z as int, x as int, y as int, li + 1int)
                == tile_outcomes_upto(d, z as int, x as int, y as int, li as int)
                + layer_outcomes_upto(d, z as int, x as int, y as int, li as int,
                kinds.len() as int));
        }
        li = li + 1;
    }
    assert(tile_decodes(d));
    Ok(outcomes)
}

/// What holds of every outcome a decoded tile yields: a polygon outcome is
/// closed ring by ring and within the tessellator's coordinate range.
pub open spec fn outcome_ok(o: FeatureOutcome) -> bool {
    o matches FeatureOutcome::Polygon(p) ==> {
        &&& crate::coords::rings_in_range(crate::coords::rings_view(p@))
        &&& forall|i: int|
            0 <= i < p@.len() && p@[i]@.len() > 0 ==> p@[i]@.first() == p@[i]@.last()
    }
}

} // verus!
