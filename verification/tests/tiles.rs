//! Vector-tile coordinate mapping and ingest outcomes.

use globe_tess::stream::{feature_fragments, FeatureGeometry, TessError};
use globe_tess::tile::{
    convert_tile_polygon, decode_tile, tile_to_global, DecodeError, FeatureOutcome, GeomKind,
};

const COLOR: u32 = 0x10FF20FF;

#[test]
fn origin_of_tile_zero_maps_to_edge() {
    // z=0, x=0, y=0, extent 4096, tile-local (0,0): lon = 180 degrees,
    // lat = 90 degrees, the north-pole boundary in shifted convention.
    let p = tile_to_global(0, 0, 0, 4096, 0, 0).unwrap();
    assert_eq!(p.0, 180_000_000);
    assert_eq!(p.1, 90_000_000);
}

#[test]
fn tile_formula_mid_tile() {
    // z=1, x=1, y=1, extent 256, local (128,128): half a 180-degree span in
    // from the tile origin on each axis.
    let p = tile_to_global(1, 1, 1, 256, 128, 128).unwrap();
    assert_eq!(p.0, 450_000_000);
    assert_eq!(p.1, -45_000_000);
}

#[test]
fn tile_formula_rounds_down() {
    // z=0, extent 4096, local (10, 10): offsets are 10*360/4096 and
    // 10*180/4096 degrees, rounded down in micro-degrees.
    let p = tile_to_global(0, 0, 0, 4096, 10, 10).unwrap();
    assert_eq!(p.0, 180_000_000 + 878_906);
    assert_eq!(p.1, 90_000_000 - 439_453);
}

#[test]
fn tile_arguments_out_of_range() {
    assert!(tile_to_global(31, 0, 0, 4096, 0, 0).is_none());
    assert!(tile_to_global(0, 0, 0, 0, 0, 0).is_none());
    assert!(tile_to_global(0, 1, 0, 4096, 0, 0).is_none());
    assert!(tile_to_global(1, 2, 0, 4096, 0, 0).is_none());
    assert!(tile_to_global(0, 0, 0, 4096, -4097, 0).is_none());
    assert!(tile_to_global(0, 0, 0, 4096, 0, 8193).is_none());
    assert!(tile_to_global(0, 0, 0, 4096, -4096, 8192).is_some());
}

#[test]
fn convert_closes_open_rings() {
    let ring = vec![(0, 0), (4096, 0), (4096, 4096)];
    let polys = convert_tile_polygon(0, 0, 0, 4096, &vec![ring]).unwrap();
    assert_eq!(polys.len(), 1);
    let r = &polys[0];
    assert_eq!(r.len(), 4);
    assert_eq!(r.first(), r.last());
    assert_eq!(r[0], (180_000_000, 90_000_000));
    assert_eq!(r[1], (540_000_000, 90_000_000));
}

#[test]
fn convert_rejects_out_of_range_coordinate() {
    let ring = vec![(0, 0), (50_000, 0), (0, 0)];
    assert!(convert_tile_polygon(0, 0, 0, 4096, &vec![ring]).is_none());
}

#[test]
fn unsupported_point_feature_is_skipped() {
    // A point feature yields the UnsupportedGeometry outcome, while a
    // sibling polygon feature still tessellates.
    let r = feature_fragments(&FeatureGeometry::Unsupported(GeomKind::Point), COLOR);
    assert_eq!(r.err(), Some(TessError::UnsupportedGeometry(GeomKind::Point)));
    let square = vec![vec![
        (0, 0),
        (1_000_000, 0),
        (1_000_000, 1_000_000),
        (0, 1_000_000),
        (0, 0),
    ]];
    let sibling = feature_fragments(&FeatureGeometry::Polygon(square), COLOR);
    let frags = sibling.unwrap();
    assert_eq!(frags.len(), 1);
    assert_eq!(frags[0].indices.len(), 6);
}

#[test]
fn multipolygon_yields_one_fragment_per_polygon() {
    let sq = |x0: i32| {
        vec![vec![
            (x0, 0),
            (x0 + 1_000_000, 0),
            (x0 + 1_000_000, 1_000_000),
            (x0, 1_000_000),
            (x0, 0),
        ]]
    };
    let geom = FeatureGeometry::MultiPolygon(vec![sq(0), sq(3_000_000)]);
    let frags = feature_fragments(&geom, COLOR).unwrap();
    assert_eq!(frags.len(), 2);
    assert_eq!(frags[0].indices.len(), 6);
    assert_eq!(frags[1].indices.len(), 6);
}

#[test]
fn out_of_range_polygon_reported() {
    let bad = vec![vec![(0, 0), (2_000_000_000, 0), (0, 0)]];
    let r = feature_fragments(&FeatureGeometry::Polygon(bad), COLOR);
    assert_eq!(r.err(), Some(TessError::CoordinateRange));
}

#[test]
fn malformed_tile_payload_rejected() {
    let r = decode_tile(0, 0, 0, vec![0xFF, 0xFF, 0xFF, 0x01, 0x02]);
    assert_eq!(r.err(), Some(DecodeError::Malformed));
}

fn varint(mut v: u64, out: &mut Vec<u8>) {
    loop {
        let b = (v & 0x7F) as u8;
        v >>= 7;
        if v == 0 {
            out.push(b);
            break;
        }
        out.push(b | 0x80);
    }
}

fn zigzag(v: i64) -> u64 {
    ((v << 1) ^ (v >> 63)) as u64
}

fn packed_field(tag: u8, values: &[u64], out: &mut Vec<u8>) {
    let mut body = Vec::new();
    for v in values {
        varint(*v, &mut body);
    }
    out.push((tag << 3) | 2);
    varint(body.len() as u64, out);
    out.extend_from_slice(&body);
}

fn message_field(tag: u8, body: &[u8], out: &mut Vec<u8>) {
    out.push((tag << 3) | 2);
    varint(body.len() as u64, out);
    out.extend_from_slice(body);
}

fn varint_field(tag: u8, v: u64, out: &mut Vec<u8>) {
    out.push(tag << 3);
    varint(v, out);
}

/// One layer ("test", extent 4096, version 2) holding a point feature and a
/// square polygon feature, in the vector-tile wire encoding.
fn tiny_tile_bytes() -> Vec<u8> {
    // Point at (5, 5).
    let mut point_geom: Vec<u64> = vec![9];
    point_geom.push(zigzag(5));
    point_geom.push(zigzag(5));
    let mut point_feature = Vec::new();
    varint_field(3, 1, &mut point_feature); // type = POINT
    packed_field(4, &point_geom, &mut point_feature);

    // Square polygon: MoveTo(0,0), LineTo(10,0),(0,10),(-10,0), ClosePath.
    let mut poly_geom: Vec<u64> = vec![9, zigzag(0), zigzag(0)];
    poly_geom.push(26);
    poly_geom.extend_from_slice(&[zigzag(10), zigzag(0), zigzag(0), zigzag(10), zigzag(-10),
        zigzag(0)]);
    poly_geom.push(15);
    let mut poly_feature = Vec::new();
    varint_field(3, 3, &mut poly_feature); // type = POLYGON
    packed_field(4, &poly_geom, &mut poly_feature);

    let mut layer = Vec::new();
    message_field(1, b"test", &mut layer); // name
    message_field(2, &point_feature, &mut layer);
    message_field(2, &poly_feature, &mut layer);
    varint_field(5, 4096, &mut layer); // extent
    varint_field(15, 2, &mut layer); // version

    let mut tile = Vec::new();
    message_field(3, &layer, &mut tile);
    tile
}

/// One layer whose only feature is a polygon with a coordinate far beyond
/// the buffer the mapping supports.
fn far_out_tile_bytes() -> Vec<u8> {
    let mut poly_geom: Vec<u64> = vec![9, zigzag(0), zigzag(0)];
    poly_geom.push(26);
    poly_geom.extend_from_slice(&[zigzag(50_000), zigzag(0), zigzag(0), zigzag(50_000),
        zigzag(-50_000), zigzag(0)]);
    poly_geom.push(15);
    let mut poly_feature = Vec::new();
    varint_field(3, 3, &mut poly_feature);
    packed_field(4, &poly_geom, &mut poly_feature);

    let mut layer = Vec::new();
    message_field(1, b"far", &mut layer);
    message_field(2, &poly_feature, &mut layer);
    varint_field(5, 4096, &mut layer);
    varint_field(15, 2, &mut layer);

    let mut tile = Vec::new();
    message_field(3, &layer, &mut tile);
    tile
}

#[test]
fn far_out_coordinate_reported_per_feature() {
    let outcomes = decode_tile(0, 0, 0, far_out_tile_bytes()).unwrap();
    assert_eq!(outcomes.len(), 1);
    assert!(matches!(outcomes[0], FeatureOutcome::OutOfRange));
}

#[test]
fn already_closed_ring_kept_as_is() {
    let ring = vec![(0, 0), (4096, 0), (4096, 4096), (0, 0)];
    let polys = convert_tile_polygon(0, 0, 0, 4096, &vec![ring]).unwrap();
    assert_eq!(polys[0].len(), 4);
    assert_eq!(polys[0].first(), polys[0].last());
}

#[test]
fn decoded_tile_skips_point_keeps_polygon() {
    let outcomes = decode_tile(0, 0, 0, tiny_tile_bytes()).unwrap();
    assert_eq!(outcomes.len(), 2);
    match &outcomes[0] {
        // The decoder represents every point geometry as a multi-point.
        FeatureOutcome::Unsupported(k) => assert_eq!(*k, GeomKind::MultiPoint),
        _ => panic!("expected the point feature to be unsupported"),
    }
    match &outcomes[1] {
        FeatureOutcome::Polygon(rings) => {
            assert_eq!(rings.len(), 1);
            let r = &rings[0];
            assert!(r.len() >= 4);
            assert_eq!(r.first(), r.last());
            assert_eq!(r[0], (180_000_000, 90_000_000));
        },
        _ => panic!("expected the square feature to decode as a polygon"),
    }
}
