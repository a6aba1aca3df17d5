//! Tessellation and mesh-merge behaviour, exercised end to end.

use globe_tess::mesh::{Fragment, GlobalMesh, Vertex};
use globe_tess::mesh::merge_fragments;
use globe_tess::sphere::{generate_sphere, BLUE_COLOR};
use globe_tess::tess::{draw_polygon, draw_polygon_p};

const COLOR: u32 = 0xFF7F00FF;

fn square_udeg(lon0: i32, lat0: i32, side: i32) -> Vec<Vec<(i32, i32)>> {
    let ring = vec![
        (lon0, lat0),
        (lon0 + side, lat0),
        (lon0 + side, lat0 + side),
        (lon0, lat0 + side),
        (lon0, lat0),
    ];
    vec![ring]
}

fn shoelace_area_deg2(frag: &Fragment) -> f64 {
    let mut total = 0.0f64;
    let mut i = 0;
    while i + 2 < frag.vertices.len() + 1 {
        let a = &frag.vertices[i];
        let b = &frag.vertices[i + 1];
        let c = &frag.vertices[i + 2];
        let ax = a.lon_udeg as f64 / 1e6;
        let ay = a.lat_udeg as f64 / 1e6;
        let bx = b.lon_udeg as f64 / 1e6;
        let by = b.lat_udeg as f64 / 1e6;
        let cx = c.lon_udeg as f64 / 1e6;
        let cy = c.lat_udeg as f64 / 1e6;
        total += ((bx - ax) * (cy - ay) - (cx - ax) * (by - ay)).abs() / 2.0;
        i += 3;
    }
    total
}

#[test]
fn unit_square_two_triangles() {
    // A 1x1 degree square at the equator touches exactly one grid cell and
    // triangulates to 2 triangles: 6 vertices, 6 indices, 4 unique positions.
    let rings = square_udeg(0, 0, 1_000_000);
    let frag = draw_polygon(&rings, COLOR);
    assert_eq!(frag.indices.len(), 6);
    assert_eq!(frag.vertices.len(), 6);
    for (i, ix) in frag.indices.iter().enumerate() {
        assert_eq!(*ix as usize, i);
    }
    let mut unique: Vec<(i64, i64)> = Vec::new();
    for v in &frag.vertices {
        assert_eq!(v.color, COLOR);
        assert!(v.lon_udeg == 0 || v.lon_udeg == 1_000_000);
        assert!(v.lat_udeg == 0 || v.lat_udeg == 1_000_000);
        if !unique.contains(&(v.lon_udeg, v.lat_udeg)) {
            unique.push((v.lon_udeg, v.lat_udeg));
        }
    }
    assert_eq!(unique.len(), 4);
    let area = shoelace_area_deg2(&frag);
    assert!((area - 1.0).abs() < 1e-3, "area {}", area);
}

#[test]
fn area_preserved_across_cells() {
    // A 2x2 degree square spans four grid cells; the clipped triangles must
    // cover the same area as the unclipped polygon.
    let rings = square_udeg(0, 0, 2_000_000);
    let frag = draw_polygon(&rings, COLOR);
    assert!(frag.indices.len() % 3 == 0);
    assert!(frag.indices.len() >= 3 * 8, "expected at least two triangles per cell");
    let area = shoelace_area_deg2(&frag);
    assert!((area - 4.0).abs() < 1e-2, "area {}", area);
}

#[test]
fn polygon_with_hole_loses_area() {
    // Outer 2x2 square with a 1x1 hole in the middle: covered area is 3.
    let outer = vec![
        (0, 0),
        (2_000_000, 0),
        (2_000_000, 2_000_000),
        (0, 2_000_000),
        (0, 0),
    ];
    let hole = vec![
        (500_000, 500_000),
        (1_500_000, 500_000),
        (1_500_000, 1_500_000),
        (500_000, 1_500_000),
        (500_000, 500_000),
    ];
    let frag = draw_polygon(&vec![outer, hole], COLOR);
    let area = shoelace_area_deg2(&frag);
    assert!((area - 3.0).abs() < 1e-2, "area {}", area);
}

#[test]
fn outside_domain_is_empty_not_error() {
    // Entirely west of the shifted domain: longitude below -180 degrees.
    let rings = square_udeg(-300_000_000, 0, 50_000_000);
    let frag = draw_polygon(&rings, COLOR);
    assert_eq!(frag.vertices.len(), 0);
    assert_eq!(frag.indices.len(), 0);
    // Entirely north of the domain: latitude above 90 degrees.
    let rings = square_udeg(0, 95_000_000, 50_000_000);
    let frag = draw_polygon(&rings, COLOR);
    assert_eq!(frag.vertices.len(), 0);
    assert_eq!(frag.indices.len(), 0);
}

#[test]
fn degenerate_polygon_empty() {
    let frag = draw_polygon(&Vec::new(), COLOR);
    assert_eq!(frag.vertices.len(), 0);
    assert_eq!(frag.indices.len(), 0);
    let frag = draw_polygon(&vec![Vec::new()], COLOR);
    assert_eq!(frag.vertices.len(), 0);
    assert_eq!(frag.indices.len(), 0);
}

#[test]
fn draw_polygon_p_takes_shifted_space() {
    // The same unit square handed directly in shifted coordinates.
    let ring = vec![
        (180_000_000, 89_000_000),
        (181_000_000, 89_000_000),
        (181_000_000, 90_000_000),
        (180_000_000, 90_000_000),
        (180_000_000, 89_000_000),
    ];
    let frag = draw_polygon_p(&vec![ring], COLOR);
    assert_eq!(frag.indices.len(), 6);
    for v in &frag.vertices {
        assert!(v.lon_udeg == 0 || v.lon_udeg == 1_000_000);
        assert!(v.lat_udeg == 0 || v.lat_udeg == 1_000_000);
    }
}

#[test]
fn merge_rebases_indices() {
    // Merging fragments with vertex counts [v1..vN] yields sum(vi) vertices,
    // every index below the total, and no duplicate indices.
    let rings = square_udeg(0, 0, 1_000_000);
    let f1 = draw_polygon(&rings, COLOR);
    let f2 = draw_polygon(&square_udeg(5_000_000, 5_000_000, 1_000_000), COLOR);
    let f3 = draw_polygon(&square_udeg(-10_000_000, -10_000_000, 2_000_000), COLOR);
    let counts: Vec<usize> = vec![f1.vertices.len(), f2.vertices.len(), f3.vertices.len()];
    let total: usize = counts.iter().sum();
    let frags = vec![f1, f2, f3];
    let merged = merge_fragments(&frags);
    assert_eq!(merged.vertices.len(), total);
    assert_eq!(merged.indices.len(), total);
    for (i, ix) in merged.indices.iter().enumerate() {
        assert!((*ix as usize) < total);
        assert_eq!(*ix as usize, i, "identity-indexed fragments merge to identity");
    }
    let mut seen = vec![false; total];
    for ix in &merged.indices {
        assert!(!seen[*ix as usize], "duplicate index after merge");
        seen[*ix as usize] = true;
    }
}

#[test]
fn merge_one_by_one_matches_offsets() {
    let mut gm = GlobalMesh::new();
    let a = Fragment {
        vertices: vec![
            Vertex { lon_udeg: 1, lat_udeg: 2, color: 3 },
            Vertex { lon_udeg: 4, lat_udeg: 5, color: 6 },
            Vertex { lon_udeg: 7, lat_udeg: 8, color: 9 },
        ],
        indices: vec![0, 1, 2],
    };
    gm.merge(&a);
    gm.merge(&a);
    assert_eq!(gm.vertices.len(), 6);
    assert_eq!(gm.indices, vec![0, 1, 2, 3, 4, 5]);
}

#[test]
fn merge_of_nothing_is_empty() {
    let merged = merge_fragments(&Vec::new());
    assert_eq!(merged.vertices.len(), 0);
    assert_eq!(merged.indices.len(), 0);
}

#[test]
fn sphere_mesh_covers_grid() {
    // 360 x 180 unit cells, two triangles each, three vertices per triangle.
    let frag = generate_sphere();
    assert_eq!(frag.vertices.len(), 360 * 180 * 6);
    assert_eq!(frag.indices.len(), frag.vertices.len());
    for v in &frag.vertices {
        assert_eq!(v.color, BLUE_COLOR);
        assert!(v.lon_udeg >= -180_000_000 && v.lon_udeg <= 180_000_000);
        assert!(v.lat_udeg >= -90_000_000 && v.lat_udeg <= 90_000_000);
    }
    for (i, ix) in frag.indices.iter().enumerate() {
        assert_eq!(*ix as usize, i);
    }
}
