//! Grid-clipped tessellation.
//!
//! A polygon given in shifted fixed-point degrees is clipped against every
//! unit-degree cell that its bounding box touches inside the 0-360 / 0-180
//! domain; each clipped part is triangulated, and the triangles are emitted
//! as one locally indexed mesh fragment, corner coordinates mapped back to
//! true longitude and latitude.

use vstd::prelude::*;
use crate::coords::{
    FpPoint, FpRing, FpRings, rings_view, rings_in_range, shifted_rings, shift_rings,
    DEGREE_UNITS, DOMAIN_WIDTH, DOMAIN_HEIGHT, LON_SHIFT, LAT_SHIFT,
};
use crate::clip::{FpTri, intersect_polygons, earcut_polygon, intersection_parts, earcut_tris,
    earcut_ready, ring_closed_len, parts_view};
use crate::mesh::{Vertex, Fragment};

verus! {

/// Largest magnitude accepted for a shifted coordinate, in micro-degrees.
pub const SHIFTED_LIMIT: i32 = 1_800_000_000;

/// Whether a shifted point is within the accepted range.
pub open spec fn shifted_in_range(p: FpPoint) -> bool {
    -SHIFTED_LIMIT <= p.0 && p.0 <= SHIFTED_LIMIT && -SHIFTED_LIMIT <= p.1 && p.1 <= SHIFTED_LIMIT
}

/// Whether every point of every ring is within the shifted range.
pub open spec fn shifted_rings_in_range(rs: Seq<Seq<FpPoint>>) -> bool {
    forall|i: int, j: int|
        0 <= i < rs.len() && 0 <= j < rs[i].len() ==> shifted_in_range(rs[i][j])
}

/// The smaller of two integers.
pub open spec fn lo_acc(a: int, b: int) -> int {
    if a <= b {
        a
    } else {
        b
    }
}

/// The larger of two integers.
pub open spec fn hi_acc(a: int, b: int) -> int {
    if a >= b {
        a
    } else {
        b
    }
}

/// Least x coordinate among the first `k` points of a ring.
pub open spec fn min_x_upto(r: Seq<FpPoint>, k: int) -> int
    decreases k,
{
    if k <= 1 {
        r[0].0 as int
    } else {
        lo_acc(min_x_upto(r, k - 1), r[k - 1].0 as int)
    }
}

/// Greatest x coordinate among the first `k` points of a ring.
pub open spec fn max_x_upto(r: Seq<FpPoint>, k: int) -> int
    decreases k,
{
    if k <= 1 {
        r[0].0 as int
    } else {
        hi_acc(max_x_upto(r, k - 1), r[k - 1].0 as int)
    }
}

/// Least y coordinate among the first `k` points of a ring.
pub open spec fn min_y_upto(r: Seq<FpPoint>, k: int) -> int
    decreases k,
{
    if k <= 1 {
        r[0].1 as int
    } else {
        lo_acc(min_y_upto(r, k - 1), r[k - 1].1 as int)
    }
}

/// Greatest y coordinate among the first `k` points of a ring.
pub open spec fn max_y_upto(r: Seq<FpPoint>, k: int) -> int
    decreases k,
{
    if k <= 1 {
        r[0].1 as int
    } else {
        hi_acc(max_y_upto(r, k - 1), r[k - 1].1 as int)
    }
}

/// First grid line at or below a coordinate, clamped to `0..limit`.
pub open spec fn cell_lo(v: int, limit: int) -> int {
    if v <= 0 {
        0
    } else if v / (DEGREE_UNITS as int) >= limit {
        limit
    } else {
        v / (DEGREE_UNITS as int)
    }
}

/// First grid line at or above a coordinate, clamped to `0..limit`.
pub open spec fn cell_hi(v: int, limit: int) -> int {
    if v <= 0 {
        0
    } else if (v + (DEGREE_UNITS as int) - 1) / (DEGREE_UNITS as int) >= limit {
        limit
    } else {
        (v + (DEGREE_UNITS as int) - 1) / (DEGREE_UNITS as int)
    }
}

/// The closed quad ring of the unit-degree grid cell at column `cx`, row `cy`.
pub open spec fn cell_quad(cx: int, cy: int) -> Seq<Seq<FpPoint>> {
    seq![
        seq![
            (((cx * (DEGREE_UNITS as int)) as i32), ((cy * (DEGREE_UNITS as int)) as i32)),
            ((((cx + 1) * (DEGREE_UNITS as int)) as i32), ((cy * (DEGREE_UNITS as int)) as i32)),
            (
                (((cx + 1) * (DEGREE_UNITS as int)) as i32),
                (((cy + 1) * (DEGREE_UNITS as int)) as i32),
            ),
            (((cx * (DEGREE_UNITS as int)) as i32), (((cy + 1) * (DEGREE_UNITS as int)) as i32)),
            (((cx * (DEGREE_UNITS as int)) as i32), ((cy * (DEGREE_UNITS as int)) as i32)),
        ],
    ]
}

/// The triangles of one intersection part: its triangulation when the part
/// is fit for it, nothing for a degenerate part (boolean intersection never
/// emits one, but nothing here proves that).
pub open spec fn part_tris(part: Seq<Seq<FpPoint>>) -> Seq<FpTri> {
    if earcut_ready(part) {
        earcut_tris(part)
    } else {
        Seq::empty()
    }
}

/// Triangles of the first `k` intersection parts, in order.
pub open spec fn parts_tris_upto(parts: Seq<Seq<Seq<FpPoint>>>, k: int) -> Seq<FpTri>
    decreases k,
{
    if k <= 0 {
        Seq::empty()
    } else {
        parts_tris_upto(parts, k - 1) + part_tris(parts[k - 1])
    }
}

/// Checks at run time whether a polygon may be handed to the triangulation.
fn earcut_ready_exec(p: &FpRings) -> (b: bool)
    ensures
        b == earcut_ready(rings_view(p@)),
{
    if p.len() == 0 {
        return false;
    }
    let mut i: usize = 0;
    while i < p.len()
        invariant
            p@.len() > 0,
            i <= p@.len(),
            forall|j: int| 0 <= j < i ==> ring_closed_len(rings_view(p@)[j]) >= 4,
        decreases p@.len() - i,
    {
        let r = &p[i];
        let n = r.len();
        let closed = n > 0 && {
            let first = r[0];
            let last = r[n - 1];
            first.0 == last.0 && first.1 == last.1
        };
        let enough = if closed {
            n >= 4
        } else {
            n >= 3
        };
        proof {
            assert(rings_view(p@)[i as int] == p@[i as int]@);
        }
        if !enough {
            assert(ring_closed_len(rings_view(p@)[i as int]) < 4);
            return false;
        }
        assert(ring_closed_len(rings_view(p@)[i as int]) >= 4);
        i = i + 1;
    }
    true
}

/// All triangles one grid cell contributes: every intersection part of the
/// polygon with the cell, triangulated.
pub open spec fn cell_tris(sp: Seq<Seq<FpPoint>>, cx: int, cy: int) -> Seq<FpTri> {
    let parts = intersection_parts(sp, cell_quad(cx, cy));
    parts_tris_upto(parts, parts.len() as int)
}

/// Triangles of one grid column, rows `y0..cy`, in row order.
pub open spec fn col_tris(sp: Seq<Seq<FpPoint>>, cx: int, y0: int, cy: int) -> Seq<FpTri>
    decreases cy - y0,
{
    if cy <= y0 {
        Seq::empty()
    } else {
        col_tris(sp, cx, y0, cy - 1) + cell_tris(sp, cx, cy - 1)
    }
}

/// Triangles of the grid columns `x0..cx`, each covering rows `y0..y1`,
/// in column-then-row order.
pub open spec fn grid_tris(sp: Seq<Seq<FpPoint>>, x0: int, y0: int, y1: int, cx: int) -> Seq<FpTri>
    decreases cx - x0,
{
    if cx <= x0 {
        Seq::empty()
    } else {
        grid_tris(sp, x0, y0, y1, cx - 1) + col_tris(sp, cx - 1, y0, y1)
    }
}

/// All triangles of a shifted polygon: its bounding box, rounded outward to
/// degree lines and clamped to the domain, swept cell by cell. A polygon
/// with no ring, or with an empty outer ring, has no bounding box and no
/// triangles.
pub open spec fn poly_tris(sp: Seq<Seq<FpPoint>>) -> Seq<FpTri> {
    if sp.len() == 0 || sp[0].len() == 0 {
        Seq::empty()
    } else {
        grid_tris(
            sp,
            cell_lo(min_x_upto(sp[0], sp[0].len() as int), DOMAIN_WIDTH as int),
            cell_lo(min_y_upto(sp[0], sp[0].len() as int), DOMAIN_HEIGHT as int),
            cell_hi(max_y_upto(sp[0], sp[0].len() as int), DOMAIN_HEIGHT as int),
            cell_hi(max_x_upto(sp[0], sp[0].len() as int), DOMAIN_WIDTH as int),
        )
    }
}

/// The vertex emitted for a shifted triangle corner: coordinates mapped back
/// to true longitude and latitude, with the fragment's color.
pub open spec fn vertex_at(x: i32, y: i32, color: u32) -> Vertex {
    Vertex {
        lon_udeg: ((x as int) - (LON_SHIFT as int)) as i64,
        lat_udeg: ((LAT_SHIFT as int) - (y as int)) as i64,
        color,
    }
}

/// How a fragment renders a list of triangles: three vertices per triangle
/// in emission order, each index pointing at its own vertex. When the
/// triangle list would overflow the index type, the fragment is empty.
pub open spec fn fragment_matches(r: Fragment, tris: Seq<FpTri>, color: u32) -> bool {
    &&& r.wf()
    &&& r.identity_indexed()
    &&& 3 * tris.len() <= u32::MAX ==> {
        &&& r.vertices@.len() == 3 * tris.len()
        &&& forall|k: int|
            0 <= k < tris.len() ==> r.vertices@[3 * k] == vertex_at(tris[k].ax, tris[k].ay, color)
                && r.vertices@[3 * k + 1] == vertex_at(tris[k].bx, tris[k].by, color)
                && r.vertices@[3 * k + 2] == vertex_at(tris[k].cx, tris[k].cy, color)
    }
    &&& 3 * tris.len() > u32::MAX ==> r.vertices@.len() == 0
}

/// Builds the closed quad ring of one grid cell.
pub fn cell_rings(cx: i32, cy: i32) -> (r: FpRings)
    requires
        0 <= cx < DOMAIN_WIDTH,
        0 <= cy < DOMAIN_HEIGHT,
    ensures
        rings_view(r@) == cell_quad(cx as int, cy as int),
{
    let x_lo = cx * DEGREE_UNITS;
    let x_hi = (cx + 1) * DEGREE_UNITS;
    let y_lo = cy * DEGREE_UNITS;
    let y_hi = (cy + 1) * DEGREE_UNITS;
    let mut ring: FpRing = Vec::new();
    ring.push((x_lo, y_lo));
    ring.push((x_hi, y_lo));
    ring.push((x_hi, y_hi));
    ring.push((x_lo, y_hi));
    ring.push((x_lo, y_lo));
    let mut r: FpRings = Vec::new();
    r.push(ring);
    proof {
        assert(rings_view(r@) =~= cell_quad(cx as int, cy as int)) by {
            assert(rings_view(r@)[0] =~= cell_quad(cx as int, cy as int)[0]);
        }
    }
    r
}

/// Emits one vertex for a shifted triangle corner.
fn corner_vertex(x: i32, y: i32, color: u32) -> (v: Vertex)
    ensures
        v == vertex_at(x, y, color),
{
    Vertex {
        lon_udeg: (x as i64) - (LON_SHIFT as i64),
        lat_udeg: (LAT_SHIFT as i64) - (y as i64),
        color,
    }
}

/// Turns a list of triangles into a locally indexed fragment: three vertices
/// per triangle, indices counting up from zero.
pub fn fragment_from_tris(tris: &Vec<FpTri>, color: u32) -> (r: Fragment)
    ensures
        fragment_matches(r, tris@, color),
{
    if tris.len() > 1_431_655_765usize {
        return Fragment::empty();
    }
    let n = tris.len();
    let mut vs: Vec<Vertex> = Vec::new();
    let mut ixs: Vec<u32> = Vec::new();
    let mut k: usize = 0;
    while k < n
        invariant
            n == tris@.len(),
            3 * n <= u32::MAX,
            k <= n,
            vs@.len() == 3 * k,
            ixs@.len() == 3 * k,
            forall|j: int|
                0 <= j < k ==> vs@[3 * j] == vertex_at(tris@[j].ax, tris@[j].ay, color)
                    && vs@[3 * j + 1] == vertex_at(tris@[j].bx, tris@[j].by, color)
                    && vs@[3 * j + 2] == vertex_at(tris@[j].cx, tris@[j].cy, color),
            forall|i: int| 0 <= i < 3 * k ==> ixs@[i] as int == i,
        decreases n - k,
    {
        let t = tris[k];
        let base = (3 * k) as u32;
        vs.push(corner_vertex(t.ax, t.ay, color));
        ixs.push(base);
        vs.push(corner_vertex(t.bx, t.by, color));
        ixs.push(base + 1);
        vs.push(corner_vertex(t.cx, t.cy, color));
        ixs.push(base + 2);
        k = k + 1;
    }
    let r = Fragment { vertices: vs, indices: ixs };
    proof {
        assert forall|i: int| 0 <= i < r.indices@.len() implies (r.indices@[i] as int)
            < r.vertices@.len() by {
            assert(r.indices@[i] as int == i);
        }
        assert(r.indices@.len() % 3 == 0);
    }
    r
}

/// Tessellates a polygon already given in shifted degrees: clips it against
/// every unit-degree grid cell its bounding box touches inside the domain,
/// triangulates each clipped part, and emits the triangles as one fragment
/// with true lon/lat vertices.
pub fn draw_polygon_p(rings: &FpRings, color: u32) -> (r: Fragment)
    requires
        shifted_rings_in_range(rings_view(rings@)),
    ensures
        fragment_matches(r, poly_tris(rings_view(rings@)), color),
{
    let ghost sp = rings_view(rings@);
    if rings.len() == 0 {
        return Fragment::empty();
    }
    let outer = &rings[0];
    if outer.len() == 0 {
        assert(sp[0].len() == 0);
        return Fragment::empty();
    }
    assert(sp[0] == outer@);
    let mut min_x = outer[0].0;
    let mut max_x = outer[0].0;
    let mut min_y = outer[0].1;
    let mut max_y = outer[0].1;
    let mut i: usize = 1;
    while i < outer.len()
        invariant
            shifted_rings_in_range(rings_view(rings@)),
            sp == rings_view(rings@),
            rings@.len() > 0,
            sp[0] == outer@,
            outer@ == rings@[0]@,
            1 <= i <= outer@.len(),
            min_x as int == min_x_upto(outer@, i as int),
            max_x as int == max_x_upto(outer@, i as int),
            min_y as int == min_y_upto(outer@, i as int),
            max_y as int == max_y_upto(outer@, i as int),
        decreases outer@.len() - i,
    {
        let p = outer[i];
        if p.0 < min_x {
            min_x = p.0;
        }
        if p.0 > max_x {
            max_x = p.0;
        }
        if p.1 < min_y {
            min_y = p.1;
        }
        if p.1 > max_y {
            max_y = p.1;
        }
        i = i + 1;
    }
    let x0: i32 = if min_x <= 0 {
        0
    } else {
        let q = ((min_x as u32) / (DEGREE_UNITS as u32)) as i32;
        if q >= DOMAIN_WIDTH {
            DOMAIN_WIDTH
        } else {
            q
        }
    };
    let y0: i32 = if min_y <= 0 {
        0
    } else {
        let q = ((min_y as u32) / (DEGREE_UNITS as u32)) as i32;
        if q >= DOMAIN_HEIGHT {
            DOMAIN_HEIGHT
        } else {
            q
        }
    };
    let x1: i32 = if max_x <= 0 {
        0
    } else {
        let q = (((max_x as u32) + ((DEGREE_UNITS as u32) - 1)) / (DEGREE_UNITS as u32)) as i32;
        if q >= DOMAIN_WIDTH {
            DOMAIN_WIDTH
        } else {
            q
        }
    };
    let y1: i32 = if max_y <= 0 {
        0
    } else {
        let q = (((max_y as u32) + ((DEGREE_UNITS as u32) - 1)) / (DEGREE_UNITS as u32)) as i32;
        if q >= DOMAIN_HEIGHT {
            DOMAIN_HEIGHT
        } else {
            q
        }
    };
    assert(x0 as int == cell_lo(min_x_upto(sp[0], sp[0].len() as int), DOMAIN_WIDTH as int));
    assert(y0 as int == cell_lo(min_y_upto(sp[0], sp[0].len() as int), DOMAIN_HEIGHT as int));
    assert(x1 as int == cell_hi(max_x_upto(sp[0], sp[0].len() as int), DOMAIN_WIDTH as int));
    assert(y1 as int == cell_hi(max_y_upto(sp[0], sp[0].len() as int), DOMAIN_HEIGHT as int));
    let mut tris: Vec<FpTri> = Vec::new();
    if x0 < x1 && y0 < y1 {
        let mut cx = x0;
        while cx < x1
            invariant
                shifted_rings_in_range(rings_view(rings@)),
                sp == rings_view(rings@),
                0 <= x0 <= cx <= x1 <= DOMAIN_WIDTH,
                0 <= y0 < y1 <= DOMAIN_HEIGHT,
                tris@ == grid_tris(sp, x0 as int, y0 as int, y1 as int, cx as int),
            decreases x1 - cx,
        {
            let mut cy = y0;
            while cy < y1
                invariant
                    shifted_rings_in_range(rings_view(rings@)),
                    sp == rings_view(rings@),
                    0 <= x0 <= cx < x1 <= DOMAIN_WIDTH,
                    0 <= y0 <= cy <= y1 <= DOMAIN_HEIGHT,
                    tris@ == grid_tris(sp, x0 as int, y0 as int, y1 as int, cx as int)
                        + col_tris(sp, cx as int, y0 as int, cy as int),
                decreases y1 - cy,
            {
                let cell = cell_rings(cx, cy);
                let parts = intersect_polygons(rings, &cell);
                let ghost ip = intersection_parts(sp, cell_quad(cx as int, cy as int));
                proof {
                    assert(rings_view(cell@) == cell_quad(cx as int, cy as int));
                    assert(parts_view(parts@) == ip);
                }
                let mut pi: usize = 0;
                while pi < parts.len()
                    invariant
                        pi <= parts@.len(),
                        parts_view(parts@) == ip,
                        tris@ == grid_tris(sp, x0 as int, y0 as int, y1 as int, cx as int)
                            + col_tris(sp, cx as int, y0 as int, cy as int) + parts_tris_upto(
                            ip,
                            pi as int,
                        ),
                    decreases parts@.len() - pi,
                {
                    proof {
                        assert(parts_view(parts@)[pi as int] == rings_view(parts@[pi as int]@));
                        assert(ip[pi as int] == rings_view(parts@[pi as int]@));
                    }
                    if earcut_ready_exec(&parts[pi]) {
                        let mut ts = earcut_polygon(&parts[pi]);
                        assert(ts@ == part_tris(ip[pi as int]));
                        tris.append(&mut ts);
                    } else {
                        assert(part_tris(ip[pi as int]) =~= Seq::<FpTri>::empty());
                        assert(tris@ + part_tris(ip[pi as int]) =~= tris@);
                    }
                    assert(parts_tris_upto(ip, pi + 1int) == parts_tris_upto(ip, pi as int)
                        + part_tris(ip[pi as int]));
                    pi = pi + 1;
                }
                proof {
                    assert(parts@.len() == ip.len());
                    assert(cell_tris(sp, cx as int, cy as int) == parts_tris_upto(
                        ip,
                        ip.len() as int,
                    ));
                    assert(col_tris(sp, cx as int, y0 as int, cy + 1int) == col_tris(
                        sp,
                        cx as int,
                        y0 as int,
                        cy as int,
                    ) + cell_tris(sp, cx as int, cy as int));
                    assert(tris@ == grid_tris(sp, x0 as int, y0 as int, y1 as int, cx as int)
                        + col_tris(sp, cx as int, y0 as int, cy + 1int));
                }
                cy = cy + 1;
            }
            proof {
                assert(grid_tris(sp, x0 as int, y0 as int, y1 as int, cx + 1int) == grid_tris(
                    sp,
                    x0 as int,
                    y0 as int,
                    y1 as int,
                    cx as int,
                ) + col_tris(sp, cx as int, y0 as int, y1 as int));
            }
            cx = cx + 1;
        }
    } else {
        proof {
            lemma_grid_range_empty(sp, x0 as int, y0 as int, y1 as int, x1 as int);
        }
    }
    assert(tris@ == poly_tris(sp));
    fragment_from_tris(&tris, color)
}

/// A grid sweep over an empty cell range contributes no triangles.
proof fn lemma_grid_range_empty(sp: Seq<Seq<FpPoint>>, x0: int, y0: int, y1: int, x1: int)
    requires
        x1 <= x0 || y1 <= y0,
    ensures
        grid_tris(sp, x0, y0, y1, x1) == Seq::<FpTri>::empty(),
    decreases
            (if x1 >= x0 {
                x1 - x0
            } else {
                0
            }),
{
    if x1 <= x0 {
    } else {
        lemma_grid_range_empty(sp, x0, y0, y1, x1 - 1);
        assert(col_tris(sp, x1 - 1, y0, y1) == Seq::<FpTri>::empty());
        assert(grid_tris(sp, x0, y0, y1, x1) =~= Seq::<FpTri>::empty());
    }
}

/// A polygon whose bounding box lies entirely outside the 0-360 / 0-180
/// shifted domain — wholly left of it, right of it, above it or below it —
/// touches no grid cell: it tessellates to no triangles, so its fragment is
/// empty rather than an error.
pub proof fn lemma_outside_domain_empty(sp: Seq<Seq<FpPoint>>)
    requires
        sp.len() > 0,
        sp[0].len() > 0,
        max_x_upto(sp[0], sp[0].len() as int) <= 0 || min_x_upto(sp[0], sp[0].len() as int) >= (
        DOMAIN_WIDTH as int) * (DEGREE_UNITS as int) || max_y_upto(sp[0], sp[0].len() as int) <= 0
            || min_y_upto(sp[0], sp[0].len() as int) >= (DOMAIN_HEIGHT as int) * (
        DEGREE_UNITS as int),
    ensures
        poly_tris(sp) == Seq::<FpTri>::empty(),
{
    let n = sp[0].len() as int;
    let x0 = cell_lo(min_x_upto(sp[0], n), DOMAIN_WIDTH as int);
    let x1 = cell_hi(max_x_upto(sp[0], n), DOMAIN_WIDTH as int);
    let y0 = cell_lo(min_y_upto(sp[0], n), DOMAIN_HEIGHT as int);
    let y1 = cell_hi(max_y_upto(sp[0], n), DOMAIN_HEIGHT as int);
    if max_x_upto(sp[0], n) <= 0 {
        assert(x1 == 0);
    } else if min_x_upto(sp[0], n) >= (DOMAIN_WIDTH as int) * (DEGREE_UNITS as int) {
        vstd::arithmetic::div_mod::lemma_div_is_ordered(
            (DOMAIN_WIDTH as int) * (DEGREE_UNITS as int),
            min_x_upto(sp[0], n),
            DEGREE_UNITS as int,
        );
        vstd::arithmetic::div_mod::lemma_div_by_multiple(
            DOMAIN_WIDTH as int,
            DEGREE_UNITS as int,
        );
        assert(x0 == DOMAIN_WIDTH as int);
    } else if max_y_upto(sp[0], n) <= 0 {
        assert(y1 == 0);
    } else {
        vstd::arithmetic::div_mod::lemma_div_is_ordered(
            (DOMAIN_HEIGHT as int) * (DEGREE_UNITS as int),
            min_y_upto(sp[0], n),
            DEGREE_UNITS as int,
        );
        vstd::arithmetic::div_mod::lemma_div_by_multiple(
            DOMAIN_HEIGHT as int,
            DEGREE_UNITS as int,
        );
        assert(y0 == DOMAIN_HEIGHT as int);
    }
    assert(x1 <= x0 || y1 <= y0);
    lemma_grid_range_empty(sp, x0, y0, y1, x1);
}

/// Tessellates a polygon given as true lon/lat rings in micro-degrees: the
/// rings are shifted into clipping space, clipped, triangulated, and emitted
/// as one fragment.
pub fn draw_polygon(rings: &FpRings, color: u32) -> (r: Fragment)
    requires
        rings_in_range(rings_view(rings@)),
    ensures
        fragment_matches(r, poly_tris(shifted_rings(rings_view(rings@))), color),
{
    let shifted = shift_rings(rings);
    proof {
        let sv = shifted_rings(rings_view(rings@));
        assert forall|i: int, j: int| 0 <= i < sv.len() && 0 <= j < sv[i].len() implies
            shifted_in_range(sv[i][j]) by {
            assert(crate::coords::in_coord_range(rings_view(rings@)[i][j]));
            assert(sv[i][j] == crate::coords::shifted_point(rings_view(rings@)[i][j]));
        }
    }
    draw_polygon_p(&shifted, color)
}

} // verus!
