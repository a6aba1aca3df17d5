//! Full-globe reference mesh.
//!
//! The base mesh runs the tessellator's triangulate-and-emit step over the
//! whole 0-360 / 0-180 degree grid, every cell taken as fully inside: the
//! cell's own quad is triangulated directly, with no polygon to intersect
//! against.

use vstd::prelude::*;
use crate::clip::{FpTri, earcut_polygon, earcut_tris, earcut_ready, ring_closed_len};
use crate::coords::{rings_view, DOMAIN_WIDTH, DOMAIN_HEIGHT};
use crate::mesh::Fragment;
use crate::tess::{cell_quad, fragment_matches, fragment_from_tris};

verus! {

/// Packed RGBA color of the base globe: the ocean blue.
pub const BLUE_COLOR: u32 = 0x004D_FFFF;

/// The triangles of one fully inside grid cell: its quad, triangulated.
pub open spec fn sphere_cell_tris(cx: int, cy: int) -> Seq<FpTri> {
    earcut_tris(cell_quad(cx, cy))
}

/// Triangles of one grid column, rows `0..cy`.
pub open spec fn sphere_col_tris(cx: int, cy: int) -> Seq<FpTri>
    decreases cy,
{
    if cy <= 0 {
        Seq::empty()
    } else {
        sphere_col_tris(cx, cy - 1) + sphere_cell_tris(cx, cy - 1)
    }
}

/// Triangles of the grid columns `0..cx`, each covering every row.
pub open spec fn sphere_grid_tris(cx: int) -> Seq<FpTri>
    decreases cx,
{
    if cx <= 0 {
        Seq::empty()
    } else {
        sphere_grid_tris(cx - 1) + sphere_col_tris(cx - 1, DOMAIN_HEIGHT as int)
    }
}

/// All triangles of the full-globe reference mesh, in column-then-row order.
pub open spec fn sphere_tris() -> Seq<FpTri> {
    sphere_grid_tris(DOMAIN_WIDTH as int)
}

/// Builds the static full-globe reference mesh: every unit-degree cell of
/// the whole domain triangulated and emitted as one fragment.
pub fn generate_sphere() -> (r: Fragment)
    ensures
        fragment_matches(r, sphere_tris(), BLUE_COLOR),
{
    let mut tris: Vec<FpTri> = Vec::new();
    let mut cx: i32 = 0;
    while cx < DOMAIN_WIDTH
        invariant
            0 <= cx <= DOMAIN_WIDTH,
            tris@ == sphere_grid_tris(cx as int),
        decreases DOMAIN_WIDTH - cx,
    {
        let mut cy: i32 = 0;
        while cy < DOMAIN_HEIGHT
            invariant
                0 <= cx < DOMAIN_WIDTH,
                0 <= cy <= DOMAIN_HEIGHT,
                tris@ == sphere_grid_tris(cx as int) + sphere_col_tris(cx as int, cy as int),
            decreases DOMAIN_HEIGHT - cy,
        {
            let cell = crate::tess::cell_rings(cx, cy);
            proof {
                assert(rings_view(cell@) == cell_quad(cx as int, cy as int));
                let q = cell_quad(cx as int, cy as int);
                assert(q[0].first() == q[0].last());
                assert(ring_closed_len(q[0]) == 5);
                assert forall|i: int| 0 <= i < q.len() implies ring_closed_len(q[i]) >= 4 by {
                    assert(i == 0);
                }
                assert(earcut_ready(q));
            }
            let mut ts = earcut_polygon(&cell);
            tris.append(&mut ts);
            proof {
                assert(sphere_col_tris(cx as int, cy + 1int) == sphere_col_tris(
                    cx as int,
                    cy as int,
                ) + sphere_cell_tris(cx as int, cy as int));
            }
            cy = cy + 1;
        }
        proof {
            assert(sphere_grid_tris(cx + 1int) == sphere_grid_tris(cx as int) + sphere_col_tris(
                cx as int,
                DOMAIN_HEIGHT as int,
            ));
        }
        cx = cx + 1;
    }
    fragment_from_tris(&tris, BLUE_COLOR)
}

} // verus!
