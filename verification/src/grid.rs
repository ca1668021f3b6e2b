//! A triangulated ground plane built over a regular grid: `segments + 1`
//! vertices per side in row-major order, two triangles per interior cell.
//!
//! Normals are fixed to world-up and tangents to +X: the plane is flat until a
//! later height displacement recomputes them; the grid traversal does not
//! depend on that choice.

use crate::fixp::{Vec2Fx, Vec3Fx, FX_ONE};
use vstd::arithmetic::div_mod::{
    lemma_div_nonincreasing, lemma_div_pos_is_pos, lemma_fundamental_div_mod_converse,
};
use vstd::prelude::*;

verus! {

/// Largest accepted subdivision count: keeps every vertex index inside `u32`.
pub const SEGMENTS_MAX: u32 = 65_534;

/// Largest accepted plane extent, in fixed-point units.
pub const SIZE_MAX: i64 = 1_000_000_000_000;

/// The vertex and index buffers of one plane mesh, as a triangle list.
#[derive(Debug, PartialEq)]
pub struct MeshBuffers {
    pub positions: Vec<Vec3Fx>,
    pub normals: Vec<Vec3Fx>,
    pub tangents: Vec<Vec3Fx>,
    pub uvs: Vec<Vec2Fx>,
    pub indices: Vec<u32>,
}

/// Vertices per side of the grid.
pub open spec fn grid_width(segments: u32) -> int {
    segments as int + 1
}

/// Total vertex count of the grid.
pub open spec fn vert_count(segments: u32) -> int {
    grid_width(segments) * grid_width(segments)
}

/// Total interior cell count of the grid.
pub open spec fn cell_count(segments: u32) -> int {
    (segments as int) * (segments as int)
}

/// World-space spacing between neighbouring vertices.
pub open spec fn vert_step(size: i64, segments: u32) -> int {
    (size as int) / grid_width(segments)
}

/// Texture-space spacing between neighbouring vertices.
pub open spec fn uv_step(segments: u32) -> int {
    (FX_ONE as int) / grid_width(segments)
}

/// Column of the vertex with flat index `i`.
pub open spec fn vert_col(segments: u32, i: int) -> int {
    i % grid_width(segments)
}

/// Row of the vertex with flat index `i`.
pub open spec fn vert_row(segments: u32, i: int) -> int {
    i / grid_width(segments)
}

/// The attributes of vertex `i`: position on the flat lattice, uv scaled into
/// the unit square, normal fixed to world-up, tangent fixed to +X.
pub open spec fn vertex_ok(
    positions: Seq<Vec3Fx>,
    uvs: Seq<Vec2Fx>,
    normals: Seq<Vec3Fx>,
    tangents: Seq<Vec3Fx>,
    size: i64,
    segments: u32,
    i: int,
) -> bool {
    let c = vert_col(segments, i);
    let r = vert_row(segments, i);
    &&& positions[i].x == c * vert_step(size, segments)
    &&& positions[i].y == 0
    &&& positions[i].z == r * vert_step(size, segments)
    &&& uvs[i].x == c * uv_step(segments)
    &&& uvs[i].y == r * uv_step(segments)
    &&& normals[i] == (Vec3Fx { x: 0, y: FX_ONE, z: 0 })
    &&& tangents[i] == (Vec3Fx { x: FX_ONE, y: 0, z: 0 })
}

/// Flat index of the top-left vertex of cell `c` (cells in row-major order).
pub open spec fn cell_base(segments: u32, c: int) -> int {
    (c / (segments as int)) * grid_width(segments) + c % (segments as int)
}

/// The six indices of cell `c`: two triangles over the cell's four corners,
/// wound so that the face of each points along the up normal.
pub open spec fn cell_ok(indices: Seq<u32>, segments: u32, c: int) -> bool {
    let b = cell_base(segments, c);
    let w = grid_width(segments);
    &&& indices[6 * c] as int == b
    &&& indices[6 * c + 1] as int == b + w
    &&& indices[6 * c + 2] as int == b + 1
    &&& indices[6 * c + 3] as int == b + w + 1
    &&& indices[6 * c + 4] as int == b + 1
    &&& indices[6 * c + 5] as int == b + w
}

/// Everything `create_plane` promises of its result: buffer lengths, every
/// vertex attribute, every cell's winding, and every index in range.
pub open spec fn is_grid_mesh(m: MeshBuffers, size: i64, segments: u32) -> bool {
    &&& m.positions@.len() == vert_count(segments)
    &&& m.normals@.len() == vert_count(segments)
    &&& m.tangents@.len() == vert_count(segments)
    &&& m.uvs@.len() == vert_count(segments)
    &&& m.indices@.len() == 6 * cell_count(segments)
    &&& forall|i: int|
        0 <= i < vert_count(segments) ==> #[trigger] vertex_ok(
            m.positions@,
            m.uvs@,
            m.normals@,
            m.tangents@,
            size,
            segments,
            i,
        )
    &&& forall|c: int| 0 <= c < cell_count(segments) ==> #[trigger] cell_ok(m.indices@, segments, c)
    &&& forall|k: int|
        0 <= k < m.indices@.len() ==> (#[trigger] m.indices@[k]) < vert_count(segments)
}

/// Builds the plane mesh: a `(segments + 1) x (segments + 1)` lattice of
/// vertices spaced `size / (segments + 1)` apart, with two triangles per
/// interior cell. `segments == 0` yields a single vertex and no triangles.
pub fn create_plane(size: i64, segments: u32) -> (m: MeshBuffers)
    requires
        0 < size <= SIZE_MAX,
        segments <= SEGMENTS_MAX,
    ensures
        is_grid_mesh(m, size, segments),
{
    let w: u32 = segments + 1;
    let vstep: i64 = size / (w as i64);
    let ustep: i64 = FX_ONE / (w as i64);
    proof {
        lemma_div_pos_is_pos(size as int, w as int);
        lemma_div_nonincreasing(size as int, w as int);
        lemma_div_pos_is_pos(FX_ONE as int, w as int);
        lemma_div_nonincreasing(FX_ONE as int, w as int);
    }

    let mut positions: Vec<Vec3Fx> = Vec::new();
    let mut uvs: Vec<Vec2Fx> = Vec::new();
    let mut normals: Vec<Vec3Fx> = Vec::new();
    let mut tangents: Vec<Vec3Fx> = Vec::new();

    let mut y: u32 = 0;
    while y < w
        invariant
            w == grid_width(segments),
            0 < size <= SIZE_MAX,
            segments <= SEGMENTS_MAX,
            0 <= y <= w,
            vstep == vert_step(size, segments),
            0 <= vstep <= SIZE_MAX,
            ustep == uv_step(segments),
            0 <= ustep <= FX_ONE,
            positions@.len() == y * w,
            uvs@.len() == y * w,
            normals@.len() == y * w,
            tangents@.len() == y * w,
            forall|i: int|
                0 <= i < y * w ==> #[trigger] vertex_ok(
                    positions@,
                    uvs@,
                    normals@,
                    tangents@,
                    size,
                    segments,
                    i,
                ),
        decreases w - y,
    {
        let mut x: u32 = 0;
        while x < w
            invariant
                w == grid_width(segments),
                0 < size <= SIZE_MAX,
                segments <= SEGMENTS_MAX,
                0 <= y < w,
                0 <= x <= w,
                vstep == vert_step(size, segments),
                0 <= vstep <= SIZE_MAX,
                ustep == uv_step(segments),
                0 <= ustep <= FX_ONE,
                positions@.len() == y * w + x,
                uvs@.len() == y * w + x,
                normals@.len() == y * w + x,
                tangents@.len() == y * w + x,
                forall|i: int|
                    0 <= i < y * w + x ==> #[trigger] vertex_ok(
                        positions@,
                        uvs@,
                        normals@,
                        tangents@,
                        size,
                        segments,
                        i,
                    ),
            decreases w - x,
        {
            proof {
                assert(0 <= (x as int) * (vstep as int) <= 65535 * 1_000_000_000_000)
                    by (nonlinear_arith)
                    requires
                        0 <= x < 65536,
                        0 <= vstep <= 1_000_000_000_000,
                ;
                assert(0 <= (y as int) * (vstep as int) <= 65535 * 1_000_000_000_000)
                    by (nonlinear_arith)
                    requires
                        0 <= y < 65536,
                        0 <= vstep <= 1_000_000_000_000,
                ;
                assert(0 <= (x as int) * (ustep as int) <= 65535 * 1_000_000)
                    by (nonlinear_arith)
                    requires
                        0 <= x < 65536,
                        0 <= ustep <= 1_000_000,
                ;
                assert(0 <= (y as int) * (ustep as int) <= 65535 * 1_000_000)
                    by (nonlinear_arith)
                    requires
                        0 <= y < 65536,
                        0 <= ustep <= 1_000_000,
                ;
            }
            let ghost p0 = positions@;
            let ghost u0 = uvs@;
            let ghost n0 = normals@;
            let ghost t0 = tangents@;
            positions.push(
                Vec3Fx { x: (x as i64) * vstep, y: 0, z: (y as i64) * vstep },
            );
            uvs.push(Vec2Fx { x: (x as i64) * ustep, y: (y as i64) * ustep });
            normals.push(Vec3Fx { x: 0, y: FX_ONE, z: 0 });
            tangents.push(Vec3Fx { x: FX_ONE, y: 0, z: 0 });
            proof {
                lemma_fundamental_div_mod_converse(
                    (y * w + x) as int,
                    w as int,
                    y as int,
                    x as int,
                );
                assert forall|i: int| 0 <= i < y * w + x + 1 implies vertex_ok(
                    positions@,
                    uvs@,
                    normals@,
                    tangents@,
                    size,
                    segments,
                    i,
                ) by {
                    if i < y * w + x {
                        assert(vertex_ok(p0, u0, n0, t0, size, segments, i));
                    }
                }
            }
            x = x + 1;
        }
        proof {
            assert(y * w + w == (y + 1) * w) by (nonlinear_arith);
        }
        y = y + 1;
    }
    proof {
        assert(positions@.len() == vert_count(segments));
    }

    let mut indices: Vec<u32> = Vec::new();
    let mut cy: u32 = 0;
    while cy < segments
        invariant
            w == grid_width(segments),
            segments <= SEGMENTS_MAX,
            0 <= cy <= segments,
            indices@.len() == 6 * (cy * segments),
            forall|c: int|
                0 <= c < cy * segments ==> #[trigger] cell_ok(indices@, segments, c),
            forall|k: int|
                0 <= k < indices@.len() ==> (#[trigger] indices@[k]) < vert_count(segments),
        decreases segments - cy,
    {
        let mut cx: u32 = 0;
        while cx < segments
            invariant
                w == grid_width(segments),
                1 <= segments <= SEGMENTS_MAX,
                0 <= cy < segments,
                0 <= cx <= segments,
                indices@.len() == 6 * (cy * segments + cx),
                forall|c: int|
                    0 <= c < cy * segments + cx ==> #[trigger] cell_ok(indices@, segments, c),
                forall|k: int|
                    0 <= k < indices@.len() ==> (#[trigger] indices@[k]) < vert_count(segments),
            decreases segments - cx,
        {
            proof {
                assert((cy as int) * (w as int) + (cx as int) + (w as int) + 1 < vert_count(
                    segments,
                ) && vert_count(segments) <= 4_294_967_295) by (nonlinear_arith)
                    requires
                        w == segments as int + 1,
                        vert_count(segments) == (w as int) * (w as int),
                        0 <= cy < segments as int,
                        0 <= cx < segments as int,
                        1 <= segments <= 65_534,
                ;
            }
            let b: u32 = cy * w + cx;
            let ghost ix0 = indices@;
            indices.push(b);
            indices.push(b + w);
            indices.push(b + 1);
            indices.push(b + w + 1);
            indices.push(b + 1);
            indices.push(b + w);
            proof {
                lemma_fundamental_div_mod_converse(
                    (cy * segments + cx) as int,
                    segments as int,
                    cy as int,
                    cx as int,
                );
                assert(cell_ok(indices@, segments, (cy * segments + cx) as int));
                assert forall|c: int| 0 <= c < cy * segments + cx + 1 implies cell_ok(
                    indices@,
                    segments,
                    c,
                ) by {
                    if c < cy * segments + cx {
                        assert(cell_ok(ix0, segments, c));
                    }
                }
            }
            cx = cx + 1;
        }
        proof {
            assert(cy * segments + segments == (cy + 1) * segments) by (nonlinear_arith);
        }
        cy = cy + 1;
    }
    proof {
        assert(indices@.len() == 6 * cell_count(segments));
    }

    MeshBuffers { positions, normals, tangents, uvs, indices }
}

/// Building a plane is deterministic: any two meshes that satisfy the
/// builder's contract for the same `size` and `segments` hold identical
/// buffers, so calling the builder twice with the same parameters yields
/// bit-identical results.
pub proof fn lemma_create_plane_deterministic(a: MeshBuffers, b: MeshBuffers, size: i64, segments: u32)
    requires
        is_grid_mesh(a, size, segments),
        is_grid_mesh(b, size, segments),
    ensures
        a.positions@ == b.positions@,
        a.normals@ == b.normals@,
        a.tangents@ == b.tangents@,
        a.uvs@ == b.uvs@,
        a.indices@ == b.indices@,
{
    assert forall|i: int| 0 <= i < vert_count(segments) implies a.positions@[i] == b.positions@[i]
        && a.normals@[i] == b.normals@[i] && a.tangents@[i] == b.tangents@[i] && a.uvs@[i]
        == b.uvs@[i] by {
        assert(vertex_ok(a.positions@, a.uvs@, a.normals@, a.tangents@, size, segments, i));
        assert(vertex_ok(b.positions@, b.uvs@, b.normals@, b.tangents@, size, segments, i));
    }
    assert forall|k: int| 0 <= k < 6 * cell_count(segments) implies a.indices@[k]
        == b.indices@[k] by {
        let c = k / 6;
        assert(0 <= c < cell_count(segments));
        assert(cell_ok(a.indices@, segments, c));
        assert(cell_ok(b.indices@, segments, c));
        assert(k == 6 * c + k % 6);
    }
    assert(a.positions@ =~= b.positions@);
    assert(a.normals@ =~= b.normals@);
    assert(a.tangents@ =~= b.tangents@);
    assert(a.uvs@ =~= b.uvs@);
    assert(a.indices@ =~= b.indices@);
}

} // verus!
