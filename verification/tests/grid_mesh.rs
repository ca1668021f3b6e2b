use procmesh::fixp::{Vec2Fx, Vec3Fx, FX_ONE};
use procmesh::grid::create_plane;

#[test]
fn buffer_lengths_and_index_range() {
    for &segments in &[1u32, 2, 3, 7, 40] {
        for &size in &[1i64, 250_000, FX_ONE, 5 * FX_ONE] {
            let m = create_plane(size, segments);
            let verts: usize = ((segments + 1) * (segments + 1)) as usize;
            assert_eq!(m.positions.len(), verts);
            assert_eq!(m.normals.len(), verts);
            assert_eq!(m.tangents.len(), verts);
            assert_eq!(m.uvs.len(), verts);
            assert_eq!(m.indices.len(), (6 * segments * segments) as usize);
            for &ix in &m.indices {
                assert!((ix as usize) < verts);
            }
        }
    }
}

#[test]
fn zero_segments_is_a_single_point() {
    let m = create_plane(FX_ONE, 0);
    assert_eq!(m.positions.len(), 1);
    assert_eq!(m.indices.len(), 0);
    assert_eq!(m.positions[0], Vec3Fx { x: 0, y: 0, z: 0 });
    assert_eq!(m.uvs[0], Vec2Fx { x: 0, y: 0 });
}

#[test]
fn interior_vertex_position_and_uv() {
    // size 1.0, two segments: the vertex at grid coordinate (1, 1) sits at
    // (1/3, 0, 1/3) with uv (1/3, 1/3), up to the fixed-point lattice.
    let m = create_plane(FX_ONE, 2);
    let i: usize = 1 * 3 + 1;
    assert_eq!(m.positions[i], Vec3Fx { x: 333_333, y: 0, z: 333_333 });
    assert_eq!(m.uvs[i], Vec2Fx { x: 333_333, y: 333_333 });
    let third = 1.0f64 / 3.0;
    let px = m.positions[i].x as f64 / FX_ONE as f64;
    let uy = m.uvs[i].y as f64 / FX_ONE as f64;
    assert!((px - third).abs() < 1e-5);
    assert!((uy - third).abs() < 1e-5);
}

#[test]
fn normals_up_and_tangents_x() {
    for &(size, segments) in &[(FX_ONE, 1u32), (5 * FX_ONE, 4), (777_777, 9)] {
        let m = create_plane(size, segments);
        for v in &m.normals {
            assert_eq!(*v, Vec3Fx { x: 0, y: FX_ONE, z: 0 });
        }
        for v in &m.tangents {
            assert_eq!(*v, Vec3Fx { x: FX_ONE, y: 0, z: 0 });
        }
    }
}

#[test]
fn first_cell_winding() {
    for &segments in &[1u32, 2, 5] {
        let m = create_plane(FX_ONE, segments);
        let w: u32 = segments + 1;
        // Triangle A then triangle B of the first cell.
        assert_eq!(m.indices[0], 0);
        assert_eq!(m.indices[1], w);
        assert_eq!(m.indices[2], 1);
        assert_eq!(m.indices[3], w + 1);
        assert_eq!(m.indices[4], 1);
        assert_eq!(m.indices[5], w);
    }
}

#[test]
fn all_cells_share_the_winding_pattern() {
    let segments: u32 = 3;
    let m = create_plane(2 * FX_ONE, segments);
    let w: u32 = segments + 1;
    for cy in 0..segments {
        for cx in 0..segments {
            let c: usize = (cy * segments + cx) as usize;
            let b: u32 = cy * w + cx;
            assert_eq!(m.indices[6 * c], b);
            assert_eq!(m.indices[6 * c + 1], b + w);
            assert_eq!(m.indices[6 * c + 2], b + 1);
            assert_eq!(m.indices[6 * c + 3], b + w + 1);
            assert_eq!(m.indices[6 * c + 4], b + 1);
            assert_eq!(m.indices[6 * c + 5], b + w);
        }
    }
}

#[test]
fn building_twice_is_bit_identical() {
    let a = create_plane(5 * FX_ONE, 40);
    let b = create_plane(5 * FX_ONE, 40);
    assert_eq!(a.positions, b.positions);
    assert_eq!(a.normals, b.normals);
    assert_eq!(a.tangents, b.tangents);
    assert_eq!(a.uvs, b.uvs);
    assert_eq!(a.indices, b.indices);
}
