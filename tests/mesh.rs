use hopf::mesh::{HopfMeshBuilder, HopfMeshError};
use hopf::sp::SurfacePoint;
use hopf::store::VertexStore;
use hopf::vertex::Vertex;

fn v(x: f32, y: f32, z: f32) -> Vertex {
    Vertex { x: x.to_bits(), y: y.to_bits(), z: z.to_bits() }
}

fn sp(lat_deg: f32, lon_deg: f32) -> SurfacePoint {
    SurfacePoint { lat: lat_deg.to_radians().to_bits(), lon: lon_deg.to_radians().to_bits() }
}

#[test]
fn dedup_is_idempotent() {
    let mut store = VertexStore::new();
    let a = v(1.0, 2.0, 3.0);
    let i = store.add_vertex(&a);
    let j = store.add_vertex(&a);
    assert_eq!(i, 0);
    assert_eq!(i, j);
    assert_eq!(store.len(), 1);
    assert_eq!(store.index_of(&a), Some(0));
}

#[test]
fn dedup_is_bit_exact() {
    let mut store = VertexStore::new();
    // 0.0 and -0.0 compare equal as numbers but differ in their bits.
    let a = v(0.0, 1.0, 1.0);
    let b = v(-0.0, 1.0, 1.0);
    let c = v(f32::from_bits(1), 1.0, 1.0);
    assert_eq!(store.add_vertex(&a), 0);
    assert_eq!(store.add_vertex(&b), 1);
    assert_eq!(store.add_vertex(&c), 2);
    assert_eq!(store.add_vertex(&a), 0);
    assert_eq!(store.vertices(), &vec![a, b, c]);
    assert_eq!(store.index_of(&v(9.0, 9.0, 9.0)), None);
}

#[test]
fn triangle_shares_vertices_and_keeps_winding() {
    let mut b = HopfMeshBuilder::new(&sp(10.0, 0.0), &sp(10.0, 270.0), 2, 100);
    let (p0, p1, p2, p3) = (v(0.0, 0.0, 0.0), v(1.0, 0.0, 0.0), v(1.0, 1.0, 0.0), v(0.0, 1.0, 0.0));
    b.add_triangle(&p0, &p1, &p3);
    b.add_triangle(&p1, &p2, &p3);
    assert_eq!(b.vertex_count(), 4);
    assert_eq!(b.triangle_count(), 2);
    let m = b.build();
    assert_eq!(m.indices, vec![0, 1, 2, 1, 3, 2]);
    assert_eq!(m.positions, vec![p0, p1, p3, p2]);
    // p2 first appears in the second triangle.
    assert_eq!(m.normal_faces, vec![0, 0, 0, 1]);
}

#[test]
fn add_vertex_reuses_index() {
    let mut b = HopfMeshBuilder::new(&sp(10.0, 0.0), &sp(10.0, 270.0), 2, 100);
    let a = v(0.5, 0.25, 0.125);
    assert_eq!(b.add_vertex(&a), 0);
    assert_eq!(b.add_vertex(&v(1.0, 1.0, 1.0)), 1);
    assert_eq!(b.add_vertex(&a), 0);
    assert_eq!(b.vertex_count(), 2);
}

#[test]
fn builder_keeps_settings() {
    let b = HopfMeshBuilder::new(&sp(10.0, 0.0), &sp(10.0, 270.0), 27, 2000);
    assert_eq!(b.line_start(), sp(10.0, 0.0));
    assert_eq!(b.line_end(), sp(10.0, 270.0));
    assert_eq!(b.n_loops(), 27);
    assert_eq!(b.n_tries(), 2000);
}

#[test]
fn construct_without_loops_is_a_line_error() {
    let b = HopfMeshBuilder::new(&sp(10.0, 0.0), &sp(10.0, 0.0), 0, 100);
    match b.construct(&vec![]) {
        Err(e) => assert_eq!(
            e,
            HopfMeshError::LineError { lines_start: sp(10.0, 0.0), lines_end: sp(10.0, 0.0) }
        ),
        Ok(_) => panic!("a mesh without loops"),
    }
}

/// `n_loops` loops of `n_points` distinct points each.
fn grid(n_loops: usize, n_points: usize) -> Vec<Vec<Vertex>> {
    (0..n_loops)
        .map(|c| (0..n_points).map(|i| v(c as f32, i as f32, 1.0)).collect())
        .collect()
}

#[test]
fn end_to_end_counts() {
    let loops = grid(27, 40);
    let b = HopfMeshBuilder::new(&sp(10.0, 0.0), &sp(10.0, 270.0), 27, 2000);
    let b = match b.construct(&loops) {
        Ok(b) => b,
        Err(e) => panic!("{e:?}"),
    };
    assert_eq!(b.triangle_count(), (27 - 1) * (40 - 1) * 2);
    assert!(b.vertex_count() <= 27 * 40);
    assert_eq!(b.vertex_count(), 27 * 40);
    let m = b.build();
    assert_eq!(m.positions.len(), m.normal_faces.len());
    assert_eq!(m.indices.len(), 3 * (27 - 1) * (40 - 1) * 2);
    // The first quad: prev[0], prev[1], curr[1], curr[0] as (p0, p1, p3), (p1, p2, p3).
    let at = |k: usize| m.positions[m.indices[k] as usize];
    assert_eq!(at(0), loops[0][0]);
    assert_eq!(at(1), loops[0][1]);
    assert_eq!(at(2), loops[1][0]);
    assert_eq!(at(3), loops[0][1]);
    assert_eq!(at(4), loops[1][1]);
    assert_eq!(at(5), loops[1][0]);
    assert!(m.indices.iter().all(|&i| (i as usize) < m.positions.len()));
}

#[test]
fn closed_loops_share_their_seam() {
    // Each loop ends where it starts, as a fibre sampled over its whole domain.
    let mut loops = grid(5, 8);
    for l in loops.iter_mut() {
        let first = l[0];
        l[7] = first;
    }
    let b = HopfMeshBuilder::new(&sp(10.0, 0.0), &sp(10.0, 270.0), 5, 10);
    let b = match b.construct(&loops) {
        Ok(b) => b,
        Err(e) => panic!("{e:?}"),
    };
    assert_eq!(b.triangle_count(), 4 * 7 * 2);
    assert_eq!(b.vertex_count(), 5 * 7);
    let m = b.build();
    assert_eq!(m.positions.len(), m.normal_faces.len());
}

#[test]
fn single_loop_has_no_triangles() {
    let loops = grid(1, 40);
    let b = HopfMeshBuilder::new(&sp(10.0, 0.0), &sp(10.0, 270.0), 1, 10);
    let b = match b.construct(&loops) {
        Ok(b) => b,
        Err(e) => panic!("{e:?}"),
    };
    assert_eq!(b.triangle_count(), 0);
    assert_eq!(b.vertex_count(), 0);
}

#[test]
fn construct_on_a_degenerate_seed_line_is_a_line_error() {
    let b = HopfMeshBuilder::new(&sp(10.0, 0.0), &sp(10.0, 0.0), 27, 100);
    match b.construct(&grid(27, 40)) {
        Err(e) => assert_eq!(
            e,
            HopfMeshError::LineError { lines_start: sp(10.0, 0.0), lines_end: sp(10.0, 0.0) }
        ),
        Ok(_) => panic!("a mesh over a seed line that starts where it ends"),
    }
}
