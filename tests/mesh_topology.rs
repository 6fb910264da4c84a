use raiden_rs::mesh::{Mesh, DEFAULT_INSTANCE_CAPACITY};
use raiden_rs::primitives::{
    cube_edge_indices, cube_indices, faces_incident_to, tetrahedron_edge_indices,
    tetrahedron_indices, CUBE_VERTEX_COUNT, TETRAHEDRON_VERTEX_COUNT,
};
use raiden_rs::sphere::{sphere_edge_indices, sphere_indices, sphere_vertex_points, SpherePoint};

fn vertex_count(d: usize) -> usize {
    2 + (d - 1) * 2 * d
}

#[test]
fn sphere_counts_match_formulas() {
    for d in [2usize, 3, 4, 10, 20] {
        let m = Mesh::new_sphere(d);
        assert_eq!(m.vertex_count, vertex_count(d));
        assert_eq!(m.indices.len(), 6 * 2 * d * (d - 1));
        assert_eq!(m.edge_indices.len(), 2 * 2 * d * (2 * d - 1));
        assert_eq!(sphere_vertex_points(d).len(), vertex_count(d));
    }
}

#[test]
fn sphere_of_ten_divisions_sizes() {
    let m = Mesh::new_sphere(10);
    assert_eq!(m.vertex_count, 182);
    assert_eq!(m.indices.len(), 1080);
    assert_eq!(m.edge_indices.len(), 760);
}

#[test]
fn sphere_indices_name_existing_vertices() {
    for d in [2usize, 3, 7, 10, 181] {
        let n = vertex_count(d);
        assert!(sphere_indices(d).iter().all(|&i| (i as usize) < n));
        assert!(sphere_edge_indices(d).iter().all(|&i| (i as usize) < n));
    }
}

#[test]
fn sphere_two_divisions_exact_indices() {
    // Four segments, one interior ring of vertices 1..=4, south pole 5.
    let expected: Vec<u16> = vec![
        0, 2, 1, 0, 3, 2, 0, 4, 3, 0, 1, 4, // north cap
        1, 2, 5, 2, 3, 5, 3, 4, 5, 4, 1, 5, // south cap
    ];
    assert_eq!(sphere_indices(2), expected);
}

#[test]
fn sphere_two_divisions_exact_edges() {
    let expected: Vec<u16> = vec![
        0, 1, 1, 5, 0, 2, 2, 5, 0, 3, 3, 5, 0, 4, 4, 5, // meridians
        1, 2, 2, 3, 3, 4, 4, 1, // the ring
    ];
    assert_eq!(sphere_edge_indices(2), expected);
}

#[test]
fn sphere_three_divisions_band_quads() {
    // Six segments; ring 0 is vertices 1..=6, ring 1 is 7..=12, south pole 13.
    let idx = sphere_indices(3);
    assert_eq!(idx.len(), 6 * 6 * 2);
    // The north cap takes 18 indices; the first quad of the band follows.
    assert_eq!(&idx[18..24], &[1, 2, 7, 2, 8, 7]);
    // Last quad of the band wraps around the ring.
    assert_eq!(&idx[48..54], &[6, 1, 12, 1, 7, 12]);
    // Last triangle of the south cap.
    assert_eq!(&idx[69..72], &[12, 7, 13]);
}

#[test]
fn sphere_edges_are_distinct() {
    for d in [2usize, 3, 5, 10] {
        let e = sphere_edge_indices(d);
        let mut pairs: Vec<(u16, u16)> = e
            .chunks(2)
            .map(|p| (p[0].min(p[1]), p[0].max(p[1])))
            .collect();
        let total = pairs.len();
        pairs.sort();
        pairs.dedup();
        assert_eq!(pairs.len(), total);
    }
}

#[test]
fn sphere_vertex_layout() {
    let pts = sphere_vertex_points(3);
    assert_eq!(pts.len(), 14);
    assert_eq!(pts[0], SpherePoint::NorthPole);
    assert_eq!(pts[13], SpherePoint::SouthPole);
    assert_eq!(pts[1], SpherePoint::Ring { polar_step: 1, segment: 0 });
    assert_eq!(pts[1 + 6 + 2], SpherePoint::Ring { polar_step: 2, segment: 2 });
    assert_eq!(pts[12], SpherePoint::Ring { polar_step: 2, segment: 5 });
}

#[test]
fn cube_tables() {
    let i = cube_indices();
    let e = cube_edge_indices();
    assert_eq!(i.len(), 36);
    assert_eq!(e.len(), 24);
    assert_eq!(&i[0..6], &[0, 1, 3, 0, 3, 2]);
    assert_eq!(&e[16..24], &[0, 4, 1, 5, 2, 6, 3, 7]);
    assert!(i.iter().chain(e.iter()).all(|&v| (v as usize) < CUBE_VERTEX_COUNT));
    let m = Mesh::new_cube();
    assert_eq!(m.vertex_count, 8);
    assert_eq!(m.indices, i);
    assert_eq!(m.edge_indices, e);
    assert_eq!(m.instance_capacity, DEFAULT_INSTANCE_CAPACITY);
    assert_eq!(m.edge_instance_capacity, DEFAULT_INSTANCE_CAPACITY);
}

#[test]
fn tetrahedron_tables() {
    let i = tetrahedron_indices();
    let e = tetrahedron_edge_indices();
    assert_eq!(i, vec![0, 1, 2, 0, 2, 3, 2, 1, 3, 1, 0, 3]);
    assert_eq!(e, vec![0, 1, 1, 2, 2, 0, 0, 3, 1, 3, 2, 3]);
    let m = Mesh::new_tetrahedron();
    assert_eq!(m.vertex_count, TETRAHEDRON_VERTEX_COUNT);
    assert_eq!(m.indices, i);
}

#[test]
fn tetrahedron_vertices_each_on_three_faces() {
    let i = tetrahedron_indices();
    assert_eq!(faces_incident_to(&i, 0), vec![0, 1, 3]);
    assert_eq!(faces_incident_to(&i, 1), vec![0, 2, 3]);
    assert_eq!(faces_incident_to(&i, 2), vec![0, 1, 2]);
    assert_eq!(faces_incident_to(&i, 3), vec![1, 2, 3]);
}

#[test]
fn incident_faces_of_unused_vertex_is_empty() {
    assert_eq!(faces_incident_to(&tetrahedron_indices(), 7), Vec::<usize>::new());
    assert_eq!(faces_incident_to(&Vec::new(), 0), Vec::<usize>::new());
}

#[test]
fn cube_corner_on_six_triangles() {
    // Corner 0 lies on triangles of the front, right and top faces.
    assert_eq!(faces_incident_to(&cube_indices(), 0), vec![0, 1, 6, 9]);
    assert_eq!(faces_incident_to(&cube_indices(), 4), vec![2, 6, 7, 8, 9]);
}
