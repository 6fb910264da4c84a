use raiden_rs::camera::aspect_fraction;
use raiden_rs::capacity::grown_capacity;
use raiden_rs::mesh::{Mesh, MeshType, DEFAULT_INSTANCE_CAPACITY};
use raiden_rs::renderer::{members_of_type, MeshStore, Pass, SPHERE_DIVISIONS};

#[test]
fn growth_doubles_to_smallest_sufficient_multiple() {
    assert_eq!(grown_capacity(100, 250), 400);
    assert_eq!(grown_capacity(100, 101), 200);
    assert_eq!(grown_capacity(100, 200), 200);
    assert_eq!(grown_capacity(3, 7), 12);
    assert_eq!(grown_capacity(1, 1025), 2048);
}

#[test]
fn growth_keeps_sufficient_capacity() {
    assert_eq!(grown_capacity(100, 0), 100);
    assert_eq!(grown_capacity(100, 50), 100);
    assert_eq!(grown_capacity(100, 100), 100);
}

#[test]
fn growth_at_the_largest_count() {
    let half = usize::MAX / 2;
    let r = grown_capacity(1, half);
    assert!(r >= half);
    assert!(r.is_power_of_two());
    assert!(r / 2 < half);
}

#[test]
fn growth_never_shrinks_across_calls() {
    let mut m = Mesh::new_cube();
    m.realloc_instance_buffer(250);
    assert_eq!(m.instance_capacity, 400);
    m.realloc_instance_buffer(10);
    assert_eq!(m.instance_capacity, 400);
    m.realloc_instance_buffer(401);
    assert_eq!(m.instance_capacity, 800);
    assert_eq!(m.edge_instance_capacity, DEFAULT_INSTANCE_CAPACITY);
    m.realloc_edge_instance_buffer(150);
    assert_eq!(m.edge_instance_capacity, 200);
    assert_eq!(m.instance_capacity, 800);
}

#[test]
fn members_follow_request_order() {
    let types = vec![
        MeshType::Cube,
        MeshType::Sphere,
        MeshType::Cube,
        MeshType::Triangle,
        MeshType::Cube,
    ];
    assert_eq!(members_of_type(&types, MeshType::Cube), vec![0, 2, 4]);
    assert_eq!(members_of_type(&types, MeshType::Sphere), vec![1]);
    assert_eq!(members_of_type(&types, MeshType::Tetrahedron), Vec::<usize>::new());
    assert_eq!(members_of_type(&Vec::new(), MeshType::Cube), Vec::<usize>::new());
}

#[test]
fn plan_solid_and_outline_passes() {
    let mut store = MeshStore::new(SPHERE_DIVISIONS);
    let types = vec![MeshType::Cube, MeshType::Sphere, MeshType::Cube];
    let solid = store.plan(Pass::Solid, MeshType::Cube, &types).unwrap();
    assert_eq!(solid.members, vec![0, 2]);
    assert_eq!(solid.index_count, 36);
    assert_eq!(solid.capacity, DEFAULT_INSTANCE_CAPACITY);
    assert!(!solid.grew);
    let outline = store.plan(Pass::Outline, MeshType::Cube, &types).unwrap();
    assert_eq!(outline.members, vec![0, 2]);
    assert_eq!(outline.index_count, 24);
    let sphere = store.plan(Pass::Solid, MeshType::Sphere, &types).unwrap();
    assert_eq!(sphere.members, vec![1]);
    assert_eq!(sphere.index_count, 1080);
    let sphere_outline = store.plan(Pass::Outline, MeshType::Sphere, &types).unwrap();
    assert_eq!(sphere_outline.index_count, 760);
}

#[test]
fn plan_skips_type_without_geometry() {
    let mut store = MeshStore::new(SPHERE_DIVISIONS);
    let types = vec![MeshType::Triangle, MeshType::Cube];
    assert!(store.plan(Pass::Solid, MeshType::Triangle, &types).is_none());
    assert!(store.plan(Pass::Outline, MeshType::Triangle, &types).is_none());
    assert!(store.mesh(MeshType::Triangle).is_none());
    assert_eq!(store.mesh(MeshType::Tetrahedron).unwrap().vertex_count, 4);
}

#[test]
fn plan_grows_only_the_pass_buffer() {
    let mut store = MeshStore::new(SPHERE_DIVISIONS);
    let many = vec![MeshType::Tetrahedron; 250];
    let p = store.plan(Pass::Solid, MeshType::Tetrahedron, &many).unwrap();
    assert!(p.grew);
    assert_eq!(p.capacity, 400);
    assert_eq!(p.members.len(), 250);
    assert_eq!(store.tetrahedron.instance_capacity, 400);
    assert_eq!(store.tetrahedron.edge_instance_capacity, DEFAULT_INSTANCE_CAPACITY);
    assert_eq!(store.cube.instance_capacity, DEFAULT_INSTANCE_CAPACITY);

    let few = vec![MeshType::Tetrahedron; 3];
    let q = store.plan(Pass::Solid, MeshType::Tetrahedron, &few).unwrap();
    assert!(!q.grew);
    assert_eq!(q.capacity, 400);

    let o = store.plan(Pass::Outline, MeshType::Tetrahedron, &many).unwrap();
    assert!(o.grew);
    assert_eq!(o.capacity, 400);
    assert_eq!(o.index_count, 12);
}

#[test]
fn aspect_of_degenerate_viewport_is_square() {
    assert_eq!(aspect_fraction(0, 0), (1, 1));
    assert_eq!(aspect_fraction(0, 720), (1, 1));
    assert_eq!(aspect_fraction(1280, 0), (1, 1));
    let (n, d) = aspect_fraction(0, 0);
    assert_eq!(n as f32 / d as f32, 1.0);
}

#[test]
fn aspect_of_regular_viewport() {
    assert_eq!(aspect_fraction(1920, 1080), (1920, 1080));
    assert_eq!(aspect_fraction(1, 1), (1, 1));
}
