//! Fixed topology of the cube and the tetrahedron, and the face incidence that vertex
//! normals are averaged over.
use crate::selection::{lemma_lists_exactly_empty, lemma_lists_exactly_extend, lists_exactly};
use vstd::prelude::*;

verus! {

/// Vertices of the cube: the eight corners of `[-1, 1]^3`.
pub const CUBE_VERTEX_COUNT: usize = 8;

/// Vertices of the tetrahedron.
pub const TETRAHEDRON_VERTEX_COUNT: usize = 4;

/// The cube's twelve triangles, two per face: front, back, left, right, top, bottom.
pub open spec fn cube_index_table() -> Seq<u16> {
    seq![
        0u16, 1, 3, 0, 3, 2,
        5, 4, 6, 5, 6, 7,
        1, 5, 7, 1, 7, 3,
        4, 0, 2, 4, 2, 6,
        4, 5, 1, 4, 1, 0,
        7, 6, 2, 7, 2, 3,
    ]
}

/// The cube's twelve edges: the front square, the back square, and the four edges
/// joining them.
pub open spec fn cube_edge_table() -> Seq<u16> {
    seq![
        0u16, 1, 1, 3, 3, 2, 2, 0,
        4, 5, 5, 7, 7, 6, 6, 4,
        0, 4, 1, 5, 2, 6, 3, 7,
    ]
}

/// The tetrahedron's four triangles.
pub open spec fn tetrahedron_index_table() -> Seq<u16> {
    seq![0u16, 1, 2, 0, 2, 3, 2, 1, 3, 1, 0, 3]
}

/// The tetrahedron's six edges.
pub open spec fn tetrahedron_edge_table() -> Seq<u16> {
    seq![0u16, 1, 1, 2, 2, 0, 0, 3, 1, 3, 2, 3]
}

/// Every index of `s` is below `n`.
pub open spec fn all_below(s: Seq<u16>, n: int) -> bool {
    forall|i: int| 0 <= i < s.len() ==> (#[trigger] s[i]) < n
}

/// The cube's triangle index list.
pub fn cube_indices() -> (r: Vec<u16>)
    ensures
        r@ == cube_index_table(),
        all_below(r@, CUBE_VERTEX_COUNT as int),
{
    let r = vec![
        0u16, 1, 3, 0, 3, 2,
        5, 4, 6, 5, 6, 7,
        1, 5, 7, 1, 7, 3,
        4, 0, 2, 4, 2, 6,
        4, 5, 1, 4, 1, 0,
        7, 6, 2, 7, 2, 3,
    ];
    assert(r@ =~= cube_index_table());
    r
}

/// The cube's edge index list.
pub fn cube_edge_indices() -> (r: Vec<u16>)
    ensures
        r@ == cube_edge_table(),
        all_below(r@, CUBE_VERTEX_COUNT as int),
{
    let r = vec![
        0u16, 1, 1, 3, 3, 2, 2, 0,
        4, 5, 5, 7, 7, 6, 6, 4,
        0, 4, 1, 5, 2, 6, 3, 7,
    ];
    assert(r@ =~= cube_edge_table());
    r
}

/// The tetrahedron's triangle index list.
pub fn tetrahedron_indices() -> (r: Vec<u16>)
    ensures
        r@ == tetrahedron_index_table(),
        all_below(r@, TETRAHEDRON_VERTEX_COUNT as int),
{
    let r = vec![0u16, 1, 2, 0, 2, 3, 2, 1, 3, 1, 0, 3];
    assert(r@ =~= tetrahedron_index_table());
    r
}

/// The tetrahedron's edge index list.
pub fn tetrahedron_edge_indices() -> (r: Vec<u16>)
    ensures
        r@ == tetrahedron_edge_table(),
        all_below(r@, TETRAHEDRON_VERTEX_COUNT as int),
{
    let r = vec![0u16, 1, 1, 2, 2, 0, 0, 3, 1, 3, 2, 3];
    assert(r@ =~= tetrahedron_edge_table());
    r
}

/// Vertex `v` is a corner of triangle `t` of the index list.
pub open spec fn on_face(indices: Seq<u16>, t: int, v: int) -> bool {
    indices[3 * t] == v || indices[3 * t + 1] == v || indices[3 * t + 2] == v
}

/// The triangles, in order, that have vertex `v` as a corner: the faces whose normals
/// are summed into the normal of `v`.
pub fn faces_incident_to(indices: &Vec<u16>, v: u16) -> (r: Vec<usize>)
    requires
        indices@.len() % 3 == 0,
    ensures
        lists_exactly(r@, indices@.len() as int / 3, |t: int| on_face(indices@, t, v as int)),
{
    let ghost p = |t: int| on_face(indices@, t, v as int);
    let len: usize = indices.len();
    let n_faces: usize = len / 3;
    let mut r: Vec<usize> = Vec::new();
    proof {
        lemma_lists_exactly_empty(p);
    }
    let mut t: usize = 0;
    while t < n_faces
        invariant
            n_faces == indices@.len() / 3,
            len == indices@.len(),
            3 * n_faces == len,
            indices@.len() % 3 == 0,
            t <= n_faces,
            p == (|t: int| on_face(indices@, t, v as int)),
            lists_exactly(r@, t as int, p),
        decreases n_faces - t,
    {
        proof {
            lemma_lists_exactly_extend(r@, t as int, p);
        }
        let i: usize = 3 * t;
        if indices[i] == v || indices[i + 1] == v || indices[i + 2] == v {
            r.push(t);
        }
        t += 1;
    }
    r
}

} // verus!
