//! The mesh store's record for one mesh type: its topology, shared by every instance,
//! and the capacities of its two instance buffers.
use crate::capacity::{grown, grown_capacity, lemma_grown_at_least};
use crate::primitives::{
    all_below, cube_edge_indices, cube_edge_table, cube_index_table, cube_indices,
    tetrahedron_edge_indices, tetrahedron_edge_table, tetrahedron_index_table,
    tetrahedron_indices, CUBE_VERTEX_COUNT, TETRAHEDRON_VERTEX_COUNT,
};
use crate::sphere::{
    as_ints, corners, ends, lemma_divisions_small, lemma_sphere_edges_in_range,
    lemma_sphere_indices_in_range, sphere_edge_indices, sphere_edges, sphere_indices,
    sphere_triangles, sphere_vertex_count, valid_divisions,
};
use vstd::prelude::*;

verus! {

/// Instances each buffer holds when a mesh is created.
pub const DEFAULT_INSTANCE_CAPACITY: usize = 100;

/// The kinds of mesh a draw request can name. `Triangle` has no geometry.
#[derive(Clone, Copy, Debug, PartialEq, Eq, Hash, Structural)]
pub enum MeshType {
    Triangle,
    Cube,
    Tetrahedron,
    Sphere,
}

/// One mesh: how many vertices it has, its triangle index list (solid pass) and its
/// edge index list (outline pass) over those same vertices, and how many instances
/// each of its two instance buffers holds.
pub struct Mesh {
    pub vertex_count: usize,
    pub indices: Vec<u16>,
    pub edge_indices: Vec<u16>,
    pub instance_capacity: usize,
    pub edge_instance_capacity: usize,
}

impl Mesh {
    /// Whole triangles and whole segments, every index naming a vertex of the mesh,
    /// and buffers that can hold at least one instance.
    pub open spec fn wf(&self) -> bool {
        &&& self.indices@.len() % 3 == 0
        &&& self.edge_indices@.len() % 2 == 0
        &&& all_below(self.indices@, self.vertex_count as int)
        &&& all_below(self.edge_indices@, self.vertex_count as int)
        &&& self.instance_capacity > 0
        &&& self.edge_instance_capacity > 0
    }

    /// The cube, with both buffers at the default capacity.
    pub fn new_cube() -> (m: Mesh)
        ensures
            m.wf(),
            m.vertex_count == CUBE_VERTEX_COUNT,
            m.indices@ == cube_index_table(),
            m.edge_indices@ == cube_edge_table(),
            m.instance_capacity == DEFAULT_INSTANCE_CAPACITY,
            m.edge_instance_capacity == DEFAULT_INSTANCE_CAPACITY,
    {
        Mesh {
            vertex_count: CUBE_VERTEX_COUNT,
            indices: cube_indices(),
            edge_indices: cube_edge_indices(),
            instance_capacity: DEFAULT_INSTANCE_CAPACITY,
            edge_instance_capacity: DEFAULT_INSTANCE_CAPACITY,
        }
    }

    /// The tetrahedron, with both buffers at the default capacity.
    pub fn new_tetrahedron() -> (m: Mesh)
        ensures
            m.wf(),
            m.vertex_count == TETRAHEDRON_VERTEX_COUNT,
            m.indices@ == tetrahedron_index_table(),
            m.edge_indices@ == tetrahedron_edge_table(),
            m.instance_capacity == DEFAULT_INSTANCE_CAPACITY,
            m.edge_instance_capacity == DEFAULT_INSTANCE_CAPACITY,
    {
        Mesh {
            vertex_count: TETRAHEDRON_VERTEX_COUNT,
            indices: tetrahedron_indices(),
            edge_indices: tetrahedron_edge_indices(),
            instance_capacity: DEFAULT_INSTANCE_CAPACITY,
            edge_instance_capacity: DEFAULT_INSTANCE_CAPACITY,
        }
    }

    /// The UV sphere of `divisions` divisions, with both buffers at the default capacity.
    pub fn new_sphere(divisions: usize) -> (m: Mesh)
        requires
            valid_divisions(divisions as int),
        ensures
            m.wf(),
            m.vertex_count == sphere_vertex_count(divisions as int),
            as_ints(m.indices@) == corners(sphere_triangles(divisions as int)),
            as_ints(m.edge_indices@) == ends(sphere_edges(divisions as int)),
            m.instance_capacity == DEFAULT_INSTANCE_CAPACITY,
            m.edge_instance_capacity == DEFAULT_INSTANCE_CAPACITY,
    {
        let ghost d = divisions as int;
        proof {
            lemma_divisions_small(d);
            lemma_sphere_indices_in_range(d);
            lemma_sphere_edges_in_range(d);
        }
        let longitude: usize = 2 * divisions;
        let vertex_count: usize = 2 + (divisions - 1) * longitude;
        let indices = sphere_indices(divisions);
        let edge_indices = sphere_edge_indices(divisions);
        proof {
            assert forall|i: int| 0 <= i < indices@.len() implies (#[trigger] indices@[i]) < vertex_count by {
                assert(as_ints(indices@)[i] == indices@[i] as int);
            }
            assert forall|i: int| 0 <= i < edge_indices@.len() implies (#[trigger] edge_indices@[i]) < vertex_count by {
                assert(as_ints(edge_indices@)[i] == edge_indices@[i] as int);
            }
            let tris = (2 * d) * (d - 1);
            let segs = (2 * d) * (2 * d - 1);
            assert(6 * (2 * d) * (d - 1) == 3 * (2 * tris)) by (nonlinear_arith)
                requires
                    tris == (2 * d) * (d - 1),
            ;
            assert(2 * (2 * d) * (2 * d - 1) == 2 * segs) by (nonlinear_arith)
                requires
                    segs == (2 * d) * (2 * d - 1),
            ;
        }
        Mesh {
            vertex_count,
            indices,
            edge_indices,
            instance_capacity: DEFAULT_INSTANCE_CAPACITY,
            edge_instance_capacity: DEFAULT_INSTANCE_CAPACITY,
        }
    }

    /// Grows the solid-pass instance buffer by doubling until it holds `new_capacity`
    /// instances. The buffer is rewritten whole each frame, so nothing is carried over.
    pub fn realloc_instance_buffer(&mut self, new_capacity: usize)
        requires
            old(self).wf(),
            new_capacity <= old(self).instance_capacity || new_capacity <= usize::MAX / 2,
        ensures
            final(self).wf(),
            final(self).instance_capacity == grown(old(self).instance_capacity as nat, new_capacity as nat),
            final(self).edge_instance_capacity == old(self).edge_instance_capacity,
            final(self).vertex_count == old(self).vertex_count,
            final(self).indices@ == old(self).indices@,
            final(self).edge_indices@ == old(self).edge_indices@,
    {
        proof {
            lemma_grown_at_least(self.instance_capacity as nat, new_capacity as nat);
        }
        self.instance_capacity = grown_capacity(self.instance_capacity, new_capacity);
    }

    /// Grows the outline-pass instance buffer by doubling until it holds `new_capacity`
    /// instances.
    pub fn realloc_edge_instance_buffer(&mut self, new_capacity: usize)
        requires
            old(self).wf(),
            new_capacity <= old(self).edge_instance_capacity || new_capacity <= usize::MAX / 2,
        ensures
            final(self).wf(),
            final(self).edge_instance_capacity == grown(old(self).edge_instance_capacity as nat, new_capacity as nat),
            final(self).instance_capacity == old(self).instance_capacity,
            final(self).vertex_count == old(self).vertex_count,
            final(self).indices@ == old(self).indices@,
            final(self).edge_indices@ == old(self).edge_indices@,
    {
        proof {
            lemma_grown_at_least(self.edge_instance_capacity as nat, new_capacity as nat);
        }
        self.edge_instance_capacity = grown_capacity(self.edge_instance_capacity, new_capacity);
    }
}

} // verus!
