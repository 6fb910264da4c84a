//! The renderer's per-frame decisions: which draw requests form each mesh type's batch,
//! whether that batch outgrows its instance buffer, and what is drawn.
use crate::capacity::{grown, lemma_grown_at_least, lemma_grown_bound};
use crate::mesh::{Mesh, MeshType, DEFAULT_INSTANCE_CAPACITY};
use crate::primitives::{
    cube_edge_table, cube_index_table, tetrahedron_edge_table, tetrahedron_index_table,
    CUBE_VERTEX_COUNT, TETRAHEDRON_VERTEX_COUNT,
};
use crate::selection::{
    lemma_lists_exactly_empty, lemma_lists_exactly_extend, lemma_lists_exactly_len,
    lemma_lists_exactly_unique, lists_exactly,
};
use crate::sphere::{
    as_ints, corners, ends, sphere_edges, sphere_triangles, sphere_vertex_count, valid_divisions,
};
use vstd::prelude::*;

verus! {

/// Divisions of the sphere the renderer creates at startup.
pub const SPHERE_DIVISIONS: usize = 10;

/// The two passes of a frame: filled triangles, then the wireframe outline.
#[derive(Clone, Copy, Debug, PartialEq, Eq, Structural)]
pub enum Pass {
    Solid,
    Outline,
}

/// What to draw for one mesh type in one pass.
pub struct DrawPlan {
    /// Positions in the frame's request list of the instances drawn, in request order.
    pub members: Vec<usize>,
    /// Indices drawn per instance.
    pub index_count: usize,
    /// Instances the pass's buffer holds once the plan is made.
    pub capacity: usize,
    /// The buffer was too small and must be reallocated at `capacity` before the upload.
    pub grew: bool,
}

/// The geometry of every mesh type that has one.
pub struct MeshStore {
    pub cube: Mesh,
    pub tetrahedron: Mesh,
    pub sphere: Mesh,
}

/// Capacity of the buffer that `pass` uploads to.
pub open spec fn pass_capacity(m: Mesh, pass: Pass) -> usize {
    match pass {
        Pass::Solid => m.instance_capacity,
        Pass::Outline => m.edge_instance_capacity,
    }
}

/// Number of indices `pass` draws per instance.
pub open spec fn pass_index_count(m: Mesh, pass: Pass) -> int {
    match pass {
        Pass::Solid => m.indices@.len() as int,
        Pass::Outline => m.edge_indices@.len() as int,
    }
}

/// `after` is `before` with the buffer of `pass` now holding `capacity` instances.
pub open spec fn with_pass_capacity(before: Mesh, after: Mesh, pass: Pass, capacity: int) -> bool {
    &&& after.vertex_count == before.vertex_count
    &&& after.indices@ == before.indices@
    &&& after.edge_indices@ == before.edge_indices@
    &&& pass_capacity(after, pass) == capacity
    &&& pass == Pass::Solid ==> after.edge_instance_capacity == before.edge_instance_capacity
    &&& pass == Pass::Outline ==> after.instance_capacity == before.instance_capacity
}

impl MeshStore {
    pub open spec fn wf(&self) -> bool {
        self.cube.wf() && self.tetrahedron.wf() && self.sphere.wf()
    }

    /// The geometry registered for `t`; `Triangle` has none.
    pub open spec fn geometry(&self, t: MeshType) -> Option<Mesh> {
        match t {
            MeshType::Triangle => None,
            MeshType::Cube => Some(self.cube),
            MeshType::Tetrahedron => Some(self.tetrahedron),
            MeshType::Sphere => Some(self.sphere),
        }
    }

    /// Cube, tetrahedron and a sphere of `sphere_divisions` divisions, every buffer at
    /// the default capacity.
    pub fn new(sphere_divisions: usize) -> (s: MeshStore)
        requires
            valid_divisions(sphere_divisions as int),
        ensures
            s.wf(),
            s.cube.vertex_count == CUBE_VERTEX_COUNT,
            s.cube.indices@ == cube_index_table(),
            s.cube.edge_indices@ == cube_edge_table(),
            s.tetrahedron.vertex_count == TETRAHEDRON_VERTEX_COUNT,
            s.tetrahedron.indices@ == tetrahedron_index_table(),
            s.tetrahedron.edge_indices@ == tetrahedron_edge_table(),
            s.sphere.vertex_count == sphere_vertex_count(sphere_divisions as int),
            as_ints(s.sphere.indices@) == corners(sphere_triangles(sphere_divisions as int)),
            as_ints(s.sphere.edge_indices@) == ends(sphere_edges(sphere_divisions as int)),
            forall|t: MeshType| #[trigger] s.geometry(t) matches Some(m) ==> m.instance_capacity == DEFAULT_INSTANCE_CAPACITY
                && m.edge_instance_capacity == DEFAULT_INSTANCE_CAPACITY,
    {
        MeshStore {
            cube: Mesh::new_cube(),
            tetrahedron: Mesh::new_tetrahedron(),
            sphere: Mesh::new_sphere(sphere_divisions),
        }
    }

    /// The geometry registered for `t`, if any.
    pub fn mesh(&self, t: MeshType) -> (r: Option<&Mesh>)
        ensures
            match r {
                Some(m) => self.geometry(t) == Some(*m),
                None => self.geometry(t) is None,
            },
    {
        match t {
            MeshType::Triangle => None,
            MeshType::Cube => Some(&self.cube),
            MeshType::Tetrahedron => Some(&self.tetrahedron),
            MeshType::Sphere => Some(&self.sphere),
        }
    }

    /// Plans the draw of `mesh_type` in `pass` for a frame whose requests name the mesh
    /// types `command_types`, growing the pass's instance buffer first if the batch
    /// does not fit. Returns `None`, and changes nothing, for a type without geometry.
    pub fn plan(&mut self, pass: Pass, mesh_type: MeshType, command_types: &Vec<MeshType>) -> (r: Option<DrawPlan>)
        requires
            old(self).wf(),
            command_types@.len() <= usize::MAX / 2,
        ensures
            final(self).wf(),
            forall|t: MeshType| t != mesh_type ==> final(self).geometry(t) == old(self).geometry(t),
            old(self).geometry(mesh_type) is None ==> r is None && final(self).geometry(mesh_type) is None,
            old(self).geometry(mesh_type) matches Some(m) ==> r matches Some(p) && {
                let n = p.members@.len();
                let before = pass_capacity(m, pass);
                &&& lists_exactly(p.members@, command_types@.len() as int, |i: int| command_types@[i] == mesh_type)
                &&& p.index_count == pass_index_count(m, pass)
                &&& p.capacity == grown(before as nat, n)
                &&& p.grew == (n > before)
                &&& final(self).geometry(mesh_type) matches Some(after)
                &&& with_pass_capacity(m, after, pass, p.capacity as int)
            },
    {
        match mesh_type {
            MeshType::Triangle => None,
            MeshType::Cube => Some(plan_mesh(&mut self.cube, pass, mesh_type, command_types)),
            MeshType::Tetrahedron => Some(plan_mesh(&mut self.tetrahedron, pass, mesh_type, command_types)),
            MeshType::Sphere => Some(plan_mesh(&mut self.sphere, pass, mesh_type, command_types)),
        }
    }
}

/// Plans one pass over one mesh: selects the batch, grows the pass's buffer if needed.
fn plan_mesh(mesh: &mut Mesh, pass: Pass, mesh_type: MeshType, command_types: &Vec<MeshType>) -> (p: DrawPlan)
    requires
        old(mesh).wf(),
        command_types@.len() <= usize::MAX / 2,
    ensures
        final(mesh).wf(),
        lists_exactly(p.members@, command_types@.len() as int, |i: int| command_types@[i] == mesh_type),
        p.index_count == pass_index_count(*old(mesh), pass),
        p.capacity == grown(pass_capacity(*old(mesh), pass) as nat, p.members@.len()),
        p.grew == (p.members@.len() > pass_capacity(*old(mesh), pass)),
        with_pass_capacity(*old(mesh), *final(mesh), pass, p.capacity as int),
{
    let members = members_of_type(command_types, mesh_type);
    let n = members.len();
    proof {
        lemma_lists_exactly_len(members@, command_types@.len() as int, |i: int| command_types@[i] == mesh_type);
        lemma_grown_bound(pass_capacity(*mesh, pass) as nat, n as nat);
        lemma_grown_at_least(pass_capacity(*mesh, pass) as nat, n as nat);
    }
    match pass {
        Pass::Solid => {
            let grew = n > mesh.instance_capacity;
            if grew {
                mesh.realloc_instance_buffer(n);
            }
            DrawPlan { members, index_count: mesh.indices.len(), capacity: mesh.instance_capacity, grew }
        },
        Pass::Outline => {
            let grew = n > mesh.edge_instance_capacity;
            if grew {
                mesh.realloc_edge_instance_buffer(n);
            }
            DrawPlan { members, index_count: mesh.edge_indices.len(), capacity: mesh.edge_instance_capacity, grew }
        },
    }
}

/// Positions, in increasing order, of the draw requests that name `mesh_type`:
/// the instances of one batch, in the order they were requested.
pub fn members_of_type(command_types: &Vec<MeshType>, mesh_type: MeshType) -> (r: Vec<usize>)
    ensures
        lists_exactly(r@, command_types@.len() as int, |i: int| command_types@[i] == mesh_type),
{
    let ghost p = |i: int| command_types@[i] == mesh_type;
    let mut r: Vec<usize> = Vec::new();
    proof {
        lemma_lists_exactly_empty(p);
    }
    let mut i: usize = 0;
    while i < command_types.len()
        invariant
            i <= command_types@.len(),
            p == (|i: int| command_types@[i] == mesh_type),
            lists_exactly(r@, i as int, p),
        decreases command_types.len() - i,
    {
        proof {
            lemma_lists_exactly_extend(r@, i as int, p);
        }
        if command_types[i] == mesh_type {
            r.push(i);
        }
        i += 1;
    }
    r
}

/// The solid and the outline pass of a frame draw the same requests of a mesh type,
/// in the same order: a plan's members depend on the request list alone.
pub proof fn lemma_passes_draw_same_members(
    solid: Seq<usize>,
    outline: Seq<usize>,
    command_types: Seq<MeshType>,
    mesh_type: MeshType,
)
    requires
        lists_exactly(solid, command_types.len() as int, |i: int| command_types[i] == mesh_type),
        lists_exactly(outline, command_types.len() as int, |i: int| command_types[i] == mesh_type),
    ensures
        solid == outline,
{
    lemma_lists_exactly_unique(solid, outline, command_types.len() as int, |i: int| command_types[i] == mesh_type);
}

} // verus!
