use vstd::prelude::*;

use crate::geometry::mesh::Mesh;
use crate::geometry::mesh::MeshModel;

verus! {

/// The scene as the frame orchestrator consumes it: the meshes to draw, in
/// insertion order, which is also the order of the frame's draw calls. The
/// tree structure meshes may live in belongs to the surrounding application;
/// it hands the core the pre-order flattening.
pub struct Scene {
    pub meshes: Vec<Mesh>,
}

impl View for Scene {
    type V = Seq<MeshModel>;

    open spec fn view(&self) -> Seq<MeshModel> {
        Seq::new(self.meshes@.len(), |i: int| self.meshes@[i]@)
    }
}

impl Scene {
    /// An empty scene.
    pub fn new() -> (s: Scene)
        ensures
            s@ == Seq::<MeshModel>::empty(),
    {
        let s = Scene { meshes: Vec::new() };
        proof {
            assert(s@ =~= Seq::<MeshModel>::empty());
        }
        s
    }

    /// Appends a mesh and returns its stable index.
    pub fn add_mesh(&mut self, mesh: Mesh) -> (index: usize)
        ensures
            final(self)@ == old(self)@.push(mesh@),
            index == old(self)@.len(),
    {
        let ghost pre = self@;
        let ghost mm = mesh@;
        let index = self.meshes.len();
        self.meshes.push(mesh);
        proof {
            assert(self@ =~= pre.push(mm));
        }
        index
    }

    /// The number of meshes.
    pub fn len(&self) -> (n: usize)
        ensures
            n == self@.len(),
    {
        self.meshes.len()
    }

    /// The mesh at a stable index.
    pub fn get_mesh(&self, index: usize) -> (m: &Mesh)
        requires
            index < self@.len(),
        ensures
            m@ == self@[index as int],
    {
        &self.meshes[index]
    }

    /// Mutable access to the mesh at a stable index.
    pub fn get_mesh_mut(&mut self, index: usize) -> (m: &mut Mesh)
        requires
            index < old(self)@.len(),
        ensures
            (*m)@ == old(self)@[index as int],
            final(self)@ == old(self)@.update(index as int, final(m)@),
    {
        &mut self.meshes[index]
    }
}

} // verus!
