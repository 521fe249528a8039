//! The meshlet mesh asset and its invariants.

use vstd::prelude::*;
use crate::element::{BoundingSphere, Meshlet, VertexPosition, VertexUv};

verus! {

/// A mesh split into meshlets, as the container stores it.
pub struct MeshletMesh {
    pub vertex_positions: Vec<VertexPosition>,
    pub vertex_normals: Vec<u32>,
    pub vertex_uvs: Vec<VertexUv>,
    pub indices: Vec<u32>,
    pub meshlets: Vec<Meshlet>,
    pub meshlet_bounding_spheres: Vec<BoundingSphere>,
    pub meshlet_simplification_errors: Vec<u32>,
}

/// The contents of a `MeshletMesh`, field by field.
pub struct MeshletMeshView {
    pub vertex_positions: Seq<VertexPosition>,
    pub vertex_normals: Seq<u32>,
    pub vertex_uvs: Seq<VertexUv>,
    pub indices: Seq<u32>,
    pub meshlets: Seq<Meshlet>,
    pub meshlet_bounding_spheres: Seq<BoundingSphere>,
    pub meshlet_simplification_errors: Seq<u32>,
}

impl View for MeshletMesh {
    type V = MeshletMeshView;

    open spec fn view(&self) -> MeshletMeshView {
        MeshletMeshView {
            vertex_positions: self.vertex_positions@,
            vertex_normals: self.vertex_normals@,
            vertex_uvs: self.vertex_uvs@,
            indices: self.indices@,
            meshlets: self.meshlets@,
            meshlet_bounding_spheres: self.meshlet_bounding_spheres@,
            meshlet_simplification_errors: self.meshlet_simplification_errors@,
        }
    }
}

impl MeshletMeshView {
    /// The per-vertex arrays agree in length, the per-meshlet arrays agree in
    /// length, the indices form whole triangles and each names a vertex.
    pub open spec fn wf(self) -> bool {
        &&& self.vertex_normals.len() == self.vertex_positions.len()
        &&& self.vertex_uvs.len() == self.vertex_positions.len()
        &&& self.indices.len() % 3 == 0
        &&& forall|i: int|
            0 <= i < self.indices.len() ==> (#[trigger] self.indices[i] as int)
                < self.vertex_positions.len()
        &&& self.meshlet_bounding_spheres.len() == self.meshlets.len()
        &&& self.meshlet_simplification_errors.len() == self.meshlets.len()
    }

    /// Every element count can be written as a `u64`.
    pub open spec fn counts_fit(self) -> bool {
        &&& self.vertex_positions.len() <= u64::MAX
        &&& self.vertex_normals.len() <= u64::MAX
        &&& self.vertex_uvs.len() <= u64::MAX
        &&& self.indices.len() <= u64::MAX
        &&& self.meshlets.len() <= u64::MAX
        &&& self.meshlet_bounding_spheres.len() <= u64::MAX
        &&& self.meshlet_simplification_errors.len() <= u64::MAX
    }
}

impl MeshletMesh {
    /// Whether the mesh meets its invariants.
    pub fn is_valid(&self) -> (r: bool)
        ensures
            r == self@.wf(),
    {
        let n = self.vertex_positions.len();
        if self.vertex_normals.len() != n || self.vertex_uvs.len() != n {
            return false;
        }
        if self.indices.len() % 3 != 0 {
            return false;
        }
        let m = self.meshlets.len();
        if self.meshlet_bounding_spheres.len() != m || self.meshlet_simplification_errors.len()
            != m {
            return false;
        }
        let mut i: usize = 0;
        while i < self.indices.len()
            invariant
                i <= self.indices@.len(),
                n == self.vertex_positions@.len(),
                forall|j: int| 0 <= j < i ==> (#[trigger] self.indices@[j] as int) < n,
            decreases self.indices@.len() - i,
        {
            if self.indices[i] as usize >= n {
                return false;
            }
            i += 1;
        }
        true
    }
}

} // verus!
