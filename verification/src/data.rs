//! Meshes as they leave the crate: placed vertices and triangle indices.

use vstd::prelude::*;
use crate::geom::FaceGrid;
use crate::scalar::{Scalar, ZERO_BITS};

verus! {

/// Three coordinates.
#[derive(Clone, Copy, Debug, PartialEq, Eq, Structural)]
pub struct Vec3 {
    pub x: Scalar,
    pub y: Scalar,
    pub z: Scalar,
}

/// Two coordinates.
#[derive(Clone, Copy, Debug, PartialEq, Eq, Structural)]
pub struct Vec2 {
    pub x: Scalar,
    pub y: Scalar,
}

/// A vertex: where it lies, where its normal points, and where it falls
/// on the texture.
#[derive(Clone, Copy, Debug, PartialEq, Eq, Structural)]
pub struct VertexData {
    pub position: Vec3,
    pub normal: Vec3,
    pub uv: Vec2,
}

/// The vertices of one face in the order in which they were added, its
/// triangles as indices into them, three to a triangle, and the number of
/// the face, which selects its height map and material.
#[derive(Debug, PartialEq)]
pub struct MeshData {
    pub vertices: Vec<VertexData>,
    pub indices: Vec<u32>,
    pub material_index: usize,
}

impl Vec3 {
    /// The origin.
    pub open spec fn zero_value() -> Vec3 {
        Vec3 {
            x: Scalar { bits: ZERO_BITS },
            y: Scalar { bits: ZERO_BITS },
            z: Scalar { bits: ZERO_BITS },
        }
    }

    /// Three coordinates.
    pub fn new(x: Scalar, y: Scalar, z: Scalar) -> (v: Vec3)
        ensures
            v == (Vec3 { x, y, z }),
    {
        Vec3 { x, y, z }
    }

    /// The origin.
    pub fn zero() -> (v: Vec3)
        ensures
            v == Vec3::zero_value(),
    {
        Vec3 { x: Scalar::zero(), y: Scalar::zero(), z: Scalar::zero() }
    }
}

impl Vec2 {
    /// The origin.
    pub open spec fn zero_value() -> Vec2 {
        Vec2 { x: Scalar { bits: ZERO_BITS }, y: Scalar { bits: ZERO_BITS } }
    }

    /// Two coordinates.
    pub fn new(x: Scalar, y: Scalar) -> (v: Vec2)
        ensures
            v == (Vec2 { x, y }),
    {
        Vec2 { x, y }
    }

    /// The origin.
    pub fn zero() -> (v: Vec2)
        ensures
            v == Vec2::zero_value(),
    {
        Vec2 { x: Scalar::zero(), y: Scalar::zero() }
    }
}

impl VertexData {
    /// A vertex.
    pub fn new(position: Vec3, normal: Vec3, uv: Vec2) -> (vertex: VertexData)
        ensures
            vertex == (VertexData { position, normal, uv }),
    {
        VertexData { position, normal, uv }
    }
}

impl Default for VertexData {
    /// The vertex at the origin, with every coordinate zero.
    fn default() -> (vertex: VertexData)
        ensures
            vertex == (VertexData {
                position: Vec3::zero_value(),
                normal: Vec3::zero_value(),
                uv: Vec2::zero_value(),
            }),
    {
        VertexData { position: Vec3::zero(), normal: Vec3::zero(), uv: Vec2::zero() }
    }
}

impl MeshData {
    /// Whether the indices come in threes and each refers to a vertex.
    pub open spec fn well_formed(&self) -> bool {
        &&& self.indices@.len() % 3 == 0
        &&& forall|k: int|
            0 <= k < self.indices@.len() ==> #[trigger] self.indices@[k] < self.vertices@.len()
    }

    /// A mesh without vertices, for face 0.
    pub fn new() -> (mesh: MeshData)
        ensures
            mesh.vertices@.len() == 0,
            mesh.indices@.len() == 0,
            mesh.material_index == 0,
            mesh.well_formed(),
    {
        MeshData { vertices: Vec::new(), indices: Vec::new(), material_index: 0 }
    }

    /// Adds a vertex behind those that are there.
    pub fn add_vertex(&mut self, vertex: VertexData)
        ensures
            final(self).vertices@ == old(self).vertices@.push(vertex),
            final(self).indices == old(self).indices,
            final(self).material_index == old(self).material_index,
            old(self).well_formed() ==> final(self).well_formed(),
    {
        self.vertices.push(vertex);
    }

    /// Adds an index behind those that are there.
    pub fn add_index(&mut self, index: u32)
        ensures
            final(self).indices@ == old(self).indices@.push(index),
            final(self).vertices == old(self).vertices,
            final(self).material_index == old(self).material_index,
    {
        self.indices.push(index);
    }

    /// Whether the indices come in threes and each refers to a vertex.
    pub fn is_well_formed(&self) -> (valid: bool)
        ensures
            valid == self.well_formed(),
    {
        if self.indices.len() % 3 != 0 {
            return false;
        }
        let mut k: usize = 0;
        while k < self.indices.len()
            invariant
                k <= self.indices@.len(),
                forall|j: int| 0 <= j < k ==> #[trigger] self.indices@[j] < self.vertices@.len(),
            decreases self.indices@.len() - k,
        {
            if self.indices[k] as usize >= self.vertices.len() {
                return false;
            }
            k = k + 1;
        }
        true
    }

    /// The mesh of a face grid whose vertices were placed: the given
    /// vertices, one for each vertex of the grid and in its order, with
    /// the triangles of the grid. `None` where the counts differ or the
    /// grid is not well formed.
    pub fn from_grid(grid: FaceGrid, vertices: Vec<VertexData>) -> (mesh: Option<MeshData>)
        ensures
            mesh is Some <==> vertices@.len() == grid.vertices@.len() && grid.well_formed(),
            mesh matches Some(m) ==> {
                &&& m.vertices == vertices
                &&& m.indices == grid.indices
                &&& m.material_index == grid.material_index
                &&& m.well_formed()
            },
    {
        if vertices.len() != grid.vertices.len() {
            return None;
        }
        let mesh = MeshData { vertices, indices: grid.indices, material_index: grid.material_index };
        if mesh.is_well_formed() {
            Some(mesh)
        } else {
            None
        }
    }
}

impl Default for MeshData {
    /// A mesh without vertices, for face 0.
    fn default() -> (mesh: MeshData)
        ensures
            mesh.vertices@.len() == 0,
            mesh.indices@.len() == 0,
            mesh.material_index == 0,
            mesh.well_formed(),
    {
        MeshData::new()
    }
}

} // verus!
