//! A model: one mesh and a world-placement matrix, populated from OBJ
//! text and read every frame.

use vstd::prelude::*;
use crate::buffers::{vertex_jittered, IndexBuffer, Vertex, VertexBuffer};
use crate::matrix::{identity_spec, scale_spec, translate_spec, Matrix4};
use crate::mesh::Mesh;
use crate::obj::{parse_obj, parse_obj_spec, ObjError};
use crate::vector::Vector3;

verus! {

/// One mesh and the matrix that places it in the world.
#[derive(Debug)]
pub struct Model {
    pub mesh: Mesh,
    pub transform: Matrix4,
}

impl Model {
    /// An empty model placed at the origin.
    pub fn new() -> (r: Self)
        ensures
            r.mesh.vb.vertices@ == Seq::<Vertex>::empty(),
            r.mesh.ib.indices@ == Seq::<u32>::empty(),
            r.transform == identity_spec(),
    {
        Self { mesh: Mesh::new(), transform: Matrix4::identity() }
    }

    /// Fills the mesh from OBJ text. On success the vertex and index
    /// buffers hold exactly what the text denotes; on any parse failure
    /// the error is returned and the model is left unchanged.
    pub fn load_obj(&mut self, data: &[u8]) -> (r: Result<(), ObjError>)
        requires
            data@.len() < usize::MAX,
        ensures
            match parse_obj_spec(data@) {
                Ok(geo) => r == Ok::<(), ObjError>(()) && final(self).mesh.vb.vertices@ == geo.0
                    && final(self).mesh.ib.indices@ == geo.1 && final(self).transform == old(
                    self,
                ).transform,
                Err(e) => r == Err::<(), ObjError>(e) && *final(self) == *old(self),
            },
    {
        match parse_obj(data) {
            Err(e) => Err(e),
            Ok((vs, is_)) => {
                self.mesh = Mesh { vb: VertexBuffer { vertices: vs }, ib: IndexBuffer {
                    indices: is_,
                } };
                Ok(())
            },
        }
    }

    /// A read view of the mesh's indices.
    pub fn get_indices(&self) -> (r: &Vec<u32>)
        ensures
            r@ == self.mesh.ib.indices@,
    {
        self.mesh.ib.get_indices()
    }

    /// A read view of the mesh's vertices.
    pub fn get_vertices(&self) -> (r: &Vec<Vertex>)
        ensures
            r@ == self.mesh.vb.vertices@,
    {
        self.mesh.vb.get_vertices()
    }

    /// The world-placement matrix; consumes the model.
    pub fn get_transform(self) -> (r: Matrix4)
        ensures
            r == self.transform,
    {
        self.transform
    }

    /// Replaces the world placement with the translation by `(x, y, z)`.
    pub fn set_position(&mut self, x: i64, y: i64, z: i64)
        ensures
            final(self).transform == translate_spec(Vector3 { x, y, z }),
            final(self).mesh == old(self).mesh,
    {
        let t: Matrix4 = Matrix4::translate(Vector3::new(x, y, z));
        self.transform = t;
    }

    /// Replaces the world placement with the scaling by `(x, y, z)`.
    pub fn set_scale(&mut self, x: i64, y: i64, z: i64)
        ensures
            final(self).transform == scale_spec(Vector3 { x, y, z }),
            final(self).mesh == old(self).mesh,
    {
        let s: Matrix4 = Matrix4::scale(Vector3::new(x, y, z));
        self.transform = s;
    }

    /// Jitters every vertex of the mesh; the per-frame demo mutation.
    pub fn update(&mut self)
        ensures
            final(self).mesh.vb.vertices@.len() == old(self).mesh.vb.vertices@.len(),
            forall|i: int|
                0 <= i < final(self).mesh.vb.vertices@.len() ==> vertex_jittered(
                    #[trigger] final(self).mesh.vb.vertices@[i],
                ),
            final(self).mesh.ib == old(self).mesh.ib,
            final(self).transform == old(self).transform,
    {
        self.mesh.vb().update();
    }
}

} // verus!
