//! A mesh: one vertex buffer and one index buffer owned as a unit.

use vstd::prelude::*;
use crate::buffers::{IndexBuffer, VertexBuffer};

verus! {

/// One vertex buffer and one index buffer, owned together and never
/// shared.
#[derive(Debug)]
pub struct Mesh {
    pub vb: VertexBuffer,
    pub ib: IndexBuffer,
}

impl Mesh {
    /// An empty mesh: no vertices, no indices.
    pub fn new() -> (r: Self)
        ensures
            r.vb.vertices@ == Seq::<crate::buffers::Vertex>::empty(),
            r.ib.indices@ == Seq::<u32>::empty(),
    {
        Self { vb: VertexBuffer::new(), ib: IndexBuffer::new() }
    }

    /// The vertex buffer, for reading or filling.
    pub fn vb(&mut self) -> (r: &mut VertexBuffer)
        ensures
            *r == old(self).vb,
            final(self).vb == *final(r),
            final(self).ib == old(self).ib,
    {
        &mut self.vb
    }

    /// The index buffer, for reading or filling.
    pub fn ib(&mut self) -> (r: &mut IndexBuffer)
        ensures
            *r == old(self).ib,
            final(self).ib == *final(r),
            final(self).vb == old(self).vb,
    {
        &mut self.ib
    }
}

} // verus!
