//! Geometry containers: per-vertex attributes, triangle indices, and the
//! per-frame uniform payload, each exposed as a flat scalar sequence.

use vstd::prelude::*;
use crate::fixed::{iabs, SCALE};
use crate::matrix::{flatten_spec, Matrix4};
use crate::vector::Vector3;

verus! {

/// An RGBA color in fixed point; one whole unit is full intensity.
#[derive(Clone, Copy, PartialEq, Eq, Structural, Debug)]
pub struct Color4 {
    pub r: i64,
    pub g: i64,
    pub b: i64,
    pub a: i64,
}

/// One vertex: a position and a color.
#[derive(Clone, Copy, PartialEq, Eq, Structural, Debug)]
pub struct Vertex {
    pub pos: Vector3<i64>,
    pub color: Color4,
}

/// The wire layout of one vertex: three position scalars, then four color
/// scalars.
pub open spec fn vertex_flat(v: Vertex) -> Seq<i64> {
    seq![v.pos.x, v.pos.y, v.pos.z, v.color.r, v.color.g, v.color.b, v.color.a]
}

/// The wire layout of a vertex sequence: each vertex's seven scalars in
/// order, tightly packed.
pub open spec fn verts_flat(s: Seq<Vertex>) -> Seq<i64>
    decreases s.len(),
{
    if s.len() == 0 {
        Seq::empty()
    } else {
        verts_flat(s.drop_last()) + vertex_flat(s.last())
    }
}

/// A vertex as `update` leaves it: position components within one unit
/// either way, color components within zero and one unit.
pub open spec fn vertex_jittered(v: Vertex) -> bool {
    &&& iabs(v.pos.x as int) <= SCALE as int
    &&& iabs(v.pos.y as int) <= SCALE as int
    &&& iabs(v.pos.z as int) <= SCALE as int
    &&& 0 <= v.color.r <= SCALE
    &&& 0 <= v.color.g <= SCALE
    &&& 0 <= v.color.b <= SCALE
    &&& 0 <= v.color.a <= SCALE
}

impl Vertex {
    /// A vertex at the origin, opaque white.
    pub fn new() -> (r: Self)
        ensures
            r.pos == (Vector3 { x: 0i64, y: 0i64, z: 0i64 }),
            r.color == (Color4 { r: SCALE, g: SCALE, b: SCALE, a: SCALE }),
    {
        Self {
            pos: Vector3 { x: 0, y: 0, z: 0 },
            color: Color4 { r: SCALE, g: SCALE, b: SCALE, a: SCALE },
        }
    }

    pub fn set_position(&mut self, pos: Vector3<i64>)
        ensures
            final(self).pos == pos,
            final(self).color == old(self).color,
    {
        self.pos = pos;
    }

    pub fn set_color(&mut self, color: Color4)
        ensures
            final(self).color == color,
            final(self).pos == old(self).pos,
    {
        self.color = color;
    }

    /// The vertex's seven scalars in wire order.
    pub fn as_vec(&self) -> (r: Vec<i64>)
        ensures
            r@ == vertex_flat(*self),
    {
        let a = vec![
            self.pos.x,
            self.pos.y,
            self.pos.z,
            self.color.r,
            self.color.g,
            self.color.b,
            self.color.a,
        ];
        proof {
            assert(a@ =~= vertex_flat(*self));
        }
        a
    }
}

/// The ordered vertex array; array position is the slot that indices
/// address.
#[derive(Debug)]
pub struct VertexBuffer {
    pub vertices: Vec<Vertex>,
}

impl VertexBuffer {
    pub fn new() -> (r: Self)
        ensures
            r.vertices@ == Seq::<Vertex>::empty(),
    {
        Self { vertices: Vec::new() }
    }

    /// Appends a vertex at the end of the array.
    pub fn add_vertex(&mut self, vertex: Vertex)
        ensures
            final(self).vertices@ == old(self).vertices@.push(vertex),
    {
        self.vertices.push(vertex);
    }

    pub fn get_vertices(&self) -> (r: &Vec<Vertex>)
        ensures
            r@ == self.vertices@,
    {
        &self.vertices
    }

    /// The buffer's scalars in wire order: seven per vertex, tightly
    /// packed.
    pub fn as_vec(&self) -> (r: Vec<i64>)
        ensures
            r@ == verts_flat(self.vertices@),
    {
        let mut out: Vec<i64> = Vec::new();
        let mut i: usize = 0;
        while i < self.vertices.len()
            invariant
                i <= self.vertices.len(),
                out@ == verts_flat(self.vertices@.take(i as int)),
            decreases self.vertices.len() - i,
        {
            let ghost pre = out@;
            let v = self.vertices[i];
            out.push(v.pos.x);
            out.push(v.pos.y);
            out.push(v.pos.z);
            out.push(v.color.r);
            out.push(v.color.g);
            out.push(v.color.b);
            out.push(v.color.a);
            proof {
                let s = self.vertices@;
                assert(s.take(i + 1).drop_last() =~= s.take(i as int));
                assert(s.take(i + 1).last() == s[i as int]);
                assert(out@ =~= pre + vertex_flat(s[i as int]));
            }
            i = i + 1;
        }
        proof {
            assert(self.vertices@.take(self.vertices@.len() as int) =~= self.vertices@);
        }
        out
    }

    /// Replaces every vertex with a fresh random one: position components
    /// drawn uniformly from one unit either way of zero, color components
    /// from zero to one unit. The vertex count is unchanged.
    pub fn update(&mut self)
        ensures
            final(self).vertices@.len() == old(self).vertices@.len(),
            forall|i: int|
                0 <= i < final(self).vertices@.len() ==> vertex_jittered(
                    #[trigger] final(self).vertices@[i],
                ),
    {
        let n = self.vertices.len();
        let mut fresh: Vec<Vertex> = Vec::new();
        let mut i: usize = 0;
        while i < n
            invariant
                i <= n,
                fresh@.len() == i as int,
                forall|k: int| 0 <= k < i as int ==> vertex_jittered(#[trigger] fresh@[k]),
            decreases n - i,
        {
            let v = Vertex {
                pos: Vector3 {
                    x: rand_in(-SCALE, SCALE),
                    y: rand_in(-SCALE, SCALE),
                    z: rand_in(-SCALE, SCALE),
                },
                color: Color4 {
                    r: rand_in(0, SCALE),
                    g: rand_in(0, SCALE),
                    b: rand_in(0, SCALE),
                    a: rand_in(0, SCALE),
                },
            };
            fresh.push(v);
            i = i + 1;
        }
        self.vertices = fresh;
    }
}

/// Relies on rand::thread_rng and rand::Rng::gen_range: a draw from the
/// thread-local generator, uniformly distributed over the inclusive range
/// and nothing more; the range must be nonempty or gen_range panics.
#[verifier::external_body]
fn rand_in(lo: i64, hi: i64) -> (r: i64)
    requires
        lo <= hi,
    ensures
        lo <= r <= hi,
{
    rand::Rng::gen_range(&mut rand::thread_rng(), lo..=hi)
}

/// Every index in `s` addresses a slot below `count`.
pub open spec fn indices_in_bounds(s: Seq<u32>, count: int) -> bool {
    forall|i: int| 0 <= i < s.len() ==> (#[trigger] s[i] as int) < count
}

/// The ordered index list; every three consecutive entries form one
/// triangle, a grouping the container does not itself enforce.
#[derive(Debug)]
pub struct IndexBuffer {
    pub indices: Vec<u32>,
}

impl IndexBuffer {
    pub fn new() -> (r: Self)
        ensures
            r.indices@ == Seq::<u32>::empty(),
    {
        Self { indices: Vec::new() }
    }

    /// Appends an index at the end of the list.
    pub fn add_index(&mut self, index: u32)
        ensures
            final(self).indices@ == old(self).indices@.push(index),
    {
        self.indices.push(index);
    }

    pub fn get_indices(&self) -> (r: &Vec<u32>)
        ensures
            r@ == self.indices@,
    {
        &self.indices
    }

    /// Whether every index addresses a vertex slot below `count`; the
    /// check a caller owes before drawing.
    pub fn in_bounds(&self, count: usize) -> (r: bool)
        ensures
            r == indices_in_bounds(self.indices@, count as int),
    {
        let mut i: usize = 0;
        while i < self.indices.len()
            invariant
                i <= self.indices.len(),
                forall|k: int|
                    0 <= k < i as int ==> (#[trigger] self.indices@[k] as int) < count as int,
            decreases self.indices.len() - i,
        {
            if self.indices[i] as usize >= count {
                return false;
            }
            i = i + 1;
        }
        true
    }
}

/// The per-frame uniform payload: the model, view and projection matrices
/// and a four-scalar time vector, flattened in that order.
#[derive(Debug)]
pub struct UniformBuffer {
    pub m_model: Matrix4,
    pub m_view: Matrix4,
    pub m_projection: Matrix4,
    pub time: Vec<i64>,
}

impl UniformBuffer {
    /// Packs the three matrices; the time vector is a placeholder of four
    /// whole units.
    pub fn new(model: Matrix4, view: Matrix4, projection: Matrix4) -> (r: Self)
        ensures
            r.m_model == model,
            r.m_view == view,
            r.m_projection == projection,
            r.time@ == seq![SCALE, SCALE, SCALE, SCALE],
    {
        let time = vec![SCALE, SCALE, SCALE, SCALE];
        proof {
            assert(time@ =~= seq![SCALE, SCALE, SCALE, SCALE]);
        }
        Self { m_model: model, m_view: view, m_projection: projection, time }
    }

    /// The payload in wire order: three matrices of sixteen scalars and
    /// the four time scalars, fifty-two in all.
    pub fn as_vec(&self) -> (r: Vec<i64>)
        ensures
            r@ == flatten_spec(self.m_model) + flatten_spec(self.m_view) + flatten_spec(
                self.m_projection,
            ) + self.time@,
            self.time@.len() == 4 ==> r@.len() == 52,
    {
        let mut out = self.m_model.as_vec();
        let mut v = self.m_view.as_vec();
        let mut p = self.m_projection.as_vec();
        out.append(&mut v);
        out.append(&mut p);
        let mut i: usize = 0;
        let ghost base = out@;
        while i < self.time.len()
            invariant
                i <= self.time.len(),
                out@ == base + self.time@.take(i as int),
            decreases self.time.len() - i,
        {
            out.push(self.time[i]);
            proof {
                assert(self.time@.take(i + 1) =~= self.time@.take(i as int).push(
                    self.time@[i as int],
                ));
                assert(out@ =~= base + self.time@.take(i + 1));
            }
            i = i + 1;
        }
        proof {
            assert(self.time@.take(self.time@.len() as int) =~= self.time@);
            assert(flatten_spec(self.m_model).len() == 16);
            assert(flatten_spec(self.m_view).len() == 16);
            assert(flatten_spec(self.m_projection).len() == 16);
        }
        out
    }
}

} // verus!
