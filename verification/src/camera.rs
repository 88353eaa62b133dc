//! A camera: an orientable transform and a projection fixed at
//! construction.

use vstd::prelude::*;
use crate::fixed::{iabs, FX_BOUND};
use crate::matrix::{project_spec, Matrix4};
use crate::transform::{transform_default_spec, Transform};

verus! {

/// An extrinsic transform, mutated per frame, and an intrinsic projection
/// matrix, immutable after construction.
#[derive(Debug)]
pub struct Camera {
    pub transform: Transform,
    pub projection_matrix: Matrix4,
}

impl Camera {
    /// A camera at the default transform whose projection is built once
    /// from `f`, the reciprocal tangent of half the field of view, the
    /// aspect ratio, and the near and far clip planes.
    pub fn new(f: i64, aspect: i64, z_near: i64, z_far: i64) -> (r: Self)
        requires
            iabs(f as int) <= FX_BOUND as int,
            iabs(aspect as int) <= FX_BOUND as int,
            iabs(z_near as int) <= FX_BOUND as int,
            iabs(z_far as int) <= FX_BOUND as int,
            aspect != 0,
            z_near != z_far,
        ensures
            r.transform == transform_default_spec(),
            r.projection_matrix == project_spec(f as int, aspect as int, z_near as int, z_far as int),
    {
        Self {
            transform: Transform::default(),
            projection_matrix: Matrix4::project(f, aspect, z_near, z_far),
        }
    }

    /// The projection matrix, for the uniform payload.
    pub fn get_projection_matrix(&self) -> (r: Matrix4)
        ensures
            r == self.projection_matrix,
    {
        self.projection_matrix
    }
}

} // verus!
