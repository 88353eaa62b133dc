//! Rigid-body transforms: position, Euler rotation and scale composed
//! into one world matrix, with camera orientation derived from a target.

use vstd::prelude::*;
use crate::angle::{clamp_unit_spec, euler_identity, euler_wf, Angle, EulerAngles};
use crate::fixed::{iabs, sqrt_floor, FX_BOUND, SCALE};
use crate::matrix::{
    identity_spec, lemma_fields_bounded, lemma_identity_mul, lemma_mat_bounded_mono,
    lemma_mat_mul_bound, rotate_euler_spec, rotate_x_spec, rotate_y_spec, rotate_z_spec,
    scale_spec, smul_m, translate_spec, Matrix4,
};
use crate::vector::{
    cross_x_spec, cross_y_spec, cross_z_spec, dot_spec, lemma_dot_bound, lemma_snormalize_bound,
    snormalize, vec_bounded, Vector3,
};
use vstd::arithmetic::div_mod::lemma_div_multiples_vanish;

verus! {

/// Largest scale-component magnitude a transform accepts: keeps the whole
/// world-matrix composition within 64-bit arithmetic.
pub const COORD_LIMIT: i64 = 16777216;

#[derive(Clone, Copy, PartialEq, Eq, Structural, Debug)]
pub struct Transform {
    pub position: Vector3<i64>,
    pub rotation: EulerAngles,
    pub scale: Vector3<i64>,
}

/// A well-formed transform: bounded position and scale, well-formed angles.
pub open spec fn transform_wf(t: Transform) -> bool {
    vec_bounded(t.position, FX_BOUND as int) && vec_bounded(t.scale, COORD_LIMIT as int)
        && euler_wf(t.rotation)
}

/// The default transform: no displacement, no rotation, unit scale.
pub open spec fn transform_default_spec() -> Transform {
    Transform {
        position: Vector3 { x: 0, y: 0, z: 0 },
        rotation: euler_identity(),
        scale: Vector3 { x: SCALE, y: SCALE, z: SCALE },
    }
}

/// The world matrix of a transform: the rotation composed with the scale
/// composed with the translation, the translation applying first under
/// the right-applies-first convention.
pub open spec fn get_transform_spec(t: Transform) -> Matrix4 {
    smul_m(smul_m(rotate_euler_spec(t.rotation), scale_spec(t.scale)), translate_spec(t.position))
}

/// The angle whose sine is `s`, as `Angle::from_sin` builds it.
pub open spec fn angle_from_sin_spec(s: int) -> Angle {
    Angle {
        cos: (sqrt_floor(
            (SCALE as int) * (SCALE as int) - clamp_unit_spec(s) * clamp_unit_spec(s),
        )) as i64,
        sin: (clamp_unit_spec(s)) as i64,
    }
}

/// The transform after turning toward `target`: an orthonormal camera
/// basis is derived from the direction to the target and the given up
/// direction, the position is re-expressed against that basis, and the
/// rotation is recovered componentwise through arcsines. A target equal
/// to the current position leaves the transform unchanged.
pub open spec fn look_at_spec(t: Transform, target: Vector3<i64>, up: Vector3<i64>) -> Transform {
    let pos = t.position;
    let d = Vector3 {
        x: (target.x as int - pos.x as int) as i64,
        y: (target.y as int - pos.y as int) as i64,
        z: (target.z as int - pos.z as int) as i64,
    };
    if dot_spec(d, d) == 0 {
        t
    } else {
        let fwd = snormalize(d);
        let un = snormalize(up);
        let r0 = Vector3 {
            x: (cross_x_spec(fwd, un)) as i64,
            y: (cross_y_spec(fwd, un)) as i64,
            z: (cross_z_spec(fwd, un)) as i64,
        };
        let rn = snormalize(r0);
        let u2 = Vector3 {
            x: (cross_x_spec(rn, fwd)) as i64,
            y: (cross_y_spec(rn, fwd)) as i64,
            z: (cross_z_spec(rn, fwd)) as i64,
        };
        Transform {
            position: Vector3 {
                x: (-dot_spec(rn, pos)) as i64,
                y: (-dot_spec(u2, pos)) as i64,
                z: (dot_spec(fwd, pos)) as i64,
            },
            rotation: EulerAngles {
                x: angle_from_sin_spec(-(fwd.y as int)),
                y: angle_from_sin_spec(rn.z as int),
                z: angle_from_sin_spec(u2.x as int),
            },
            scale: Vector3 { x: rn.x, y: u2.y, z: (-(fwd.z as int)) as i64 },
        }
    }
}

impl Transform {
    /// The world matrix: rotation, then scale, then translation composed
    /// so that the translation's transform applies first.
    pub fn get_transform(&self) -> (r: Matrix4)
        requires
            transform_wf(*self),
        ensures
            r == get_transform_spec(*self),
    {
        let t = Matrix4::translate(self.position);
        let rot = Matrix4::rotate_euler(&self.rotation);
        let s = Matrix4::scale(self.scale);
        proof {
            lemma_fields_bounded(s, COORD_LIMIT as int);
            lemma_fields_bounded(t, FX_BOUND as int);
            lemma_mat_bounded_mono(rot, 16 * (SCALE as int), FX_BOUND as int);
            lemma_mat_bounded_mono(s, COORD_LIMIT as int, FX_BOUND as int);
            lemma_mat_mul_bound(rot, s, 16 * (SCALE as int), COORD_LIMIT as int);
            lemma_chain_bound();
        }
        let rs = rot.mul(&s);
        proof {
            lemma_mat_bounded_mono(rs, FX_BOUND as int, FX_BOUND as int);
        }
        rs.mul(&t)
    }

    /// Turns the transform toward `target`, using `up` to fix the roll;
    /// reports whether anything changed. When the target coincides with
    /// the current position the transform is left untouched and `false`
    /// comes back, the caller's cue for a diagnostic.
    pub fn look_at(&mut self, target: Vector3<i64>, up: Vector3<i64>) -> (applied: bool)
        requires
            transform_wf(*old(self)),
            vec_bounded(old(self).position, COORD_LIMIT as int),
            vec_bounded(target, COORD_LIMIT as int),
            vec_bounded(up, FX_BOUND as int),
        ensures
            *final(self) == look_at_spec(*old(self), target, up),
            transform_wf(*final(self)),
            applied == (dot_spec(
                look_at_delta(*old(self), target),
                look_at_delta(*old(self), target),
            ) != 0),
    {
        let pos = self.position;
        let mut f = target.sub(pos);
        let ghost d = f;
        if f.length_squared() == 0 {
            return false;
        }
        proof {
            lemma_snormalize_bound(d);
        }
        f.normalize();
        let mut u = up;
        proof {
            lemma_snormalize_bound(up);
        }
        u.normalize();
        proof {
            lemma_cross_of_bounded(f, u);
        }
        let mut r = f.cross(&u);
        let ghost r0 = r;
        proof {
            lemma_snormalize_bound(r0);
        }
        r.normalize();
        proof {
            lemma_cross_of_bounded(r, f);
            lemma_dot_bound(r, pos, 2 * (SCALE as int), COORD_LIMIT as int);
            lemma_dot_bound(f, pos, 2 * (SCALE as int), COORD_LIMIT as int);
            lemma_small_dot_limits();
        }
        u = r.cross(&f);
        proof {
            lemma_dot_bound(u, pos, 8 * (SCALE as int), COORD_LIMIT as int);
        }
        self.set_position(Vector3::new(-r.dot(&pos), -u.dot(&pos), f.dot(&pos)));
        self.set_rotation(
            EulerAngles::new(Angle::from_sin(-f.y), Angle::from_sin(r.z), Angle::from_sin(u.x)),
        );
        self.set_scale(Vector3::new(r.x, u.y, -f.z));
        true
    }

    pub fn set_position(&mut self, pos: Vector3<i64>)
        requires
            vec_bounded(pos, FX_BOUND as int),
        ensures
            final(self).position == pos,
            final(self).rotation == old(self).rotation,
            final(self).scale == old(self).scale,
    {
        self.position = pos;
    }

    pub fn set_rotation(&mut self, angles: EulerAngles)
        requires
            euler_wf(angles),
        ensures
            final(self).rotation == angles,
            final(self).position == old(self).position,
            final(self).scale == old(self).scale,
    {
        self.rotation = angles;
    }

    pub fn set_scale(&mut self, scale: Vector3<i64>)
        requires
            vec_bounded(scale, COORD_LIMIT as int),
        ensures
            final(self).scale == scale,
            final(self).position == old(self).position,
            final(self).rotation == old(self).rotation,
    {
        self.scale = scale;
    }

    pub fn get_position(&self) -> (r: Vector3<i64>)
        ensures
            r == self.position,
    {
        self.position
    }

    pub fn get_rotation(&self) -> (r: EulerAngles)
        ensures
            r == self.rotation,
    {
        self.rotation
    }

    pub fn get_scale(&self) -> (r: Vector3<i64>)
        ensures
            r == self.scale,
    {
        self.scale
    }
}

impl Default for Transform {
    /// No displacement, no rotation, unit scale.
    fn default() -> (r: Self)
        ensures
            r == transform_default_spec(),
            transform_wf(r),
    {
        Self {
            position: Vector3::new(0, 0, 0),
            rotation: EulerAngles::identity(),
            scale: Vector3::new(SCALE, SCALE, SCALE),
        }
    }
}

/// The displacement from a transform's position to a target.
pub open spec fn look_at_delta(t: Transform, target: Vector3<i64>) -> Vector3<i64> {
    Vector3 {
        x: (target.x as int - t.position.x as int) as i64,
        y: (target.y as int - t.position.y as int) as i64,
        z: (target.z as int - t.position.z as int) as i64,
    }
}

/// The world matrix of the default transform is the identity matrix.
pub proof fn lemma_default_transform_identity()
    ensures
        get_transform_spec(transform_default_spec()) == identity_spec(),
{
    let t = transform_default_spec();
    assert(rotate_x_spec(t.rotation.x) == identity_spec());
    assert(rotate_y_spec(t.rotation.y) == identity_spec());
    assert(rotate_z_spec(t.rotation.z) == identity_spec());
    lemma_identity_mul(identity_spec());
    assert(rotate_euler_spec(t.rotation) == identity_spec());
    assert(scale_spec(t.scale) == identity_spec());
    assert(translate_spec(t.position) == identity_spec());
}

/// The cross product of two vectors bounded by two units is bounded by
/// eight units.
proof fn lemma_cross_of_bounded(a: Vector3<i64>, b: Vector3<i64>)
    requires
        vec_bounded(a, 2 * (SCALE as int)),
        vec_bounded(b, 2 * (SCALE as int)),
    ensures
        iabs(cross_x_spec(a, b)) <= 8 * (SCALE as int),
        iabs(cross_y_spec(a, b)) <= 8 * (SCALE as int),
        iabs(cross_z_spec(a, b)) <= 8 * (SCALE as int),
{
    let s = SCALE as int;
    crate::fixed::lemma_fx_mul_bound(a.y as int, b.z as int, 2 * s, 2 * s);
    crate::fixed::lemma_fx_mul_bound(a.z as int, b.y as int, 2 * s, 2 * s);
    crate::fixed::lemma_fx_mul_bound(a.z as int, b.x as int, 2 * s, 2 * s);
    crate::fixed::lemma_fx_mul_bound(a.x as int, b.z as int, 2 * s, 2 * s);
    crate::fixed::lemma_fx_mul_bound(a.x as int, b.y as int, 2 * s, 2 * s);
    crate::fixed::lemma_fx_mul_bound(a.y as int, b.x as int, 2 * s, 2 * s);
    assert((2 * s) * (2 * s) == 4 * (s * s)) by (nonlinear_arith);
    lemma_div_multiples_vanish(4 * s, s);
    assert(s * (4 * s) == 4 * (s * s)) by (nonlinear_arith);
}

/// Numeric limits of the dot products taken inside `look_at`: they stay
/// within the bound that a position accepts.
proof fn lemma_small_dot_limits()
    ensures
        3 * ((2 * (SCALE as int)) * (COORD_LIMIT as int) / (SCALE as int)) <= FX_BOUND as int,
        3 * ((8 * (SCALE as int)) * (COORD_LIMIT as int) / (SCALE as int)) <= FX_BOUND as int,
{
    let s = SCALE as int;
    let c = COORD_LIMIT as int;
    assert((2 * s) * c == s * (2 * c)) by (nonlinear_arith);
    lemma_div_multiples_vanish(2 * c, s);
    assert((8 * s) * c == s * (8 * c)) by (nonlinear_arith);
    lemma_div_multiples_vanish(8 * c, s);
}

/// Numeric limit of the chained world-matrix product: the product of the
/// rotation bound and the scale bound, rescaled, stays within `FX_BOUND`.
proof fn lemma_chain_bound()
    ensures
        4 * ((16 * (SCALE as int)) * (COORD_LIMIT as int) / (SCALE as int)) == FX_BOUND as int,
        (16 * (SCALE as int)) * (COORD_LIMIT as int) <= 0x4000_0000_0000_0000,
{
    let s = SCALE as int;
    let c = COORD_LIMIT as int;
    assert((16 * s) * c == s * (16 * c)) by (nonlinear_arith);
    lemma_div_multiples_vanish(16 * c, s);
    assert(s * (16 * c) == 0x1000_0000_0000) by (nonlinear_arith)
        requires
            s == 65536,
            c == 16777216,
    ;
}

} // verus!
