//! Plane angles, read through their cosine and sine.
//!
//! Trigonometric evaluation is not this library's business: an angle enters
//! the geometry as the fixed-point pair of its cosine and sine, and every
//! rotation is built from that pair exactly.

use vstd::prelude::*;
use crate::fixed::{iabs, isqrt, sqrt_floor, SCALE};

verus! {

/// An angle, represented by its cosine and sine in fixed point.
#[derive(Clone, Copy, PartialEq, Eq, Structural, Debug)]
pub struct Angle {
    pub cos: i64,
    pub sin: i64,
}

/// A well-formed angle: cosine and sine each within one unit.
pub open spec fn angle_wf(a: Angle) -> bool {
    iabs(a.cos as int) <= SCALE as int && iabs(a.sin as int) <= SCALE as int
}

/// The zero angle: cosine one, sine zero.
pub open spec fn angle_identity() -> Angle {
    Angle { cos: SCALE, sin: 0 }
}

/// `s` pushed into the representable sine range `[-SCALE, SCALE]`.
pub open spec fn clamp_unit_spec(s: int) -> int {
    if s > SCALE as int {
        SCALE as int
    } else if s < -(SCALE as int) {
        -(SCALE as int)
    } else {
        s
    }
}

impl Angle {
    pub fn new(cos: i64, sin: i64) -> (r: Self)
        requires
            iabs(cos as int) <= SCALE as int,
            iabs(sin as int) <= SCALE as int,
        ensures
            r.cos == cos,
            r.sin == sin,
            angle_wf(r),
    {
        Self { cos, sin }
    }

    /// The zero angle: cosine one, sine zero.
    pub fn identity() -> (r: Self)
        ensures
            r == angle_identity(),
            angle_wf(r),
    {
        Self { cos: SCALE, sin: 0 }
    }

    /// The angle whose sine is `s`, restricted as an arcsine is to a
    /// nonnegative cosine; `s` is clamped to the representable sine range.
    pub fn from_sin(s: i64) -> (r: Self)
        ensures
            r.sin as int == clamp_unit_spec(s as int),
            r.cos as int == sqrt_floor(
                (SCALE as int) * (SCALE as int) - clamp_unit_spec(s as int) * clamp_unit_spec(
                    s as int,
                ),
            ),
            r.cos >= 0,
            angle_wf(r),
    {
        let sc: i64 = if s > SCALE {
            SCALE
        } else if s < -SCALE {
            -SCALE
        } else {
            s
        };
        proof {
            assert(0 <= (sc as int) * (sc as int) <= (SCALE as int) * (SCALE as int))
                by (nonlinear_arith)
                requires
                    iabs(sc as int) <= SCALE as int,
            ;
        }
        let d: i64 = SCALE * SCALE - sc * sc;
        let c = isqrt(d as u64);
        proof {
            assert(c as int <= SCALE as int) by (nonlinear_arith)
                requires
                    0 <= c as int,
                    (c as int) * (c as int) <= d as int,
                    d as int <= 0x1_0000_0000,
                    SCALE as int == 0x1_0000,
            ;
        }
        Self { cos: c as i64, sin: sc }
    }
}

/// Euler angles: one rotation angle about each axis.
#[derive(Clone, Copy, PartialEq, Eq, Structural, Debug)]
pub struct EulerAngles {
    pub x: Angle,
    pub y: Angle,
    pub z: Angle,
}

/// All three angles are well formed.
pub open spec fn euler_wf(e: EulerAngles) -> bool {
    angle_wf(e.x) && angle_wf(e.y) && angle_wf(e.z)
}

/// All three angles zero.
pub open spec fn euler_identity() -> EulerAngles {
    EulerAngles { x: angle_identity(), y: angle_identity(), z: angle_identity() }
}

impl EulerAngles {
    pub fn new(x: Angle, y: Angle, z: Angle) -> (r: Self)
        ensures
            r.x == x,
            r.y == y,
            r.z == z,
    {
        Self { x, y, z }
    }

    /// All three angles zero.
    pub fn identity() -> (r: Self)
        ensures
            r == euler_identity(),
            euler_wf(r),
    {
        Self { x: Angle::identity(), y: Angle::identity(), z: Angle::identity() }
    }
}

} // verus!
