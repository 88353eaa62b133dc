//! 4x4 matrices over fixed-point scalars.
//!
//! A matrix is addressed by a `(row, column)` pair through [`entry`]; the
//! multiplication composes transforms under the convention that the right
//! operand's transform applies first.

use vstd::prelude::*;
use crate::angle::{angle_wf, euler_wf, Angle, EulerAngles};
use crate::fixed::{
    fx_div, fx_div_spec, fx_mul, fx_mul_spec, iabs, idiv, lemma_abs_mul_le,
    lemma_fx_bound_sq_div, lemma_fx_mul_bound, lemma_fx_unit_all, lemma_iabs_mul, tdiv,
    FX_BOUND, SCALE,
};
use crate::vector::Vector3;
use vstd::arithmetic::div_mod::{lemma_div_is_ordered, lemma_div_multiples_vanish};
use vstd::arithmetic::mul::{
    lemma_mul_is_associative, lemma_mul_is_commutative, lemma_mul_is_distributive_add,
    lemma_mul_is_distributive_add_other_way, lemma_mul_is_distributive_sub,
};

verus! {

#[derive(Clone, Copy, PartialEq, Eq, Structural, Debug)]
pub struct Matrix4 {
    pub m00: i64,
    pub m10: i64,
    pub m20: i64,
    pub m30: i64,
    pub m01: i64,
    pub m11: i64,
    pub m21: i64,
    pub m31: i64,
    pub m02: i64,
    pub m12: i64,
    pub m22: i64,
    pub m32: i64,
    pub m03: i64,
    pub m13: i64,
    pub m23: i64,
    pub m33: i64,
}

/// The entry of `m` at row `r`, column `c`.
pub open spec fn entry(m: Matrix4, r: int, c: int) -> int {
    if r == 0 && c == 0 {
        m.m00 as int
    } else if r == 0 && c == 1 {
        m.m01 as int
    } else if r == 0 && c == 2 {
        m.m02 as int
    } else if r == 0 && c == 3 {
        m.m03 as int
    } else if r == 1 && c == 0 {
        m.m10 as int
    } else if r == 1 && c == 1 {
        m.m11 as int
    } else if r == 1 && c == 2 {
        m.m12 as int
    } else if r == 1 && c == 3 {
        m.m13 as int
    } else if r == 2 && c == 0 {
        m.m20 as int
    } else if r == 2 && c == 1 {
        m.m21 as int
    } else if r == 2 && c == 2 {
        m.m22 as int
    } else if r == 2 && c == 3 {
        m.m23 as int
    } else if r == 3 && c == 0 {
        m.m30 as int
    } else if r == 3 && c == 1 {
        m.m31 as int
    } else if r == 3 && c == 2 {
        m.m32 as int
    } else if r == 3 && c == 3 {
        m.m33 as int
    } else {
        0
    }
}

/// Every entry of `m` has magnitude at most `b`.
pub open spec fn mat_bounded(m: Matrix4, b: int) -> bool {
    forall|r: int, c: int|
        0 <= r < 4 && 0 <= c < 4 ==> iabs(#[trigger] entry(m, r, c)) <= b
}

/// A four-term fixed-point dot product.
pub open spec fn dot4(
    a0: int,
    b0: int,
    a1: int,
    b1: int,
    a2: int,
    b2: int,
    a3: int,
    b3: int,
) -> int {
    fx_mul_spec(a0, b0) + fx_mul_spec(a1, b1) + fx_mul_spec(a2, b2) + fx_mul_spec(a3, b3)
}

/// The fixed-point matrix product: entry `(r, c)` is the dot product of
/// row `r` of `a` with column `c` of `b`.
pub open spec fn smul_m(a: Matrix4, b: Matrix4) -> Matrix4 {
    Matrix4 {
        m00: (dot4(a.m00 as int, b.m00 as int, a.m01 as int, b.m10 as int, a.m02 as int, b.m20 as int, a.m03 as int, b.m30 as int)) as i64,
        m10: (dot4(a.m10 as int, b.m00 as int, a.m11 as int, b.m10 as int, a.m12 as int, b.m20 as int, a.m13 as int, b.m30 as int)) as i64,
        m20: (dot4(a.m20 as int, b.m00 as int, a.m21 as int, b.m10 as int, a.m22 as int, b.m20 as int, a.m23 as int, b.m30 as int)) as i64,
        m30: (dot4(a.m30 as int, b.m00 as int, a.m31 as int, b.m10 as int, a.m32 as int, b.m20 as int, a.m33 as int, b.m30 as int)) as i64,
        m01: (dot4(a.m00 as int, b.m01 as int, a.m01 as int, b.m11 as int, a.m02 as int, b.m21 as int, a.m03 as int, b.m31 as int)) as i64,
        m11: (dot4(a.m10 as int, b.m01 as int, a.m11 as int, b.m11 as int, a.m12 as int, b.m21 as int, a.m13 as int, b.m31 as int)) as i64,
        m21: (dot4(a.m20 as int, b.m01 as int, a.m21 as int, b.m11 as int, a.m22 as int, b.m21 as int, a.m23 as int, b.m31 as int)) as i64,
        m31: (dot4(a.m30 as int, b.m01 as int, a.m31 as int, b.m11 as int, a.m32 as int, b.m21 as int, a.m33 as int, b.m31 as int)) as i64,
        m02: (dot4(a.m00 as int, b.m02 as int, a.m01 as int, b.m12 as int, a.m02 as int, b.m22 as int, a.m03 as int, b.m32 as int)) as i64,
        m12: (dot4(a.m10 as int, b.m02 as int, a.m11 as int, b.m12 as int, a.m12 as int, b.m22 as int, a.m13 as int, b.m32 as int)) as i64,
        m22: (dot4(a.m20 as int, b.m02 as int, a.m21 as int, b.m12 as int, a.m22 as int, b.m22 as int, a.m23 as int, b.m32 as int)) as i64,
        m32: (dot4(a.m30 as int, b.m02 as int, a.m31 as int, b.m12 as int, a.m32 as int, b.m22 as int, a.m33 as int, b.m32 as int)) as i64,
        m03: (dot4(a.m00 as int, b.m03 as int, a.m01 as int, b.m13 as int, a.m02 as int, b.m23 as int, a.m03 as int, b.m33 as int)) as i64,
        m13: (dot4(a.m10 as int, b.m03 as int, a.m11 as int, b.m13 as int, a.m12 as int, b.m23 as int, a.m13 as int, b.m33 as int)) as i64,
        m23: (dot4(a.m20 as int, b.m03 as int, a.m21 as int, b.m13 as int, a.m22 as int, b.m23 as int, a.m23 as int, b.m33 as int)) as i64,
        m33: (dot4(a.m30 as int, b.m03 as int, a.m31 as int, b.m13 as int, a.m32 as int, b.m23 as int, a.m33 as int, b.m33 as int)) as i64,
    }
}

/// Rows and columns swapped.
pub open spec fn transpose_spec(m: Matrix4) -> Matrix4 {
    Matrix4 {
        m00: m.m00,
        m10: m.m01,
        m20: m.m02,
        m30: m.m03,
        m01: m.m10,
        m11: m.m11,
        m21: m.m12,
        m31: m.m13,
        m02: m.m20,
        m12: m.m21,
        m22: m.m22,
        m32: m.m23,
        m03: m.m30,
        m13: m.m31,
        m23: m.m32,
        m33: m.m33,
    }
}

/// The all-zero matrix.
pub open spec fn zero_spec() -> Matrix4 {
    Matrix4 {
        m00: 0,
        m10: 0,
        m20: 0,
        m30: 0,
        m01: 0,
        m11: 0,
        m21: 0,
        m31: 0,
        m02: 0,
        m12: 0,
        m22: 0,
        m32: 0,
        m03: 0,
        m13: 0,
        m23: 0,
        m33: 0,
    }
}

/// The identity matrix: one whole unit on the diagonal.
pub open spec fn identity_spec() -> Matrix4 {
    Matrix4 {
        m00: SCALE,
        m10: 0,
        m20: 0,
        m30: 0,
        m01: 0,
        m11: SCALE,
        m21: 0,
        m31: 0,
        m02: 0,
        m12: 0,
        m22: SCALE,
        m32: 0,
        m03: 0,
        m13: 0,
        m23: 0,
        m33: SCALE,
    }
}

/// The identity with the translation components in the bottom row.
pub open spec fn translate_spec(v: Vector3<i64>) -> Matrix4 {
    Matrix4 {
        m00: SCALE,
        m10: 0,
        m20: 0,
        m30: v.x,
        m01: 0,
        m11: SCALE,
        m21: 0,
        m31: v.y,
        m02: 0,
        m12: 0,
        m22: SCALE,
        m32: v.z,
        m03: 0,
        m13: 0,
        m23: 0,
        m33: SCALE,
    }
}

/// The diagonal matrix of the scale factors.
pub open spec fn scale_spec(v: Vector3<i64>) -> Matrix4 {
    Matrix4 {
        m00: v.x,
        m10: 0,
        m20: 0,
        m30: 0,
        m01: 0,
        m11: v.y,
        m21: 0,
        m31: 0,
        m02: 0,
        m12: 0,
        m22: v.z,
        m32: 0,
        m03: 0,
        m13: 0,
        m23: 0,
        m33: SCALE,
    }
}

/// Rotation about the x axis by the angle `a`.
pub open spec fn rotate_x_spec(a: Angle) -> Matrix4 {
    Matrix4 {
        m00: SCALE,
        m10: 0,
        m20: 0,
        m30: 0,
        m01: 0,
        m11: a.cos,
        m21: ((-(a.sin as int)) as i64),
        m31: 0,
        m02: 0,
        m12: a.sin,
        m22: a.cos,
        m32: 0,
        m03: 0,
        m13: 0,
        m23: 0,
        m33: SCALE,
    }
}

/// Rotation about the y axis by the angle `a`.
pub open spec fn rotate_y_spec(a: Angle) -> Matrix4 {
    Matrix4 {
        m00: a.cos,
        m10: 0,
        m20: a.sin,
        m30: 0,
        m01: 0,
        m11: SCALE,
        m21: 0,
        m31: 0,
        m02: ((-(a.sin as int)) as i64),
        m12: 0,
        m22: a.cos,
        m32: 0,
        m03: 0,
        m13: 0,
        m23: 0,
        m33: SCALE,
    }
}

/// Rotation about the z axis by the angle `a`.
pub open spec fn rotate_z_spec(a: Angle) -> Matrix4 {
    Matrix4 {
        m00: a.cos,
        m10: ((-(a.sin as int)) as i64),
        m20: 0,
        m30: 0,
        m01: a.sin,
        m11: a.cos,
        m21: 0,
        m31: 0,
        m02: 0,
        m12: 0,
        m22: SCALE,
        m32: 0,
        m03: 0,
        m13: 0,
        m23: 0,
        m33: SCALE,
    }
}

/// The composed Euler rotation: z, then y, then x applied first under the
/// right-applies-first convention.
pub open spec fn rotate_euler_spec(e: EulerAngles) -> Matrix4 {
    smul_m(smul_m(rotate_z_spec(e.z), rotate_y_spec(e.y)), rotate_x_spec(e.x))
}

/// The perspective projection built from the reciprocal tangent `f` of half
/// the field of view, the aspect ratio, and the near and far clip planes.
pub open spec fn project_spec(f: int, aspect: int, z_near: int, z_far: int) -> Matrix4 {
    Matrix4 {
        m00: (fx_div_spec(f, aspect)) as i64,
        m10: 0,
        m20: 0,
        m30: 0,
        m01: 0,
        m11: f as i64,
        m21: 0,
        m31: 0,
        m02: 0,
        m12: 0,
        m22: (fx_div_spec(z_far + z_near, z_near - z_far)) as i64,
        m32: (tdiv(-2 * z_far * z_near, z_near - z_far)) as i64,
        m03: 0,
        m13: 0,
        m23: ((-(SCALE as int)) as i64),
        m33: SCALE,
    }
}

/// The wire layout of a matrix: the matrix transposed, then scanned in
/// field-declaration order, which reads the untransposed matrix row by
/// row.
pub open spec fn flatten_spec(m: Matrix4) -> Seq<i64> {
    seq![
        m.m00, m.m01, m.m02, m.m03, m.m10, m.m11, m.m12, m.m13, m.m20, m.m21, m.m22, m.m23, m.m30, m.m31, m.m32, m.m33
    ]
}

impl Matrix4 {
    /// The all-zero matrix.
    pub fn new() -> (r: Matrix4)
        ensures
            r == zero_spec(),
    {
        Self {
            m00: 0,
            m10: 0,
            m20: 0,
            m30: 0,
            m01: 0,
            m11: 0,
            m21: 0,
            m31: 0,
            m02: 0,
            m12: 0,
            m22: 0,
            m32: 0,
            m03: 0,
            m13: 0,
            m23: 0,
            m33: 0,
        }
    }

    /// The identity matrix.
    pub fn identity() -> (r: Matrix4)
        ensures
            r == identity_spec(),
    {
        Self {
            m00: SCALE,
            m10: 0,
            m20: 0,
            m30: 0,
            m01: 0,
            m11: SCALE,
            m21: 0,
            m31: 0,
            m02: 0,
            m12: 0,
            m22: SCALE,
            m32: 0,
            m03: 0,
            m13: 0,
            m23: 0,
            m33: SCALE,
        }
    }

    /// The translation by `vec`.
    pub fn translate(vec: Vector3<i64>) -> (r: Matrix4)
        ensures
            r == translate_spec(vec),
    {
        let mut t: Matrix4 = Matrix4::identity();
        t.m30 = vec.x;
        t.m31 = vec.y;
        t.m32 = vec.z;
        t
    }

    /// The scaling by `vec`.
    pub fn scale(vec: Vector3<i64>) -> (r: Matrix4)
        ensures
            r == scale_spec(vec),
    {
        let mut s: Matrix4 = Matrix4::identity();
        s.m00 = vec.x;
        s.m11 = vec.y;
        s.m22 = vec.z;
        s
    }

    /// Rotation about the x axis.
    pub fn rotate_euler_x(a: &Angle) -> (r: Matrix4)
        requires
            angle_wf(*a),
        ensures
            r == rotate_x_spec(*a),
            mat_bounded(r, SCALE as int),
    {
        let m = Self {
            m00: SCALE,
            m10: 0,
            m20: 0,
            m30: 0,
            m01: 0,
            m11: a.cos,
            m21: -a.sin,
            m31: 0,
            m02: 0,
            m12: a.sin,
            m22: a.cos,
            m32: 0,
            m03: 0,
            m13: 0,
            m23: 0,
            m33: SCALE,
        };
        proof {
            lemma_fields_bounded(m, SCALE as int);
        }
        m
    }

    /// Rotation about the y axis.
    pub fn rotate_euler_y(a: &Angle) -> (r: Matrix4)
        requires
            angle_wf(*a),
        ensures
            r == rotate_y_spec(*a),
            mat_bounded(r, SCALE as int),
    {
        let m = Self {
            m00: a.cos,
            m10: 0,
            m20: a.sin,
            m30: 0,
            m01: 0,
            m11: SCALE,
            m21: 0,
            m31: 0,
            m02: -a.sin,
            m12: 0,
            m22: a.cos,
            m32: 0,
            m03: 0,
            m13: 0,
            m23: 0,
            m33: SCALE,
        };
        proof {
            lemma_fields_bounded(m, SCALE as int);
        }
        m
    }

    /// Rotation about the z axis.
    pub fn rotate_euler_z(a: &Angle) -> (r: Matrix4)
        requires
            angle_wf(*a),
        ensures
            r == rotate_z_spec(*a),
            mat_bounded(r, SCALE as int),
    {
        let m = Self {
            m00: a.cos,
            m10: -a.sin,
            m20: 0,
            m30: 0,
            m01: a.sin,
            m11: a.cos,
            m21: 0,
            m31: 0,
            m02: 0,
            m12: 0,
            m22: SCALE,
            m32: 0,
            m03: 0,
            m13: 0,
            m23: 0,
            m33: SCALE,
        };
        proof {
            lemma_fields_bounded(m, SCALE as int);
        }
        m
    }

    /// The composed Euler rotation: the x rotation applies first, then y,
    /// then z.
    pub fn rotate_euler(angles: &EulerAngles) -> (r: Matrix4)
        requires
            euler_wf(*angles),
        ensures
            r == rotate_euler_spec(*angles),
            mat_bounded(r, 16 * (SCALE as int)),
    {
        let a: Matrix4 = Matrix4::rotate_euler_x(&angles.x);
        let b: Matrix4 = Matrix4::rotate_euler_y(&angles.y);
        let c: Matrix4 = Matrix4::rotate_euler_z(&angles.z);
        proof {
            lemma_scale_products();
            lemma_mat_bounded_mono(c, SCALE as int, FX_BOUND as int);
            lemma_mat_bounded_mono(b, SCALE as int, FX_BOUND as int);
            lemma_mat_mul_bound(c, b, SCALE as int, SCALE as int);
        }
        let cb = c.mul(&b);
        proof {
            lemma_mat_bounded_mono(cb, 4 * (SCALE as int), FX_BOUND as int);
            lemma_mat_bounded_mono(a, SCALE as int, FX_BOUND as int);
            lemma_mat_mul_bound(cb, a, 4 * (SCALE as int), SCALE as int);
        }
        cb.mul(&a)
    }

    /// The matrix product: composes `self` after `rhs`, so that the
    /// product applied to a vector applies `rhs`'s transform first.
    pub fn mul(&self, rhs: &Matrix4) -> (r: Matrix4)
        requires
            mat_bounded(*self, FX_BOUND as int),
            mat_bounded(*rhs, FX_BOUND as int),
        ensures
            r == smul_m(*self, *rhs),
            mat_bounded(r, 0x4000_0000_0000),
    {
        proof {
            lemma_bounded_fields(*self, FX_BOUND as int);
            lemma_bounded_fields(*rhs, FX_BOUND as int);
        }
        let r00 = row_col(self.m00, rhs.m00, self.m01, rhs.m10, self.m02, rhs.m20, self.m03, rhs.m30);
        let r01 = row_col(self.m00, rhs.m01, self.m01, rhs.m11, self.m02, rhs.m21, self.m03, rhs.m31);
        let r02 = row_col(self.m00, rhs.m02, self.m01, rhs.m12, self.m02, rhs.m22, self.m03, rhs.m32);
        let r03 = row_col(self.m00, rhs.m03, self.m01, rhs.m13, self.m02, rhs.m23, self.m03, rhs.m33);
        let r10 = row_col(self.m10, rhs.m00, self.m11, rhs.m10, self.m12, rhs.m20, self.m13, rhs.m30);
        let r11 = row_col(self.m10, rhs.m01, self.m11, rhs.m11, self.m12, rhs.m21, self.m13, rhs.m31);
        let r12 = row_col(self.m10, rhs.m02, self.m11, rhs.m12, self.m12, rhs.m22, self.m13, rhs.m32);
        let r13 = row_col(self.m10, rhs.m03, self.m11, rhs.m13, self.m12, rhs.m23, self.m13, rhs.m33);
        let r20 = row_col(self.m20, rhs.m00, self.m21, rhs.m10, self.m22, rhs.m20, self.m23, rhs.m30);
        let r21 = row_col(self.m20, rhs.m01, self.m21, rhs.m11, self.m22, rhs.m21, self.m23, rhs.m31);
        let r22 = row_col(self.m20, rhs.m02, self.m21, rhs.m12, self.m22, rhs.m22, self.m23, rhs.m32);
        let r23 = row_col(self.m20, rhs.m03, self.m21, rhs.m13, self.m22, rhs.m23, self.m23, rhs.m33);
        let r30 = row_col(self.m30, rhs.m00, self.m31, rhs.m10, self.m32, rhs.m20, self.m33, rhs.m30);
        let r31 = row_col(self.m30, rhs.m01, self.m31, rhs.m11, self.m32, rhs.m21, self.m33, rhs.m31);
        let r32 = row_col(self.m30, rhs.m02, self.m31, rhs.m12, self.m32, rhs.m22, self.m33, rhs.m32);
        let r33 = row_col(self.m30, rhs.m03, self.m31, rhs.m13, self.m32, rhs.m23, self.m33, rhs.m33);
        let result = Matrix4 {
            m00: r00,
            m10: r10,
            m20: r20,
            m30: r30,
            m01: r01,
            m11: r11,
            m21: r21,
            m31: r31,
            m02: r02,
            m12: r12,
            m22: r22,
            m32: r32,
            m03: r03,
            m13: r13,
            m23: r23,
            m33: r33,
        };
        proof {
            lemma_fields_bounded(result, 0x4000_0000_0000);
        }
        result
    }

    /// Rows and columns swapped; applying it twice restores the matrix.
    pub fn transpose(self) -> (r: Matrix4)
        ensures
            r == transpose_spec(self),
    {
        Matrix4 {
            m00: (self.m00),
            m10: (self.m01),
            m20: (self.m02),
            m30: (self.m03),
            m01: (self.m10),
            m11: (self.m11),
            m21: (self.m12),
            m31: (self.m13),
            m02: (self.m20),
            m12: (self.m21),
            m22: (self.m22),
            m32: (self.m23),
            m03: (self.m30),
            m13: (self.m31),
            m23: (self.m32),
            m33: (self.m33),
        }
    }

    /// The perspective projection. `f` is the reciprocal of the tangent of
    /// half the field of view, in fixed point; evaluating that tangent is
    /// the caller's affair.
    pub fn project(f: i64, aspect: i64, z_near: i64, z_far: i64) -> (r: Matrix4)
        requires
            iabs(f as int) <= FX_BOUND as int,
            iabs(aspect as int) <= FX_BOUND as int,
            iabs(z_near as int) <= FX_BOUND as int,
            iabs(z_far as int) <= FX_BOUND as int,
            aspect != 0,
            z_near != z_far,
        ensures
            r == project_spec(f as int, aspect as int, z_near as int, z_far as int),
    {
        proof {
            lemma_fx_bound_sq_div();
            lemma_abs_mul_le(z_far as int, z_near as int, FX_BOUND as int, FX_BOUND as int);
            assert(iabs(z_far as int * z_near as int) <= 0x1000_0000_0000_0000);
        }
        let p: i64 = z_far * z_near;
        proof {
            assert(-0x1000_0000_0000_0000 <= p as int <= 0x1000_0000_0000_0000);
        }
        let num: i64 = -(p + p);
        proof {
            lemma_mul_is_associative(-2, z_far as int, z_near as int);
            assert(num as int == -2 * (z_far as int) * (z_near as int));
            assert(-0x2000_0000_0000_0000 <= num as int <= 0x2000_0000_0000_0000);
        }
        Self {
            m00: fx_div(f, aspect),
            m10: 0,
            m20: 0,
            m30: 0,
            m01: 0,
            m11: f,
            m21: 0,
            m31: 0,
            m02: 0,
            m12: 0,
            m22: fx_div(z_far + z_near, z_near - z_far),
            m32: idiv(num, z_near - z_far),
            m03: 0,
            m13: 0,
            m23: -SCALE,
            m33: SCALE,
        }
    }

    /// The matrix flattened for upload: transposed, then scanned in
    /// field-declaration order.
    pub fn as_vec(&self) -> (r: Vec<i64>)
        ensures
            r@ == flatten_spec(*self),
            r@.len() == 16,
    {
        let t = self.transpose();
        let a = vec![
            t.m00, t.m10, t.m20, t.m30, t.m01, t.m11, t.m21, t.m31, t.m02, t.m12, t.m22, t.m32, t.m03, t.m13, t.m23, t.m33
        ];
        proof {
            assert(a@ =~= flatten_spec(*self));
        }
        a
    }

    /// The entry at row `r`, column `c`; both must be within the 0..4
    /// range of the matrix.
    pub fn get(&self, r: usize, c: usize) -> (v: i64)
        requires
            r < 4,
            c < 4,
        ensures
            v as int == entry(*self, r as int, c as int),
    {
        if r == 0 {
            if c == 0 {
                self.m00
            } else if c == 1 {
                self.m01
            } else if c == 2 {
                self.m02
            } else {
                self.m03
            }
        } else if r == 1 {
            if c == 0 {
                self.m10
            } else if c == 1 {
                self.m11
            } else if c == 2 {
                self.m12
            } else {
                self.m13
            }
        } else if r == 2 {
            if c == 0 {
                self.m20
            } else if c == 1 {
                self.m21
            } else if c == 2 {
                self.m22
            } else {
                self.m23
            }
        } else {
            if c == 0 {
                self.m30
            } else if c == 1 {
                self.m31
            } else if c == 2 {
                self.m32
            } else {
                self.m33
            }
        }
    }
}


/// One entry of a matrix product: the fixed-point dot product of a row
/// and a column handed in as scalars.
fn row_col(a0: i64, b0: i64, a1: i64, b1: i64, a2: i64, b2: i64, a3: i64, b3: i64) -> (r: i64)
    requires
        iabs(a0 as int) <= FX_BOUND as int,
        iabs(b0 as int) <= FX_BOUND as int,
        iabs(a1 as int) <= FX_BOUND as int,
        iabs(b1 as int) <= FX_BOUND as int,
        iabs(a2 as int) <= FX_BOUND as int,
        iabs(b2 as int) <= FX_BOUND as int,
        iabs(a3 as int) <= FX_BOUND as int,
        iabs(b3 as int) <= FX_BOUND as int,
    ensures
        r as int == dot4(
            a0 as int,
            b0 as int,
            a1 as int,
            b1 as int,
            a2 as int,
            b2 as int,
            a3 as int,
            b3 as int,
        ),
        iabs(r as int) <= 0x4000_0000_0000,
{
    proof {
        lemma_fx_bound_sq_div();
        lemma_abs_mul_le(a0 as int, b0 as int, FX_BOUND as int, FX_BOUND as int);
        lemma_fx_mul_bound(a0 as int, b0 as int, FX_BOUND as int, FX_BOUND as int);
        lemma_abs_mul_le(a1 as int, b1 as int, FX_BOUND as int, FX_BOUND as int);
        lemma_fx_mul_bound(a1 as int, b1 as int, FX_BOUND as int, FX_BOUND as int);
        lemma_abs_mul_le(a2 as int, b2 as int, FX_BOUND as int, FX_BOUND as int);
        lemma_fx_mul_bound(a2 as int, b2 as int, FX_BOUND as int, FX_BOUND as int);
        lemma_abs_mul_le(a3 as int, b3 as int, FX_BOUND as int, FX_BOUND as int);
        lemma_fx_mul_bound(a3 as int, b3 as int, FX_BOUND as int, FX_BOUND as int);
    }
    fx_mul(a0, b0) + fx_mul(a1, b1) + fx_mul(a2, b2) + fx_mul(a3, b3)
}

/// A bound on all entries read off as a bound on each field.
pub proof fn lemma_bounded_fields(m: Matrix4, b: int)
    requires
        mat_bounded(m, b),
    ensures
        iabs(m.m00 as int) <= b,
        iabs(m.m01 as int) <= b,
        iabs(m.m02 as int) <= b,
        iabs(m.m03 as int) <= b,
        iabs(m.m10 as int) <= b,
        iabs(m.m11 as int) <= b,
        iabs(m.m12 as int) <= b,
        iabs(m.m13 as int) <= b,
        iabs(m.m20 as int) <= b,
        iabs(m.m21 as int) <= b,
        iabs(m.m22 as int) <= b,
        iabs(m.m23 as int) <= b,
        iabs(m.m30 as int) <= b,
        iabs(m.m31 as int) <= b,
        iabs(m.m32 as int) <= b,
        iabs(m.m33 as int) <= b,
{
    assert(iabs(entry(m, 0, 0)) <= b);
    assert(iabs(entry(m, 0, 1)) <= b);
    assert(iabs(entry(m, 0, 2)) <= b);
    assert(iabs(entry(m, 0, 3)) <= b);
    assert(iabs(entry(m, 1, 0)) <= b);
    assert(iabs(entry(m, 1, 1)) <= b);
    assert(iabs(entry(m, 1, 2)) <= b);
    assert(iabs(entry(m, 1, 3)) <= b);
    assert(iabs(entry(m, 2, 0)) <= b);
    assert(iabs(entry(m, 2, 1)) <= b);
    assert(iabs(entry(m, 2, 2)) <= b);
    assert(iabs(entry(m, 2, 3)) <= b);
    assert(iabs(entry(m, 3, 0)) <= b);
    assert(iabs(entry(m, 3, 1)) <= b);
    assert(iabs(entry(m, 3, 2)) <= b);
    assert(iabs(entry(m, 3, 3)) <= b);
}

/// A bound on each field assembled into a bound on all entries.
pub proof fn lemma_fields_bounded(m: Matrix4, b: int)
    requires
        iabs(m.m00 as int) <= b,
        iabs(m.m01 as int) <= b,
        iabs(m.m02 as int) <= b,
        iabs(m.m03 as int) <= b,
        iabs(m.m10 as int) <= b,
        iabs(m.m11 as int) <= b,
        iabs(m.m12 as int) <= b,
        iabs(m.m13 as int) <= b,
        iabs(m.m20 as int) <= b,
        iabs(m.m21 as int) <= b,
        iabs(m.m22 as int) <= b,
        iabs(m.m23 as int) <= b,
        iabs(m.m30 as int) <= b,
        iabs(m.m31 as int) <= b,
        iabs(m.m32 as int) <= b,
        iabs(m.m33 as int) <= b,
    ensures
        mat_bounded(m, b),
{
    assert forall|r: int, c: int| 0 <= r < 4 && 0 <= c < 4 implies iabs(
        #[trigger] entry(m, r, c),
    ) <= b by {}
}

/// A bound on all entries weakens to any larger bound.
pub proof fn lemma_mat_bounded_mono(m: Matrix4, b1: int, b2: int)
    requires
        mat_bounded(m, b1),
        b1 <= b2,
    ensures
        mat_bounded(m, b2),
{
    assert forall|r: int, c: int| 0 <= r < 4 && 0 <= c < 4 implies iabs(
        #[trigger] entry(m, r, c),
    ) <= b2 by {
        assert(iabs(entry(m, r, c)) <= b1);
    }
}

/// Bounds on the scalars bound a four-term fixed-point dot product.
proof fn lemma_dot4_bound(
    a0: int,
    b0: int,
    a1: int,
    b1: int,
    a2: int,
    b2: int,
    a3: int,
    b3: int,
    ba: int,
    bb: int,
)
    requires
        iabs(a0) <= ba,
        iabs(b0) <= bb,
        iabs(a1) <= ba,
        iabs(b1) <= bb,
        iabs(a2) <= ba,
        iabs(b2) <= bb,
        iabs(a3) <= ba,
        iabs(b3) <= bb,
    ensures
        iabs(dot4(a0, b0, a1, b1, a2, b2, a3, b3)) <= 4 * (ba * bb / (SCALE as int)),
{
    lemma_fx_mul_bound(a0, b0, ba, bb);
    lemma_fx_mul_bound(a1, b1, ba, bb);
    lemma_fx_mul_bound(a2, b2, ba, bb);
    lemma_fx_mul_bound(a3, b3, ba, bb);
}

/// Bounds on the factors bound every entry of the product matrix.
pub proof fn lemma_mat_mul_bound(a: Matrix4, b: Matrix4, ba: int, bb: int)
    requires
        mat_bounded(a, ba),
        mat_bounded(b, bb),
        ba * bb <= 0x4000_0000_0000_0000,
    ensures
        mat_bounded(smul_m(a, b), 4 * (ba * bb / (SCALE as int))),
{
    lemma_bounded_fields(a, ba);
    lemma_bounded_fields(b, bb);
    lemma_dot4_bound(a.m00 as int, b.m00 as int, a.m01 as int, b.m10 as int, a.m02 as int, b.m20 as int, a.m03 as int, b.m30 as int, ba, bb);
    lemma_dot4_bound(a.m00 as int, b.m01 as int, a.m01 as int, b.m11 as int, a.m02 as int, b.m21 as int, a.m03 as int, b.m31 as int, ba, bb);
    lemma_dot4_bound(a.m00 as int, b.m02 as int, a.m01 as int, b.m12 as int, a.m02 as int, b.m22 as int, a.m03 as int, b.m32 as int, ba, bb);
    lemma_dot4_bound(a.m00 as int, b.m03 as int, a.m01 as int, b.m13 as int, a.m02 as int, b.m23 as int, a.m03 as int, b.m33 as int, ba, bb);
    lemma_dot4_bound(a.m10 as int, b.m00 as int, a.m11 as int, b.m10 as int, a.m12 as int, b.m20 as int, a.m13 as int, b.m30 as int, ba, bb);
    lemma_dot4_bound(a.m10 as int, b.m01 as int, a.m11 as int, b.m11 as int, a.m12 as int, b.m21 as int, a.m13 as int, b.m31 as int, ba, bb);
    lemma_dot4_bound(a.m10 as int, b.m02 as int, a.m11 as int, b.m12 as int, a.m12 as int, b.m22 as int, a.m13 as int, b.m32 as int, ba, bb);
    lemma_dot4_bound(a.m10 as int, b.m03 as int, a.m11 as int, b.m13 as int, a.m12 as int, b.m23 as int, a.m13 as int, b.m33 as int, ba, bb);
    lemma_dot4_bound(a.m20 as int, b.m00 as int, a.m21 as int, b.m10 as int, a.m22 as int, b.m20 as int, a.m23 as int, b.m30 as int, ba, bb);
    lemma_dot4_bound(a.m20 as int, b.m01 as int, a.m21 as int, b.m11 as int, a.m22 as int, b.m21 as int, a.m23 as int, b.m31 as int, ba, bb);
    lemma_dot4_bound(a.m20 as int, b.m02 as int, a.m21 as int, b.m12 as int, a.m22 as int, b.m22 as int, a.m23 as int, b.m32 as int, ba, bb);
    lemma_dot4_bound(a.m20 as int, b.m03 as int, a.m21 as int, b.m13 as int, a.m22 as int, b.m23 as int, a.m23 as int, b.m33 as int, ba, bb);
    lemma_dot4_bound(a.m30 as int, b.m00 as int, a.m31 as int, b.m10 as int, a.m32 as int, b.m20 as int, a.m33 as int, b.m30 as int, ba, bb);
    lemma_dot4_bound(a.m30 as int, b.m01 as int, a.m31 as int, b.m11 as int, a.m32 as int, b.m21 as int, a.m33 as int, b.m31 as int, ba, bb);
    lemma_dot4_bound(a.m30 as int, b.m02 as int, a.m31 as int, b.m12 as int, a.m32 as int, b.m22 as int, a.m33 as int, b.m32 as int, ba, bb);
    lemma_dot4_bound(a.m30 as int, b.m03 as int, a.m31 as int, b.m13 as int, a.m32 as int, b.m23 as int, a.m33 as int, b.m33 as int, ba, bb);
    lemma_div_is_ordered(ba * bb, 0x4000_0000_0000_0000, SCALE as int);
    lemma_div_multiples_vanish(0x4000_0000_0000, SCALE as int);
    assert((SCALE as int) * 0x4000_0000_0000 == 0x4000_0000_0000_0000);
    let p = smul_m(a, b);
    let bd = 4 * (ba * bb / (SCALE as int));
    assert forall|r: int, c: int| 0 <= r < 4 && 0 <= c < 4 implies iabs(
        #[trigger] entry(p, r, c),
    ) <= bd by {}
}

/// Numeric facts about small multiples of `SCALE` used when chaining
/// matrix products of rotations.
proof fn lemma_scale_products()
    ensures
        (SCALE as int) * (SCALE as int) == 0x1_0000_0000,
        4 * ((SCALE as int) * (SCALE as int) / (SCALE as int)) == 4 * (SCALE as int),
        (4 * (SCALE as int)) * (SCALE as int) == 0x4_0000_0000,
        4 * ((4 * (SCALE as int)) * (SCALE as int) / (SCALE as int)) == 16 * (SCALE as int),
{
    assert((SCALE as int) * (SCALE as int) == 0x1_0000_0000) by (nonlinear_arith)
        requires
            SCALE as int == 0x1_0000,
    ;
    assert((4 * (SCALE as int)) * (SCALE as int) == 0x4_0000_0000) by (nonlinear_arith)
        requires
            SCALE as int == 0x1_0000,
    ;
    lemma_div_multiples_vanish(SCALE as int, SCALE as int);
    assert((SCALE as int) * (SCALE as int) / (SCALE as int) == SCALE as int);
    lemma_div_multiples_vanish(4 * (SCALE as int), SCALE as int);
    assert((SCALE as int) * (4 * (SCALE as int)) == 0x4_0000_0000);
}

/// Multiplying by the identity matrix on either side returns the matrix
/// unchanged, exactly.
pub proof fn lemma_identity_mul(m: Matrix4)
    ensures
        smul_m(identity_spec(), m) == m,
        smul_m(m, identity_spec()) == m,
{
    lemma_fx_unit_all();
}

/// Transposing twice restores the matrix.
pub proof fn lemma_transpose_involution(m: Matrix4)
    ensures
        transpose_spec(transpose_spec(m)) == m,
{
}

/// Entry `(r, c)` of the matrix product in exact arithmetic: no
/// rescaling and no rounding.
pub open spec fn emul_entry(a: Matrix4, b: Matrix4, r: int, c: int) -> int {
    entry(a, r, 0) * entry(b, 0, c) + entry(a, r, 1) * entry(b, 1, c) + entry(a, r, 2) * entry(
        b,
        2,
        c,
    ) + entry(a, r, 3) * entry(b, 3, c)
}

/// Entry `(r, c)` of `(a b) c` in exact arithmetic.
pub open spec fn emul3_left(a: Matrix4, b: Matrix4, c: Matrix4, r: int, cc: int) -> int {
    emul_entry(a, b, r, 0) * entry(c, 0, cc) + emul_entry(a, b, r, 1) * entry(c, 1, cc)
        + emul_entry(a, b, r, 2) * entry(c, 2, cc) + emul_entry(a, b, r, 3) * entry(c, 3, cc)
}

/// Entry `(r, c)` of `a (b c)` in exact arithmetic.
pub open spec fn emul3_right(a: Matrix4, b: Matrix4, c: Matrix4, r: int, cc: int) -> int {
    entry(a, r, 0) * emul_entry(b, c, 0, cc) + entry(a, r, 1) * emul_entry(b, c, 1, cc) + entry(
        a,
        r,
        2,
    ) * emul_entry(b, c, 2, cc) + entry(a, r, 3) * emul_entry(b, c, 3, cc)
}

/// In exact arithmetic, matrix composition is associative: each entry of
/// `(a b) c` equals the matching entry of `a (b c)`. The executable
/// product rescales and rounds each scalar product, so it satisfies this
/// law up to rounding, not exactly.
pub proof fn lemma_mul_assoc_exact(a: Matrix4, b: Matrix4, c: Matrix4, r: int, cc: int)
    ensures
        emul3_left(a, b, c, r, cc) == emul3_right(a, b, c, r, cc),
{
    lemma_dot_assoc(
        entry(a, r, 0),
        entry(a, r, 1),
        entry(a, r, 2),
        entry(a, r, 3),
        entry(b, 0, 0),
        entry(b, 0, 1),
        entry(b, 0, 2),
        entry(b, 0, 3),
        entry(b, 1, 0),
        entry(b, 1, 1),
        entry(b, 1, 2),
        entry(b, 1, 3),
        entry(b, 2, 0),
        entry(b, 2, 1),
        entry(b, 2, 2),
        entry(b, 2, 3),
        entry(b, 3, 0),
        entry(b, 3, 1),
        entry(b, 3, 2),
        entry(b, 3, 3),
        entry(c, 0, cc),
        entry(c, 1, cc),
        entry(c, 2, cc),
        entry(c, 3, cc),
    );
}

/// Associativity of a four-term row-by-matrix-by-column product in exact
/// integer arithmetic.
proof fn lemma_dot_assoc(
    a0: int,
    a1: int,
    a2: int,
    a3: int,
    b00: int,
    b01: int,
    b02: int,
    b03: int,
    b10: int,
    b11: int,
    b12: int,
    b13: int,
    b20: int,
    b21: int,
    b22: int,
    b23: int,
    b30: int,
    b31: int,
    b32: int,
    b33: int,
    c0: int,
    c1: int,
    c2: int,
    c3: int,
)
    ensures
        (a0 * b00 + a1 * b10 + a2 * b20 + a3 * b30) * c0 + (a0 * b01 + a1 * b11 + a2 * b21 + a3 * b31) * c1 + (a0 * b02 + a1 * b12 + a2 * b22 + a3 * b32) * c2 + (a0 * b03 + a1 * b13 + a2 * b23 + a3 * b33) * c3
            == a0 * (b00 * c0 + b01 * c1 + b02 * c2 + b03 * c3) + a1 * (b10 * c0 + b11 * c1 + b12 * c2 + b13 * c3) + a2 * (b20 * c0 + b21 * c1 + b22 * c2 + b23 * c3) + a3 * (b30 * c0 + b31 * c1 + b32 * c2 + b33 * c3),
{
    lemma_mul_is_distributive_add_other_way(c0, a0 * b00 + a1 * b10 + a2 * b20, a3 * b30);
    lemma_mul_is_distributive_add_other_way(c0, a0 * b00 + a1 * b10, a2 * b20);
    lemma_mul_is_distributive_add_other_way(c0, a0 * b00, a1 * b10);
    lemma_mul_is_associative(a0, b00, c0);
    lemma_mul_is_associative(a1, b10, c0);
    lemma_mul_is_associative(a2, b20, c0);
    lemma_mul_is_associative(a3, b30, c0);
    lemma_mul_is_distributive_add_other_way(c1, a0 * b01 + a1 * b11 + a2 * b21, a3 * b31);
    lemma_mul_is_distributive_add_other_way(c1, a0 * b01 + a1 * b11, a2 * b21);
    lemma_mul_is_distributive_add_other_way(c1, a0 * b01, a1 * b11);
    lemma_mul_is_associative(a0, b01, c1);
    lemma_mul_is_associative(a1, b11, c1);
    lemma_mul_is_associative(a2, b21, c1);
    lemma_mul_is_associative(a3, b31, c1);
    lemma_mul_is_distributive_add_other_way(c2, a0 * b02 + a1 * b12 + a2 * b22, a3 * b32);
    lemma_mul_is_distributive_add_other_way(c2, a0 * b02 + a1 * b12, a2 * b22);
    lemma_mul_is_distributive_add_other_way(c2, a0 * b02, a1 * b12);
    lemma_mul_is_associative(a0, b02, c2);
    lemma_mul_is_associative(a1, b12, c2);
    lemma_mul_is_associative(a2, b22, c2);
    lemma_mul_is_associative(a3, b32, c2);
    lemma_mul_is_distributive_add_other_way(c3, a0 * b03 + a1 * b13 + a2 * b23, a3 * b33);
    lemma_mul_is_distributive_add_other_way(c3, a0 * b03 + a1 * b13, a2 * b23);
    lemma_mul_is_distributive_add_other_way(c3, a0 * b03, a1 * b13);
    lemma_mul_is_associative(a0, b03, c3);
    lemma_mul_is_associative(a1, b13, c3);
    lemma_mul_is_associative(a2, b23, c3);
    lemma_mul_is_associative(a3, b33, c3);
    lemma_mul_is_distributive_add(a0, b00 * c0 + b01 * c1 + b02 * c2, b03 * c3);
    lemma_mul_is_distributive_add(a0, b00 * c0 + b01 * c1, b02 * c2);
    lemma_mul_is_distributive_add(a0, b00 * c0, b01 * c1);
    lemma_mul_is_distributive_add(a1, b10 * c0 + b11 * c1 + b12 * c2, b13 * c3);
    lemma_mul_is_distributive_add(a1, b10 * c0 + b11 * c1, b12 * c2);
    lemma_mul_is_distributive_add(a1, b10 * c0, b11 * c1);
    lemma_mul_is_distributive_add(a2, b20 * c0 + b21 * c1 + b22 * c2, b23 * c3);
    lemma_mul_is_distributive_add(a2, b20 * c0 + b21 * c1, b22 * c2);
    lemma_mul_is_distributive_add(a2, b20 * c0, b21 * c1);
    lemma_mul_is_distributive_add(a3, b30 * c0 + b31 * c1 + b32 * c2, b33 * c3);
    lemma_mul_is_distributive_add(a3, b30 * c0 + b31 * c1, b32 * c2);
    lemma_mul_is_distributive_add(a3, b30 * c0, b31 * c1);
}

/// Entry `(r, c)` of the fixed-point product, read through `entry`: the
/// four-term dot product of row `r` of `a` with column `c` of `b`, whose
/// value fits a 64-bit integer under the given bounds.
pub proof fn lemma_smul_entry(a: Matrix4, b: Matrix4, r: int, c: int, ba: int, bb: int)
    requires
        0 <= r < 4,
        0 <= c < 4,
        mat_bounded(a, ba),
        mat_bounded(b, bb),
        ba * bb <= 0x4000_0000_0000_0000,
    ensures
        entry(smul_m(a, b), r, c) == dot4(
            entry(a, r, 0),
            entry(b, 0, c),
            entry(a, r, 1),
            entry(b, 1, c),
            entry(a, r, 2),
            entry(b, 2, c),
            entry(a, r, 3),
            entry(b, 3, c),
        ),
        iabs(entry(smul_m(a, b), r, c)) <= 4 * ((ba * bb) / (SCALE as int)),
{
    lemma_mat_mul_bound(a, b, ba, bb);
    lemma_bounded_fields(a, ba);
    lemma_bounded_fields(b, bb);
    lemma_div_is_ordered(ba * bb, 0x4000_0000_0000_0000, SCALE as int);
    lemma_div_multiples_vanish(0x4000_0000_0000, SCALE as int);
    assert((SCALE as int) * 0x4000_0000_0000 == 0x4000_0000_0000_0000);
    if r == 0 && c == 0 {
        lemma_dot4_bound(a.m00 as int, b.m00 as int, a.m01 as int, b.m10 as int, a.m02 as int, b.m20 as int, a.m03 as int, b.m30 as int, ba, bb);
    }
    if r == 0 && c == 1 {
        lemma_dot4_bound(a.m00 as int, b.m01 as int, a.m01 as int, b.m11 as int, a.m02 as int, b.m21 as int, a.m03 as int, b.m31 as int, ba, bb);
    }
    if r == 0 && c == 2 {
        lemma_dot4_bound(a.m00 as int, b.m02 as int, a.m01 as int, b.m12 as int, a.m02 as int, b.m22 as int, a.m03 as int, b.m32 as int, ba, bb);
    }
    if r == 0 && c == 3 {
        lemma_dot4_bound(a.m00 as int, b.m03 as int, a.m01 as int, b.m13 as int, a.m02 as int, b.m23 as int, a.m03 as int, b.m33 as int, ba, bb);
    }
    if r == 1 && c == 0 {
        lemma_dot4_bound(a.m10 as int, b.m00 as int, a.m11 as int, b.m10 as int, a.m12 as int, b.m20 as int, a.m13 as int, b.m30 as int, ba, bb);
    }
    if r == 1 && c == 1 {
        lemma_dot4_bound(a.m10 as int, b.m01 as int, a.m11 as int, b.m11 as int, a.m12 as int, b.m21 as int, a.m13 as int, b.m31 as int, ba, bb);
    }
    if r == 1 && c == 2 {
        lemma_dot4_bound(a.m10 as int, b.m02 as int, a.m11 as int, b.m12 as int, a.m12 as int, b.m22 as int, a.m13 as int, b.m32 as int, ba, bb);
    }
    if r == 1 && c == 3 {
        lemma_dot4_bound(a.m10 as int, b.m03 as int, a.m11 as int, b.m13 as int, a.m12 as int, b.m23 as int, a.m13 as int, b.m33 as int, ba, bb);
    }
    if r == 2 && c == 0 {
        lemma_dot4_bound(a.m20 as int, b.m00 as int, a.m21 as int, b.m10 as int, a.m22 as int, b.m20 as int, a.m23 as int, b.m30 as int, ba, bb);
    }
    if r == 2 && c == 1 {
        lemma_dot4_bound(a.m20 as int, b.m01 as int, a.m21 as int, b.m11 as int, a.m22 as int, b.m21 as int, a.m23 as int, b.m31 as int, ba, bb);
    }
    if r == 2 && c == 2 {
        lemma_dot4_bound(a.m20 as int, b.m02 as int, a.m21 as int, b.m12 as int, a.m22 as int, b.m22 as int, a.m23 as int, b.m32 as int, ba, bb);
    }
    if r == 2 && c == 3 {
        lemma_dot4_bound(a.m20 as int, b.m03 as int, a.m21 as int, b.m13 as int, a.m22 as int, b.m23 as int, a.m23 as int, b.m33 as int, ba, bb);
    }
    if r == 3 && c == 0 {
        lemma_dot4_bound(a.m30 as int, b.m00 as int, a.m31 as int, b.m10 as int, a.m32 as int, b.m20 as int, a.m33 as int, b.m30 as int, ba, bb);
    }
    if r == 3 && c == 1 {
        lemma_dot4_bound(a.m30 as int, b.m01 as int, a.m31 as int, b.m11 as int, a.m32 as int, b.m21 as int, a.m33 as int, b.m31 as int, ba, bb);
    }
    if r == 3 && c == 2 {
        lemma_dot4_bound(a.m30 as int, b.m02 as int, a.m31 as int, b.m12 as int, a.m32 as int, b.m22 as int, a.m33 as int, b.m32 as int, ba, bb);
    }
    if r == 3 && c == 3 {
        lemma_dot4_bound(a.m30 as int, b.m03 as int, a.m31 as int, b.m13 as int, a.m32 as int, b.m23 as int, a.m33 as int, b.m33 as int, ba, bb);
    }
}

/// One scale of a product entry lands within four scales of the exact
/// (unrescaled, unrounded) entry: each of its four scalar products
/// contributes less than one scale of rounding.
pub proof fn lemma_smul_entry_err(a: Matrix4, b: Matrix4, r: int, c: int, ba: int, bb: int)
    requires
        0 <= r < 4,
        0 <= c < 4,
        mat_bounded(a, ba),
        mat_bounded(b, bb),
        ba * bb <= 0x4000_0000_0000_0000,
    ensures
        iabs((SCALE as int) * entry(smul_m(a, b), r, c) - emul_entry(a, b, r, c)) < 4 * (
        SCALE as int),
{
    let s = SCALE as int;
    lemma_smul_entry(a, b, r, c, ba, bb);
    let p0 = entry(a, r, 0) * entry(b, 0, c);
    let p1 = entry(a, r, 1) * entry(b, 1, c);
    let p2 = entry(a, r, 2) * entry(b, 2, c);
    let p3 = entry(a, r, 3) * entry(b, 3, c);
    crate::fixed::lemma_tdiv_rem(p0);
    crate::fixed::lemma_tdiv_rem(p1);
    crate::fixed::lemma_tdiv_rem(p2);
    crate::fixed::lemma_tdiv_rem(p3);
    lemma_mul_is_distributive_add(s, tdiv(p0, s) + tdiv(p1, s) + tdiv(p2, s), tdiv(p3, s));
    lemma_mul_is_distributive_add(s, tdiv(p0, s) + tdiv(p1, s), tdiv(p2, s));
    lemma_mul_is_distributive_add(s, tdiv(p0, s), tdiv(p1, s));
}

/// Rescaling error of a product whose first factor is itself rounded:
/// with `s * entry(m, r, k)` within `d` of `e_k`, one scale squared of
/// entry `(r, cc)` of `m c` lands within `4 d bc + 4 s^2` of the exact
/// combination of the `e_k` with column `cc` of `c`.
#[verifier::rlimit(100)]
proof fn lemma_prod_err_first(
    m: Matrix4,
    c: Matrix4,
    r: int,
    cc: int,
    e0: int,
    e1: int,
    e2: int,
    e3: int,
    bm: int,
    bc: int,
    d: int,
)
    requires
        0 <= r < 4,
        0 <= cc < 4,
        mat_bounded(m, bm),
        mat_bounded(c, bc),
        0 <= bc,
        0 <= d,
        bm * bc <= 0x4000_0000_0000_0000,
        iabs((SCALE as int) * entry(m, r, 0) - e0) <= d,
        iabs((SCALE as int) * entry(m, r, 1) - e1) <= d,
        iabs((SCALE as int) * entry(m, r, 2) - e2) <= d,
        iabs((SCALE as int) * entry(m, r, 3) - e3) <= d,
    ensures
        iabs((SCALE as int) * ((SCALE as int) * entry(smul_m(m, c), r, cc)) - (e0 * entry(
            c,
            0,
            cc,
        ) + e1 * entry(c, 1, cc) + e2 * entry(c, 2, cc) + e3 * entry(c, 3, cc))) <= 4 * (d * bc)
            + 4 * ((SCALE as int) * (SCALE as int)),
{
    let s = SCALE as int;
    lemma_smul_entry(m, c, r, cc, bm, bc);
    let lv = entry(smul_m(m, c), r, cc);
    let lp0 = entry(m, r, 0) * entry(c, 0, cc);
    let lp1 = entry(m, r, 1) * entry(c, 1, cc);
    let lp2 = entry(m, r, 2) * entry(c, 2, cc);
    let lp3 = entry(m, r, 3) * entry(c, 3, cc);
    crate::fixed::lemma_tdiv_rem(lp0);
    crate::fixed::lemma_tdiv_rem(lp1);
    crate::fixed::lemma_tdiv_rem(lp2);
    crate::fixed::lemma_tdiv_rem(lp3);
    lemma_mul_is_distributive_add(s, tdiv(lp0, s) + tdiv(lp1, s) + tdiv(lp2, s), tdiv(lp3, s));
    lemma_mul_is_distributive_add(s, tdiv(lp0, s) + tdiv(lp1, s), tdiv(lp2, s));
    lemma_mul_is_distributive_add(s, tdiv(lp0, s), tdiv(lp1, s));
    let lrem = lp0 + lp1 + lp2 + lp3 - s * lv;
    assert(iabs(lrem) < 4 * s);
    lemma_mul_is_distributive_add(s, lp0 + lp1 + lp2, lp3);
    lemma_mul_is_distributive_add(s, lp0 + lp1, lp2);
    lemma_mul_is_distributive_add(s, lp0, lp1);
    let del0 = s * entry(m, r, 0) - e0;
    lemma_mul_is_associative(s, entry(m, r, 0), entry(c, 0, cc));
    lemma_mul_is_distributive_add_other_way(entry(c, 0, cc), e0, del0);
    crate::fixed::lemma_abs_mul_le(del0, entry(c, 0, cc), d, bc);
    let del1 = s * entry(m, r, 1) - e1;
    lemma_mul_is_associative(s, entry(m, r, 1), entry(c, 1, cc));
    lemma_mul_is_distributive_add_other_way(entry(c, 1, cc), e1, del1);
    crate::fixed::lemma_abs_mul_le(del1, entry(c, 1, cc), d, bc);
    let del2 = s * entry(m, r, 2) - e2;
    lemma_mul_is_associative(s, entry(m, r, 2), entry(c, 2, cc));
    lemma_mul_is_distributive_add_other_way(entry(c, 2, cc), e2, del2);
    crate::fixed::lemma_abs_mul_le(del2, entry(c, 2, cc), d, bc);
    let del3 = s * entry(m, r, 3) - e3;
    lemma_mul_is_associative(s, entry(m, r, 3), entry(c, 3, cc));
    lemma_mul_is_distributive_add_other_way(entry(c, 3, cc), e3, del3);
    crate::fixed::lemma_abs_mul_le(del3, entry(c, 3, cc), d, bc);
    assert(s * (s * lv) == e0 * entry(c, 0, cc) + e1 * entry(c, 1, cc) + e2 * entry(c, 2, cc)
        + e3 * entry(c, 3, cc) + (del0 * entry(c, 0, cc) + del1 * entry(c, 1, cc) + del2 * entry(
        c,
        2,
        cc,
    ) + del3 * entry(c, 3, cc)) - s * lrem);
    crate::fixed::lemma_abs_mul_le(s, lrem, s, 4 * s);
}

/// The mirror of [`lemma_prod_err_first`], with the rounded factor on
/// the right of the product.
#[verifier::rlimit(100)]
proof fn lemma_prod_err_second(
    m: Matrix4,
    w: Matrix4,
    r: int,
    cc: int,
    e0: int,
    e1: int,
    e2: int,
    e3: int,
    bm: int,
    bw: int,
    d: int,
)
    requires
        0 <= r < 4,
        0 <= cc < 4,
        mat_bounded(m, bm),
        mat_bounded(w, bw),
        0 <= bm,
        0 <= d,
        bm * bw <= 0x4000_0000_0000_0000,
        iabs((SCALE as int) * entry(w, 0, cc) - e0) <= d,
        iabs((SCALE as int) * entry(w, 1, cc) - e1) <= d,
        iabs((SCALE as int) * entry(w, 2, cc) - e2) <= d,
        iabs((SCALE as int) * entry(w, 3, cc) - e3) <= d,
    ensures
        iabs((SCALE as int) * ((SCALE as int) * entry(smul_m(m, w), r, cc)) - (entry(m, r, 0) * e0
            + entry(m, r, 1) * e1 + entry(m, r, 2) * e2 + entry(m, r, 3) * e3)) <= 4 * (bm * d)
            + 4 * ((SCALE as int) * (SCALE as int)),
{
    let s = SCALE as int;
    lemma_smul_entry(m, w, r, cc, bm, bw);
    let rv = entry(smul_m(m, w), r, cc);
    let rp0 = entry(m, r, 0) * entry(w, 0, cc);
    let rp1 = entry(m, r, 1) * entry(w, 1, cc);
    let rp2 = entry(m, r, 2) * entry(w, 2, cc);
    let rp3 = entry(m, r, 3) * entry(w, 3, cc);
    crate::fixed::lemma_tdiv_rem(rp0);
    crate::fixed::lemma_tdiv_rem(rp1);
    crate::fixed::lemma_tdiv_rem(rp2);
    crate::fixed::lemma_tdiv_rem(rp3);
    lemma_mul_is_distributive_add(s, tdiv(rp0, s) + tdiv(rp1, s) + tdiv(rp2, s), tdiv(rp3, s));
    lemma_mul_is_distributive_add(s, tdiv(rp0, s) + tdiv(rp1, s), tdiv(rp2, s));
    lemma_mul_is_distributive_add(s, tdiv(rp0, s), tdiv(rp1, s));
    let rrem = rp0 + rp1 + rp2 + rp3 - s * rv;
    assert(iabs(rrem) < 4 * s);
    lemma_mul_is_distributive_add(s, rp0 + rp1 + rp2, rp3);
    lemma_mul_is_distributive_add(s, rp0 + rp1, rp2);
    lemma_mul_is_distributive_add(s, rp0, rp1);
    let eps0 = s * entry(w, 0, cc) - e0;
    lemma_mul_is_associative(s, entry(m, r, 0), entry(w, 0, cc));
    lemma_mul_is_commutative(s, entry(m, r, 0));
    lemma_mul_is_associative(entry(m, r, 0), s, entry(w, 0, cc));
    lemma_mul_is_distributive_add(entry(m, r, 0), e0, eps0);
    crate::fixed::lemma_abs_mul_le(entry(m, r, 0), eps0, bm, d);
    let eps1 = s * entry(w, 1, cc) - e1;
    lemma_mul_is_associative(s, entry(m, r, 1), entry(w, 1, cc));
    lemma_mul_is_commutative(s, entry(m, r, 1));
    lemma_mul_is_associative(entry(m, r, 1), s, entry(w, 1, cc));
    lemma_mul_is_distributive_add(entry(m, r, 1), e1, eps1);
    crate::fixed::lemma_abs_mul_le(entry(m, r, 1), eps1, bm, d);
    let eps2 = s * entry(w, 2, cc) - e2;
    lemma_mul_is_associative(s, entry(m, r, 2), entry(w, 2, cc));
    lemma_mul_is_commutative(s, entry(m, r, 2));
    lemma_mul_is_associative(entry(m, r, 2), s, entry(w, 2, cc));
    lemma_mul_is_distributive_add(entry(m, r, 2), e2, eps2);
    crate::fixed::lemma_abs_mul_le(entry(m, r, 2), eps2, bm, d);
    let eps3 = s * entry(w, 3, cc) - e3;
    lemma_mul_is_associative(s, entry(m, r, 3), entry(w, 3, cc));
    lemma_mul_is_commutative(s, entry(m, r, 3));
    lemma_mul_is_associative(entry(m, r, 3), s, entry(w, 3, cc));
    lemma_mul_is_distributive_add(entry(m, r, 3), e3, eps3);
    crate::fixed::lemma_abs_mul_le(entry(m, r, 3), eps3, bm, d);
    assert(s * (s * rv) == entry(m, r, 0) * e0 + entry(m, r, 1) * e1 + entry(m, r, 2) * e2
        + entry(m, r, 3) * e3 + (entry(m, r, 0) * eps0 + entry(m, r, 1) * eps1 + entry(m, r, 2)
        * eps2 + entry(m, r, 3) * eps3) - s * rrem);
    crate::fixed::lemma_abs_mul_le(s, rrem, s, 4 * s);
}

/// The executable matrix product is associative up to rounding: under
/// the given entry bounds, each entry of `(a b) c` is within a small
/// number of rounding units of the matching entry of `a (b c)`. The
/// exact law it rounds around is [`lemma_mul_assoc_exact`].
#[verifier::rlimit(100)]
pub proof fn lemma_mul_assoc_fx(
    a: Matrix4,
    b: Matrix4,
    c: Matrix4,
    r: int,
    cc: int,
    ba: int,
    bb: int,
    bc: int,
)
    requires
        0 <= r < 4,
        0 <= cc < 4,
        mat_bounded(a, ba),
        mat_bounded(b, bb),
        mat_bounded(c, bc),
        0 <= ba,
        0 <= bb,
        0 <= bc,
        ba * bb <= 0x4000_0000_0000_0000,
        bb * bc <= 0x4000_0000_0000_0000,
        (4 * ((ba * bb) / (SCALE as int))) * bc <= 0x4000_0000_0000_0000,
        ba * (4 * ((bb * bc) / (SCALE as int))) <= 0x4000_0000_0000_0000,
    ensures
        iabs(entry(smul_m(smul_m(a, b), c), r, cc) - entry(smul_m(a, smul_m(b, c)), r, cc)) <= (
        16 * (ba + bc) + 8 * (SCALE as int)) / (SCALE as int),
{
    let s = SCALE as int;
    let lv = entry(smul_m(smul_m(a, b), c), r, cc);
    let rv = entry(smul_m(a, smul_m(b, c)), r, cc);
    lemma_mat_mul_bound(a, b, ba, bb);
    lemma_mat_mul_bound(b, c, bb, bc);
    lemma_smul_entry_err(a, b, r, 0, ba, bb);
    lemma_smul_entry_err(a, b, r, 1, ba, bb);
    lemma_smul_entry_err(a, b, r, 2, ba, bb);
    lemma_smul_entry_err(a, b, r, 3, ba, bb);
    lemma_prod_err_first(
        smul_m(a, b),
        c,
        r,
        cc,
        emul_entry(a, b, r, 0),
        emul_entry(a, b, r, 1),
        emul_entry(a, b, r, 2),
        emul_entry(a, b, r, 3),
        4 * ((ba * bb) / s),
        bc,
        4 * s,
    );
    assert(emul3_left(a, b, c, r, cc) == emul_entry(a, b, r, 0) * entry(c, 0, cc) + emul_entry(
        a,
        b,
        r,
        1,
    ) * entry(c, 1, cc) + emul_entry(a, b, r, 2) * entry(c, 2, cc) + emul_entry(a, b, r, 3)
        * entry(c, 3, cc));
    lemma_smul_entry_err(b, c, 0, cc, bb, bc);
    lemma_smul_entry_err(b, c, 1, cc, bb, bc);
    lemma_smul_entry_err(b, c, 2, cc, bb, bc);
    lemma_smul_entry_err(b, c, 3, cc, bb, bc);
    lemma_prod_err_second(
        a,
        smul_m(b, c),
        r,
        cc,
        emul_entry(b, c, 0, cc),
        emul_entry(b, c, 1, cc),
        emul_entry(b, c, 2, cc),
        emul_entry(b, c, 3, cc),
        ba,
        4 * ((bb * bc) / s),
        4 * s,
    );
    assert(emul3_right(a, b, c, r, cc) == entry(a, r, 0) * emul_entry(b, c, 0, cc) + entry(
        a,
        r,
        1,
    ) * emul_entry(b, c, 1, cc) + entry(a, r, 2) * emul_entry(b, c, 2, cc) + entry(a, r, 3)
        * emul_entry(b, c, 3, cc));
    lemma_mul_assoc_exact(a, b, c, r, cc);
    lemma_mul_is_distributive_sub(s, s * lv, s * rv);
    lemma_mul_is_distributive_sub(s, lv, rv);
    assert(iabs(s * (s * (lv - rv))) <= 4 * ((4 * s) * bc) + 4 * (ba * (4 * s)) + 8 * (s * s));
    let kk = 16 * (ba + bc) + 8 * s;
    assert(4 * ((4 * s) * bc) + 4 * (ba * (4 * s)) + 8 * (s * s) == s * kk) by (nonlinear_arith)
        requires
            kk == 16 * (ba + bc) + 8 * s,
            s == 65536,
    ;
    lemma_iabs_mul(s, s * (lv - rv));
    lemma_iabs_mul(s, lv - rv);
    assert(s * iabs(lv - rv) <= kk) by (nonlinear_arith)
        requires
            s * (s * iabs(lv - rv)) <= s * kk,
            s > 0,
            iabs(lv - rv) >= 0,
    ;
    lemma_div_is_ordered(s * iabs(lv - rv), kk, s);
    lemma_div_multiples_vanish(iabs(lv - rv), s);
}

/// Reading the flattened sequence at position `4 r + c` yields the entry
/// at row `r`, column `c`: the flattening is the row-major scan under this
/// matrix's addressing.
pub proof fn lemma_flatten_positions(m: Matrix4, r: int, c: int)
    requires
        0 <= r < 4,
        0 <= c < 4,
    ensures
        flatten_spec(m)[4 * r + c] as int == entry(m, r, c),
{
    if r == 0 && c == 0 {
        assert(flatten_spec(m)[0] == m.m00);
    }
    if r == 0 && c == 1 {
        assert(flatten_spec(m)[1] == m.m01);
    }
    if r == 0 && c == 2 {
        assert(flatten_spec(m)[2] == m.m02);
    }
    if r == 0 && c == 3 {
        assert(flatten_spec(m)[3] == m.m03);
    }
    if r == 1 && c == 0 {
        assert(flatten_spec(m)[4] == m.m10);
    }
    if r == 1 && c == 1 {
        assert(flatten_spec(m)[5] == m.m11);
    }
    if r == 1 && c == 2 {
        assert(flatten_spec(m)[6] == m.m12);
    }
    if r == 1 && c == 3 {
        assert(flatten_spec(m)[7] == m.m13);
    }
    if r == 2 && c == 0 {
        assert(flatten_spec(m)[8] == m.m20);
    }
    if r == 2 && c == 1 {
        assert(flatten_spec(m)[9] == m.m21);
    }
    if r == 2 && c == 2 {
        assert(flatten_spec(m)[10] == m.m22);
    }
    if r == 2 && c == 3 {
        assert(flatten_spec(m)[11] == m.m23);
    }
    if r == 3 && c == 0 {
        assert(flatten_spec(m)[12] == m.m30);
    }
    if r == 3 && c == 1 {
        assert(flatten_spec(m)[13] == m.m31);
    }
    if r == 3 && c == 2 {
        assert(flatten_spec(m)[14] == m.m32);
    }
    if r == 3 && c == 3 {
        assert(flatten_spec(m)[15] == m.m33);
    }
}

} // verus!
