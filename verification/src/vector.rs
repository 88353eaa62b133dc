//! 3-component vectors over fixed-point scalars.

use vstd::prelude::*;
use crate::fixed::{
    fx_div, fx_div_spec, fx_mul, fx_mul_spec, iabs, is_sqrt_floor, isqrt, lemma_fx_bound_sq_div,
    lemma_fx_mul_bound, lemma_fx_mul_comm, lemma_iabs_mul, lemma_sqrt_floor_exists,
    lemma_tdiv_abs, lemma_tdiv_rem, lemma_tdiv_rem_div, sqrt_floor, tdiv, FX_BOUND, SCALE,
};
use vstd::arithmetic::mul::{
    lemma_mul_is_associative, lemma_mul_is_commutative, lemma_mul_is_distributive_add,
    lemma_mul_is_distributive_add_other_way, lemma_mul_is_distributive_sub,
};
use vstd::arithmetic::div_mod::{
    lemma_div_is_ordered, lemma_div_is_ordered_by_denominator, lemma_div_multiples_vanish,
    lemma_div_pos_is_pos, lemma_fundamental_div_mod, lemma_mod_division_less_than_divisor,
};

verus! {

#[derive(Clone, Copy, PartialEq, Eq, Structural, Debug)]
pub struct Vector3<T> {
    pub x: T,
    pub y: T,
    pub z: T,
}

/// Every component of `v` has magnitude at most `b`.
pub open spec fn vec_bounded(v: Vector3<i64>, b: int) -> bool {
    iabs(v.x as int) <= b && iabs(v.y as int) <= b && iabs(v.z as int) <= b
}

/// The fixed-point dot product of `a` and `b`.
pub open spec fn dot_spec(a: Vector3<i64>, b: Vector3<i64>) -> int {
    fx_mul_spec(a.x as int, b.x as int) + fx_mul_spec(a.y as int, b.y as int) + fx_mul_spec(
        a.z as int,
        b.z as int,
    )
}

/// The x component of the fixed-point cross product of `a` and `b`.
pub open spec fn cross_x_spec(a: Vector3<i64>, b: Vector3<i64>) -> int {
    fx_mul_spec(a.y as int, b.z as int) - fx_mul_spec(a.z as int, b.y as int)
}

/// The y component of the fixed-point cross product of `a` and `b`.
pub open spec fn cross_y_spec(a: Vector3<i64>, b: Vector3<i64>) -> int {
    fx_mul_spec(a.z as int, b.x as int) - fx_mul_spec(a.x as int, b.z as int)
}

/// The z component of the fixed-point cross product of `a` and `b`.
pub open spec fn cross_z_spec(a: Vector3<i64>, b: Vector3<i64>) -> int {
    fx_mul_spec(a.x as int, b.y as int) - fx_mul_spec(a.y as int, b.x as int)
}

/// The cross product as a vector value.
pub open spec fn cross_spec(a: Vector3<i64>, b: Vector3<i64>) -> Vector3<i64> {
    Vector3 {
        x: (cross_x_spec(a, b)) as i64,
        y: (cross_y_spec(a, b)) as i64,
        z: (cross_z_spec(a, b)) as i64,
    }
}

/// The length of `v` in fixed point: the rounded-down square root of the
/// rescaled squared length.
pub open spec fn length_spec(v: Vector3<i64>) -> int {
    sqrt_floor(dot_spec(v, v) * (SCALE as int))
}

/// `v` scaled to unit length, each component rounded toward zero; a vector
/// of length zero is left unchanged.
pub open spec fn snormalize(v: Vector3<i64>) -> Vector3<i64> {
    if length_spec(v) == 0 {
        v
    } else {
        Vector3 {
            x: (tdiv(v.x as int * (SCALE as int), length_spec(v))) as i64,
            y: (tdiv(v.y as int * (SCALE as int), length_spec(v))) as i64,
            z: (tdiv(v.z as int * (SCALE as int), length_spec(v))) as i64,
        }
    }
}

impl Vector3<i64> {
    pub fn new(x: i64, y: i64, z: i64) -> (r: Self)
        ensures
            r.x == x,
            r.y == y,
            r.z == z,
    {
        Self { x, y, z }
    }

    /// Componentwise sum.
    pub fn add(self, rhs: Self) -> (r: Self)
        requires
            i64::MIN <= self.x as int + rhs.x as int <= i64::MAX,
            i64::MIN <= self.y as int + rhs.y as int <= i64::MAX,
            i64::MIN <= self.z as int + rhs.z as int <= i64::MAX,
        ensures
            r.x as int == self.x as int + rhs.x as int,
            r.y as int == self.y as int + rhs.y as int,
            r.z as int == self.z as int + rhs.z as int,
    {
        Self { x: self.x + rhs.x, y: self.y + rhs.y, z: self.z + rhs.z }
    }

    /// Componentwise difference.
    pub fn sub(self, rhs: Self) -> (r: Self)
        requires
            i64::MIN <= self.x as int - rhs.x as int <= i64::MAX,
            i64::MIN <= self.y as int - rhs.y as int <= i64::MAX,
            i64::MIN <= self.z as int - rhs.z as int <= i64::MAX,
        ensures
            r.x as int == self.x as int - rhs.x as int,
            r.y as int == self.y as int - rhs.y as int,
            r.z as int == self.z as int - rhs.z as int,
    {
        Self { x: self.x - rhs.x, y: self.y - rhs.y, z: self.z - rhs.z }
    }

    /// Componentwise product with a scalar.
    pub fn mul(self, rhs: i64) -> (r: Self)
        requires
            vec_bounded(self, FX_BOUND as int),
            iabs(rhs as int) <= FX_BOUND as int,
        ensures
            r.x as int == fx_mul_spec(self.x as int, rhs as int),
            r.y as int == fx_mul_spec(self.y as int, rhs as int),
            r.z as int == fx_mul_spec(self.z as int, rhs as int),
    {
        proof {
            lemma_component_products(self, Self { x: rhs, y: rhs, z: rhs });
        }
        Self { x: fx_mul(self.x, rhs), y: fx_mul(self.y, rhs), z: fx_mul(self.z, rhs) }
    }

    /// Componentwise quotient by a scalar.
    pub fn div(self, rhs: i64) -> (r: Self)
        requires
            vec_bounded(self, FX_BOUND as int),
            rhs != 0,
        ensures
            r.x as int == fx_div_spec(self.x as int, rhs as int),
            r.y as int == fx_div_spec(self.y as int, rhs as int),
            r.z as int == fx_div_spec(self.z as int, rhs as int),
    {
        Self { x: fx_div(self.x, rhs), y: fx_div(self.y, rhs), z: fx_div(self.z, rhs) }
    }

    /// The dot product.
    pub fn dot(&self, rhs: &Self) -> (r: i64)
        requires
            vec_bounded(*self, FX_BOUND as int),
            vec_bounded(*rhs, FX_BOUND as int),
        ensures
            r as int == dot_spec(*self, *rhs),
    {
        proof {
            lemma_component_products(*self, *rhs);
            lemma_dot_bound(*self, *rhs, FX_BOUND as int, FX_BOUND as int);
        }
        fx_mul(self.x, rhs.x) + fx_mul(self.y, rhs.y) + fx_mul(self.z, rhs.z)
    }

    /// The squared length, in fixed point.
    pub fn length_squared(&self) -> (r: i64)
        requires
            vec_bounded(*self, FX_BOUND as int),
        ensures
            r as int == dot_spec(*self, *self),
            r >= 0,
    {
        proof {
            lemma_dot_self_nonneg(*self);
        }
        self.dot(self)
    }

    /// The length, in fixed point: the rounded-down square root of the
    /// rescaled squared length.
    pub fn length(&self) -> (r: i64)
        requires
            vec_bounded(*self, FX_BOUND as int),
        ensures
            r as int == length_spec(*self),
            r >= 0,
    {
        let ls = self.length_squared();
        proof {
            lemma_dot_bound(*self, *self, FX_BOUND as int, FX_BOUND as int);
            lemma_fx_bound_sq_div();
            assert(dot_spec(*self, *self) <= 0x3000_0000_0000);
        }
        let n = isqrt((ls as u64) * 65536);
        proof {
            assert((n as int) * (n as int) <= (ls as int) * (SCALE as int));
            assert(n as int <= 0x1_0000_0000_0000) by (nonlinear_arith)
                requires
                    0 <= n as int,
                    (n as int) * (n as int) <= (ls as int) * (SCALE as int),
                    (ls as int) * (SCALE as int) <= 0x1_0000_0000_0000 * 0x1_0000_0000_0000,
            ;
        }
        n as i64
    }

    /// Scales the vector to unit length, rounding each component toward
    /// zero; a vector of length zero is left unchanged.
    pub fn normalize(&mut self)
        requires
            vec_bounded(*old(self), FX_BOUND as int),
        ensures
            *final(self) == snormalize(*old(self)),
    {
        let n = self.length();
        if n != 0 {
            self.x = fx_div(self.x, n);
            self.y = fx_div(self.y, n);
            self.z = fx_div(self.z, n);
        }
    }

    /// The cross product, by the right-hand rule.
    pub fn cross(&self, rhs: &Self) -> (r: Self)
        requires
            vec_bounded(*self, FX_BOUND as int),
            vec_bounded(*rhs, FX_BOUND as int),
        ensures
            r == cross_spec(*self, *rhs),
            r.x as int == cross_x_spec(*self, *rhs),
            r.y as int == cross_y_spec(*self, *rhs),
            r.z as int == cross_z_spec(*self, *rhs),
    {
        proof {
            lemma_component_products(*self, *rhs);
            lemma_component_products(*rhs, *self);
            lemma_cross_term_bounds(*self, *rhs);
        }
        let mut res = Vector3::new(0, 0, 0);
        res.x = fx_mul(self.y, rhs.z) - fx_mul(self.z, rhs.y);
        res.y = fx_mul(self.z, rhs.x) - fx_mul(self.x, rhs.z);
        res.z = fx_mul(self.x, rhs.y) - fx_mul(self.y, rhs.x);
        res
    }
}

impl Default for Vector3<i64> {
    fn default() -> (r: Self)
        ensures
            r.x == 0,
            r.y == 0,
            r.z == 0,
    {
        Self { x: 0, y: 0, z: 0 }
    }
}

/// Products of components of two vectors bounded by `FX_BOUND` fit a
/// signed 64-bit integer.
proof fn lemma_component_products(a: Vector3<i64>, b: Vector3<i64>)
    requires
        vec_bounded(a, FX_BOUND as int),
        vec_bounded(b, FX_BOUND as int),
    ensures
        iabs(a.x as int * b.x as int) <= 0x4000_0000_0000_0000,
        iabs(a.y as int * b.y as int) <= 0x4000_0000_0000_0000,
        iabs(a.z as int * b.z as int) <= 0x4000_0000_0000_0000,
        iabs(a.y as int * b.z as int) <= 0x4000_0000_0000_0000,
        iabs(a.z as int * b.y as int) <= 0x4000_0000_0000_0000,
        iabs(a.z as int * b.x as int) <= 0x4000_0000_0000_0000,
        iabs(a.x as int * b.z as int) <= 0x4000_0000_0000_0000,
        iabs(a.x as int * b.y as int) <= 0x4000_0000_0000_0000,
        iabs(a.y as int * b.x as int) <= 0x4000_0000_0000_0000,
{
    lemma_abs_product_bound(a.x as int, b.x as int);
    lemma_abs_product_bound(a.y as int, b.y as int);
    lemma_abs_product_bound(a.z as int, b.z as int);
    lemma_abs_product_bound(a.y as int, b.z as int);
    lemma_abs_product_bound(a.z as int, b.y as int);
    lemma_abs_product_bound(a.z as int, b.x as int);
    lemma_abs_product_bound(a.x as int, b.z as int);
    lemma_abs_product_bound(a.x as int, b.y as int);
    lemma_abs_product_bound(a.y as int, b.x as int);
}

/// `|a|, |b| <= FX_BOUND` bounds `|a * b|` by `FX_BOUND` squared.
proof fn lemma_abs_product_bound(a: int, b: int)
    requires
        iabs(a) <= FX_BOUND as int,
        iabs(b) <= FX_BOUND as int,
    ensures
        iabs(a * b) <= 0x4000_0000_0000_0000,
{
    lemma_iabs_mul(a, b);
    assert(iabs(a) * iabs(b) <= 0x4000_0000 * 0x4000_0000) by (nonlinear_arith)
        requires
            0 <= iabs(a) <= 0x4000_0000,
            0 <= iabs(b) <= 0x4000_0000,
    ;
}

/// Each fixed-point product inside the cross product has magnitude at most
/// `FX_BOUND` squared over `SCALE`.
proof fn lemma_cross_term_bounds(a: Vector3<i64>, b: Vector3<i64>)
    requires
        vec_bounded(a, FX_BOUND as int),
        vec_bounded(b, FX_BOUND as int),
    ensures
        iabs(fx_mul_spec(a.y as int, b.z as int)) <= 0x4000_0000_0000,
        iabs(fx_mul_spec(a.z as int, b.y as int)) <= 0x4000_0000_0000,
        iabs(fx_mul_spec(a.z as int, b.x as int)) <= 0x4000_0000_0000,
        iabs(fx_mul_spec(a.x as int, b.z as int)) <= 0x4000_0000_0000,
        iabs(fx_mul_spec(a.x as int, b.y as int)) <= 0x4000_0000_0000,
        iabs(fx_mul_spec(a.y as int, b.x as int)) <= 0x4000_0000_0000,
{
    let m = FX_BOUND as int;
    lemma_fx_mul_bound(a.y as int, b.z as int, m, m);
    lemma_fx_mul_bound(a.z as int, b.y as int, m, m);
    lemma_fx_mul_bound(a.z as int, b.x as int, m, m);
    lemma_fx_mul_bound(a.x as int, b.z as int, m, m);
    lemma_fx_mul_bound(a.x as int, b.y as int, m, m);
    lemma_fx_mul_bound(a.y as int, b.x as int, m, m);
    lemma_fx_bound_sq_div();
}

/// The fixed-point dot product of vectors bounded by `ba` and `bb` has
/// magnitude at most three products of the bounds, rescaled.
pub proof fn lemma_dot_bound(a: Vector3<i64>, b: Vector3<i64>, ba: int, bb: int)
    requires
        vec_bounded(a, ba),
        vec_bounded(b, bb),
    ensures
        iabs(dot_spec(a, b)) <= 3 * (ba * bb / (SCALE as int)),
{
    lemma_fx_mul_bound(a.x as int, b.x as int, ba, bb);
    lemma_fx_mul_bound(a.y as int, b.y as int, ba, bb);
    lemma_fx_mul_bound(a.z as int, b.z as int, ba, bb);
}

/// A vector's dot product with itself is nonnegative.
pub proof fn lemma_dot_self_nonneg(v: Vector3<i64>)
    ensures
        dot_spec(v, v) >= 0,
{
    lemma_square_term_nonneg(v.x as int);
    lemma_square_term_nonneg(v.y as int);
    lemma_square_term_nonneg(v.z as int);
}

/// The rescaled square of a scalar is nonnegative.
proof fn lemma_square_term_nonneg(x: int)
    ensures
        fx_mul_spec(x, x) >= 0,
{
    assert(x * x >= 0) by (nonlinear_arith);
    lemma_div_pos_is_pos(x * x, SCALE as int);
}

/// The cross product is antisymmetric: swapping the operands negates every
/// component, exactly.
pub proof fn lemma_cross_antisymmetric(a: Vector3<i64>, b: Vector3<i64>)
    ensures
        cross_x_spec(a, b) == -cross_x_spec(b, a),
        cross_y_spec(a, b) == -cross_y_spec(b, a),
        cross_z_spec(a, b) == -cross_z_spec(b, a),
{
    lemma_fx_mul_comm(a.y as int, b.z as int);
    lemma_fx_mul_comm(a.z as int, b.y as int);
    lemma_fx_mul_comm(a.z as int, b.x as int);
    lemma_fx_mul_comm(a.x as int, b.z as int);
    lemma_fx_mul_comm(a.x as int, b.y as int);
    lemma_fx_mul_comm(a.y as int, b.x as int);
}

/// In exact arithmetic the cross product is orthogonal to both operands:
/// the unscaled dot product of `a` with the unscaled cross product of `a`
/// and `b` vanishes. The executable operations rescale and round each
/// product, so they satisfy this law up to rounding, not exactly.
pub proof fn lemma_cross_orthogonal_exact(a: Vector3<i64>, b: Vector3<i64>)
    ensures
        a.x as int * (a.y as int * b.z as int - a.z as int * b.y as int) + a.y as int * (
        a.z as int * b.x as int - a.x as int * b.z as int) + a.z as int * (a.x as int
            * b.y as int - a.y as int * b.x as int) == 0,
        b.x as int * (a.y as int * b.z as int - a.z as int * b.y as int) + b.y as int * (
        a.z as int * b.x as int - a.x as int * b.z as int) + b.z as int * (a.x as int
            * b.y as int - a.y as int * b.x as int) == 0,
{
    let ax = a.x as int;
    let ay = a.y as int;
    let az = a.z as int;
    let bx = b.x as int;
    let by = b.y as int;
    let bz = b.z as int;
    assert(ax * (ay * bz - az * by) + ay * (az * bx - ax * bz) + az * (ax * by - ay * bx)
        == 0) by (nonlinear_arith);
    assert(bx * (ay * bz - az * by) + by * (az * bx - ax * bz) + bz * (ax * by - ay * bx)
        == 0) by (nonlinear_arith);
}

/// A component of a vector whose fixed-point squared length is zero is
/// smaller than the square root of `SCALE`.
proof fn lemma_zero_length_component(c: int)
    requires
        fx_mul_spec(c, c) == 0,
    ensures
        iabs(c) <= 255,
{
    let s = SCALE as int;
    assert(c * c >= 0) by (nonlinear_arith);
    lemma_fundamental_div_mod(c * c, s);
    lemma_mod_division_less_than_divisor(c * c, s);
    assert(c * c < s);
    assert(iabs(c) <= 255) by (nonlinear_arith)
        requires
            c * c < 65536,
    ;
}

/// One component of a normalized vector: dividing by the fixed-point
/// length leaves at most two whole units of magnitude.
proof fn lemma_norm_component(c: int, ls: int, n: int)
    requires
        0 <= fx_mul_spec(c, c),
        fx_mul_spec(c, c) <= ls,
        is_sqrt_floor(ls * (SCALE as int), n),
        1 <= n,
    ensures
        iabs(tdiv(c * (SCALE as int), n)) <= 2 * (SCALE as int),
{
    let s = SCALE as int;
    assert(c * c >= 0) by (nonlinear_arith);
    lemma_fundamental_div_mod(c * c, s);
    lemma_mod_division_less_than_divisor(c * c, s);
    assert(fx_mul_spec(c, c) == (c * c) / s);
    assert(c * c < (fx_mul_spec(c, c) + 1) * s) by (nonlinear_arith)
        requires
            c * c == s * ((c * c) / s) + (c * c) % s,
            0 <= (c * c) % s < s,
            fx_mul_spec(c, c) == (c * c) / s,
    ;
    assert(ls * s <= n * n + 2 * n) by (nonlinear_arith)
        requires
            ls * s < (n + 1) * (n + 1),
    ;
    assert(1 <= ls) by (nonlinear_arith)
        requires
            n * n <= ls * s,
            1 <= n,
            s == 65536,
    ;
    assert(s <= ls * s) by (nonlinear_arith)
        requires
            1 <= ls,
            s == 65536,
    ;
    assert(n >= 256) by (nonlinear_arith)
        requires
            s <= ls * s,
            ls * s < (n + 1) * (n + 1),
            s == 65536,
            0 <= n,
    ;
    assert(c * c <= (ls + 1) * s) by (nonlinear_arith)
        requires
            c * c < (fx_mul_spec(c, c) + 1) * s,
            fx_mul_spec(c, c) <= ls,
            s == 65536,
    ;
    assert(c * c <= 4 * (n * n)) by (nonlinear_arith)
        requires
            c * c <= (ls + 1) * s,
            ls * s <= n * n + 2 * n,
            n >= 256,
            s == 65536,
    ;
    assert(iabs(c) <= 2 * n) by (nonlinear_arith)
        requires
            c * c <= 4 * (n * n),
            n >= 1,
    ;
    lemma_tdiv_abs(c * s, n);
    lemma_iabs_mul(c, s);
    assert(iabs(c * s) <= (2 * n) * s) by (nonlinear_arith)
        requires
            iabs(c * s) == iabs(c) * iabs(s),
            iabs(s) == s,
            iabs(c) <= 2 * n,
            s == 65536,
    ;
    lemma_div_is_ordered(iabs(c * s), (2 * n) * s, n);
    lemma_div_multiples_vanish(2 * s, n);
    assert(n * (2 * s) == (2 * n) * s) by (nonlinear_arith);
}

/// Normalizing never leaves a component above two whole units: either the
/// vector had length zero and all its components were already below one
/// unit, or each component was divided by a length that dominates it.
pub proof fn lemma_snormalize_bound(v: Vector3<i64>)
    requires
        vec_bounded(v, FX_BOUND as int),
    ensures
        vec_bounded(snormalize(v), 2 * (SCALE as int)),
{
    let s = SCALE as int;
    let ls = dot_spec(v, v);
    let n = length_spec(v);
    lemma_square_term_nonneg(v.x as int);
    lemma_square_term_nonneg(v.y as int);
    lemma_square_term_nonneg(v.z as int);
    assert(ls * s >= 0) by (nonlinear_arith)
        requires
            ls >= 0,
            s == 65536,
    ;
    lemma_sqrt_floor_exists(ls * s);
    assert(is_sqrt_floor(ls * s, n));
    if n == 0 {
        assert(ls * s < 1) by (nonlinear_arith)
            requires
                ls * s < (n + 1) * (n + 1),
                n == 0,
        ;
        assert(ls == 0) by (nonlinear_arith)
            requires
                ls * s < 1,
                ls >= 0,
                s == 65536,
        ;
        lemma_zero_length_component(v.x as int);
        lemma_zero_length_component(v.y as int);
        lemma_zero_length_component(v.z as int);
    } else {
        lemma_norm_component(v.x as int, ls, n);
        lemma_norm_component(v.y as int, ls, n);
        lemma_norm_component(v.z as int, ls, n);
    }
}


/// One side of the rounding-error bound behind
/// [`lemma_cross_orthogonal_fx`]: for any `w` exactly orthogonal to the
/// exact cross product of `a` and `b`, the fixed-point dot product of `w`
/// with the fixed-point cross product is small.
proof fn lemma_dot_cross_err(w: Vector3<i64>, a: Vector3<i64>, b: Vector3<i64>)
    requires
        vec_bounded(w, FX_BOUND as int),
        vec_bounded(a, FX_BOUND as int),
        vec_bounded(b, FX_BOUND as int),
        w.x as int * (a.y as int * b.z as int - a.z as int * b.y as int) + w.y as int * (
        a.z as int * b.x as int - a.x as int * b.z as int) + w.z as int * (a.x as int
            * b.y as int - a.y as int * b.x as int) == 0,
    ensures
        iabs(dot_spec(w, cross_spec(a, b))) <= (2 * (iabs(w.x as int) + iabs(w.y as int) + iabs(
            w.z as int,
        )) + 3 * (SCALE as int)) / (SCALE as int),
{
    let s = SCALE as int;
    let ex = a.y as int * b.z as int - a.z as int * b.y as int;
    let ey = a.z as int * b.x as int - a.x as int * b.z as int;
    let ez = a.x as int * b.y as int - a.y as int * b.x as int;
    let c = cross_spec(a, b);
    lemma_cross_term_bounds(a, b);
    assert(c.x as int == cross_x_spec(a, b));
    assert(c.y as int == cross_y_spec(a, b));
    assert(c.z as int == cross_z_spec(a, b));

    // One scale of the fixed-point cross lands within two scales of the
    // exact cross.
    lemma_tdiv_rem(a.y as int * b.z as int);
    lemma_tdiv_rem(a.z as int * b.y as int);
    lemma_mul_is_distributive_sub(
        s,
        tdiv(a.y as int * b.z as int, s),
        tdiv(a.z as int * b.y as int, s),
    );
    let epsx = s * (c.x as int) - ex;
    assert(iabs(epsx) <= 2 * s);
    lemma_tdiv_rem(a.z as int * b.x as int);
    lemma_tdiv_rem(a.x as int * b.z as int);
    lemma_mul_is_distributive_sub(
        s,
        tdiv(a.z as int * b.x as int, s),
        tdiv(a.x as int * b.z as int, s),
    );
    let epsy = s * (c.y as int) - ey;
    assert(iabs(epsy) <= 2 * s);
    lemma_tdiv_rem(a.x as int * b.y as int);
    lemma_tdiv_rem(a.y as int * b.x as int);
    lemma_mul_is_distributive_sub(
        s,
        tdiv(a.x as int * b.y as int, s),
        tdiv(a.y as int * b.x as int, s),
    );
    let epsz = s * (c.z as int) - ez;
    assert(iabs(epsz) <= 2 * s);

    // One scale of the dot product lands within three scales of the sum
    // of the scalar products.
    let px = w.x as int * (c.x as int);
    let py = w.y as int * (c.y as int);
    let pz = w.z as int * (c.z as int);
    let d = dot_spec(w, c);
    lemma_tdiv_rem(px);
    lemma_tdiv_rem(py);
    lemma_tdiv_rem(pz);
    lemma_mul_is_distributive_add(s, tdiv(px, s) + tdiv(py, s), tdiv(pz, s));
    lemma_mul_is_distributive_add(s, tdiv(px, s), tdiv(py, s));
    let t = px + py + pz;
    assert(iabs(s * d - t) <= 3 * s);

    // A scale of that sum is the sum of the rounding slacks: the exact
    // contributions cancel by orthogonality.
    lemma_mul_is_distributive_add(s, px + py, pz);
    lemma_mul_is_distributive_add(s, px, py);
    lemma_mul_is_associative(s, w.x as int, c.x as int);
    lemma_mul_is_commutative(s, w.x as int);
    lemma_mul_is_associative(w.x as int, s, c.x as int);
    lemma_mul_is_associative(s, w.y as int, c.y as int);
    lemma_mul_is_commutative(s, w.y as int);
    lemma_mul_is_associative(w.y as int, s, c.y as int);
    lemma_mul_is_associative(s, w.z as int, c.z as int);
    lemma_mul_is_commutative(s, w.z as int);
    lemma_mul_is_associative(w.z as int, s, c.z as int);
    assert(s * t == w.x as int * (s * (c.x as int)) + w.y as int * (s * (c.y as int))
        + w.z as int * (s * (c.z as int)));
    lemma_mul_is_distributive_add(w.x as int, ex, epsx);
    lemma_mul_is_distributive_add(w.y as int, ey, epsy);
    lemma_mul_is_distributive_add(w.z as int, ez, epsz);
    assert(s * t == w.x as int * epsx + w.y as int * epsy + w.z as int * epsz);
    crate::fixed::lemma_abs_mul_le(w.x as int, epsx, iabs(w.x as int), 2 * s);
    crate::fixed::lemma_abs_mul_le(w.y as int, epsy, iabs(w.y as int), 2 * s);
    crate::fixed::lemma_abs_mul_le(w.z as int, epsz, iabs(w.z as int), 2 * s);
    let aa = iabs(w.x as int) + iabs(w.y as int) + iabs(w.z as int);
    lemma_mul_is_distributive_add_other_way(2 * s, iabs(w.x as int) + iabs(w.y as int), iabs(
        w.z as int,
    ));
    lemma_mul_is_distributive_add_other_way(2 * s, iabs(w.x as int), iabs(w.y as int));
    assert(iabs(s * t) <= aa * (2 * s));
    lemma_iabs_mul(s, t);
    assert(iabs(t) <= 2 * aa) by (nonlinear_arith)
        requires
            s * iabs(t) <= aa * (2 * s),
            s > 0,
            iabs(t) >= 0,
            aa >= 0,
    ;

    // Put the two slacks together and scale back down.
    lemma_iabs_mul(s, d);
    assert(s * iabs(d) <= 2 * aa + 3 * s);
    vstd::arithmetic::div_mod::lemma_div_is_ordered(s * iabs(d), 2 * aa + 3 * s, s);
    vstd::arithmetic::div_mod::lemma_div_multiples_vanish(iabs(d), s);
}

/// The executable cross product is orthogonal to both operands up to
/// rounding: its fixed-point dot product with either operand is within a
/// few units of the last place, in proportion to that operand's size.
pub proof fn lemma_cross_orthogonal_fx(a: Vector3<i64>, b: Vector3<i64>)
    requires
        vec_bounded(a, FX_BOUND as int),
        vec_bounded(b, FX_BOUND as int),
    ensures
        iabs(dot_spec(a, cross_spec(a, b))) <= (2 * (iabs(a.x as int) + iabs(a.y as int) + iabs(
            a.z as int,
        )) + 3 * (SCALE as int)) / (SCALE as int),
        iabs(dot_spec(b, cross_spec(a, b))) <= (2 * (iabs(b.x as int) + iabs(b.y as int) + iabs(
            b.z as int,
        )) + 3 * (SCALE as int)) / (SCALE as int),
{
    lemma_cross_orthogonal_exact(a, b);
    lemma_dot_cross_err(a, a, b);
    lemma_dot_cross_err(b, a, b);
}


/// The square of one component, split by division at `SCALE`.
proof fn lemma_comp_sq_decomp(x: int)
    ensures
        fx_mul_spec(x, x) == (x * x) / (SCALE as int),
        x * x == (SCALE as int) * ((x * x) / (SCALE as int)) + (x * x) % (SCALE as int),
        0 <= (x * x) % (SCALE as int) < SCALE as int,
        x * x >= 0,
{
    let s = SCALE as int;
    assert(x * x >= 0) by (nonlinear_arith);
    lemma_fundamental_div_mod(x * x, s);
    lemma_mod_division_less_than_divisor(x * x, s);
}

/// A component of a vector is within a little of the vector's length.
proof fn lemma_comp_mag(x: int, ls: int, n: int)
    requires
        fx_mul_spec(x, x) <= ls,
        is_sqrt_floor(ls * (SCALE as int), n),
    ensures
        -(n + 257) <= x <= n + 257,
{
    let s = SCALE as int;
    lemma_comp_sq_decomp(x);
    assert(x * x < (ls + 1) * s) by (nonlinear_arith)
        requires
            x * x == s * ((x * x) / s) + (x * x) % s,
            0 <= (x * x) % s < s,
            (x * x) / s <= ls,
            s == 65536,
    ;
    assert((n + 1) * (n + 1) == n * n + 2 * n + 1) by (nonlinear_arith);
    assert(x * x <= n * n + 2 * n + s) by (nonlinear_arith)
        requires
            x * x < (ls + 1) * s,
            ls * s < n * n + 2 * n + 1,
            s == 65536,
    ;
    assert(-(n + 257) <= x <= n + 257) by (nonlinear_arith)
        requires
            x * x <= n * n + 2 * n + s,
            n >= 0,
            s == 65536,
    ;
}

/// The square of a division-with-remainder equation.
proof fn lemma_sq_eq(n: int, q: int, x: int, s: int, rho: int)
    requires
        n * q == x * s - rho,
    ensures
        n * n * (q * q) == (x * x) * (s * s) - 2 * s * (x * rho) + rho * rho,
{
    let u = x * s;
    assert(n * n * (q * q) == (n * q) * (n * q)) by (nonlinear_arith);
    assert((u - rho) * (u - rho) == u * u - 2 * (u * rho) + rho * rho) by (nonlinear_arith);
    assert(u * u == (x * x) * (s * s)) by (nonlinear_arith)
        requires
            u == x * s,
    ;
    assert(u * rho == s * (x * rho)) by (nonlinear_arith)
        requires
            u == x * s,
    ;
    assert(2 * s * (x * rho) == 2 * (s * (x * rho))) by (nonlinear_arith);
}

/// For a vector of at least one unit of length, normalizing yields a
/// vector whose length is within eight sub-units of exactly one unit.
/// Shorter vectors can come out visibly off unit length: quantization
/// dominates them.
pub proof fn lemma_normalize_unit_length(v: Vector3<i64>)
    requires
        vec_bounded(v, FX_BOUND as int),
        dot_spec(v, v) >= SCALE as int,
    ensures
        iabs(length_spec(snormalize(v)) - SCALE as int) <= 8,
{
    let s = SCALE as int;
    let x1 = v.x as int;
    let x2 = v.y as int;
    let x3 = v.z as int;
    let ls = dot_spec(v, v);
    let ls2 = ls * s;
    let n = length_spec(v);
    lemma_square_term_nonneg(x1);
    lemma_square_term_nonneg(x2);
    lemma_square_term_nonneg(x3);
    assert(ls2 >= s * s) by (nonlinear_arith)
        requires
            ls2 == ls * s,
            ls >= s,
            s == 65536,
    ;
    lemma_sqrt_floor_exists(ls2);
    assert(is_sqrt_floor(ls2, n));
    assert(n >= s) by (nonlinear_arith)
        requires
            ls2 < (n + 1) * (n + 1),
            ls2 >= s * s,
            n >= 0,
            s == 65536,
    ;

    // The sum of squares, split by division at one scale.
    lemma_comp_sq_decomp(x1);
    lemma_comp_sq_decomp(x2);
    lemma_comp_sq_decomp(x3);
    let q_big = x1 * x1 + x2 * x2 + x3 * x3;
    let rr = (x1 * x1) % s + (x2 * x2) % s + (x3 * x3) % s;
    lemma_mul_is_distributive_add(s, (x1 * x1) / s + (x2 * x2) / s, (x3 * x3) / s);
    lemma_mul_is_distributive_add(s, (x1 * x1) / s, (x2 * x2) / s);
    assert(q_big == s * ls + rr);
    assert(0 <= rr < 3 * s);

    // Components of the normalized vector, with their division slacks.
    let w = snormalize(v);
    lemma_snormalize_bound(v);
    lemma_tdiv_abs(x1 * s, n);
    lemma_tdiv_abs(x2 * s, n);
    lemma_tdiv_abs(x3 * s, n);
    lemma_iabs_mul(x1, s);
    lemma_iabs_mul(x2, s);
    lemma_iabs_mul(x3, s);
    lemma_div_is_ordered_by_denominator(iabs(x1 * s), 1, n);
    lemma_div_is_ordered_by_denominator(iabs(x2 * s), 1, n);
    lemma_div_is_ordered_by_denominator(iabs(x3 * s), 1, n);
    assert(iabs(tdiv(x1 * s, n)) <= iabs(x1) * s);
    assert(iabs(tdiv(x2 * s, n)) <= iabs(x2) * s);
    assert(iabs(tdiv(x3 * s, n)) <= iabs(x3) * s);
    assert(iabs(x1) * s <= 0x4000_0000 * 65536) by (nonlinear_arith)
        requires
            0 <= iabs(x1) <= 0x4000_0000,
            s == 65536,
    ;
    assert(iabs(x2) * s <= 0x4000_0000 * 65536) by (nonlinear_arith)
        requires
            0 <= iabs(x2) <= 0x4000_0000,
            s == 65536,
    ;
    assert(iabs(x3) * s <= 0x4000_0000 * 65536) by (nonlinear_arith)
        requires
            0 <= iabs(x3) <= 0x4000_0000,
            s == 65536,
    ;
    let q1 = w.x as int;
    let q2 = w.y as int;
    let q3 = w.z as int;
    assert(q1 == tdiv(x1 * s, n));
    assert(q2 == tdiv(x2 * s, n));
    assert(q3 == tdiv(x3 * s, n));
    lemma_tdiv_rem_div(x1 * s, n);
    lemma_tdiv_rem_div(x2 * s, n);
    lemma_tdiv_rem_div(x3 * s, n);
    let rho1 = x1 * s - n * q1;
    let rho2 = x2 * s - n * q2;
    let rho3 = x3 * s - n * q3;
    assert(iabs(rho1) < n);
    assert(iabs(rho2) < n);
    assert(iabs(rho3) < n);

    // Square each equation and sum.
    lemma_sq_eq(n, q1, x1, s, rho1);
    lemma_sq_eq(n, q2, x2, s, rho2);
    lemma_sq_eq(n, q3, x3, s, rho3);
    let sq = q1 * q1 + q2 * q2 + q3 * q3;
    let ww = x1 * rho1 + x2 * rho2 + x3 * rho3;
    let pp = rho1 * rho1 + rho2 * rho2 + rho3 * rho3;
    lemma_mul_is_distributive_add(n * n, q1 * q1 + q2 * q2, q3 * q3);
    lemma_mul_is_distributive_add(n * n, q1 * q1, q2 * q2);
    lemma_mul_is_distributive_add(s * s, x1 * x1 + x2 * x2, x3 * x3);
    lemma_mul_is_distributive_add(s * s, x1 * x1, x2 * x2);
    lemma_mul_is_distributive_add(2 * s, x1 * rho1 + x2 * rho2, x3 * rho3);
    lemma_mul_is_distributive_add(2 * s, x1 * rho1, x2 * rho2);
    assert((x1 * x1) * (s * s) == (s * s) * (x1 * x1)) by (nonlinear_arith);
    assert((x2 * x2) * (s * s) == (s * s) * (x2 * x2)) by (nonlinear_arith);
    assert((x3 * x3) * (s * s) == (s * s) * (x3 * x3)) by (nonlinear_arith);
    assert(n * n * sq == (s * s) * q_big - 2 * s * ww + pp);

    // Bound the slack terms.
    lemma_comp_mag(x1, ls, n);
    lemma_comp_mag(x2, ls, n);
    lemma_comp_mag(x3, ls, n);
    crate::fixed::lemma_abs_mul_le(x1, rho1, n + 257, n);
    crate::fixed::lemma_abs_mul_le(x2, rho2, n + 257, n);
    crate::fixed::lemma_abs_mul_le(x3, rho3, n + 257, n);
    assert(iabs(ww) <= 3 * ((n + 257) * n));
    assert(rho1 * rho1 <= n * n) by (nonlinear_arith)
        requires
            iabs(rho1) < n,
            rho1 <= iabs(rho1),
            -rho1 <= iabs(rho1),
    ;
    assert(rho2 * rho2 <= n * n) by (nonlinear_arith)
        requires
            iabs(rho2) < n,
            rho2 <= iabs(rho2),
            -rho2 <= iabs(rho2),
    ;
    assert(rho3 * rho3 <= n * n) by (nonlinear_arith)
        requires
            iabs(rho3) < n,
            rho3 <= iabs(rho3),
            -rho3 <= iabs(rho3),
    ;
    assert(rho1 * rho1 >= 0) by (nonlinear_arith);
    assert(rho2 * rho2 >= 0) by (nonlinear_arith);
    assert(rho3 * rho3 >= 0) by (nonlinear_arith);
    assert(0 <= pp <= 3 * (n * n));

    // The sum of squares of the scaled vector sits within a small
    // multiple of the squared length of its slack.
    let g = ls2 - n * n;
    assert((n + 1) * (n + 1) == n * n + 2 * n + 1) by (nonlinear_arith);
    assert(0 <= g <= 2 * n);
    lemma_mul_is_distributive_add(s * s, s * ls, rr);
    assert((s * s) * (s * ls) == (s * s) * ls2) by (nonlinear_arith)
        requires
            ls2 == ls * s,
    ;
    lemma_mul_is_distributive_add(s * s, n * n, g);
    assert(n * n * sq - (s * s) * (n * n) == (s * s) * g + (s * s) * rr - 2 * s * ww + pp);
    assert((s * s) * g <= (2 * s) * (n * n)) by (nonlinear_arith)
        requires
            0 <= g <= 2 * n,
            n >= s,
            s == 65536,
    ;
    assert((s * s) * g >= 0) by (nonlinear_arith)
        requires
            g >= 0,
            s == 65536,
    ;
    assert((s * s) * rr <= (3 * s) * (n * n)) by (nonlinear_arith)
        requires
            0 <= rr < 3 * s,
            n >= s,
            s == 65536,
    ;
    assert((s * s) * rr >= 0) by (nonlinear_arith)
        requires
            rr >= 0,
            s == 65536,
    ;
    assert(2 * s * (3 * ((n + 257) * n)) <= (6 * s + 1542) * (n * n)) by (nonlinear_arith)
        requires
            n >= s,
            s == 65536,
    ;
    assert(iabs(2 * s * ww) <= (6 * s + 1542) * (n * n)) by {
        lemma_iabs_mul(2 * s, ww);
        assert(2 * s * iabs(ww) <= 2 * s * (3 * ((n + 257) * n))) by (nonlinear_arith)
            requires
                0 <= iabs(ww) <= 3 * ((n + 257) * n),
                s == 65536,
        ;
    }
    let kk = 11 * s + 1545;
    assert(iabs(n * n * sq - (s * s) * (n * n)) <= (2 * s) * (n * n) + (3 * s) * (n * n) + (6 * s
        + 1542) * (n * n) + 3 * (n * n));
    assert((2 * s) * (n * n) + (3 * s) * (n * n) + (6 * s + 1542) * (n * n) + 3 * (n * n) == kk * (
    n * n)) by (nonlinear_arith)
        requires
            kk == 11 * s + 1545,
            s == 65536,
    ;
    lemma_mul_is_distributive_sub(n * n, sq, s * s);
    assert(-(kk * (n * n)) <= n * n * (sq - s * s) <= kk * (n * n));
    assert(-kk <= sq - s * s <= kk) by (nonlinear_arith)
        requires
            -(kk * (n * n)) <= n * n * (sq - s * s) <= kk * (n * n),
            n * n > 0,
            kk > 0,
    ;

    // The fixed-point squared length of the result, and its length.
    let lsp = dot_spec(w, w);
    lemma_comp_sq_decomp(q1);
    lemma_comp_sq_decomp(q2);
    lemma_comp_sq_decomp(q3);
    let rr2 = (q1 * q1) % s + (q2 * q2) % s + (q3 * q3) % s;
    lemma_mul_is_distributive_add(s, (q1 * q1) / s + (q2 * q2) / s, (q3 * q3) / s);
    lemma_mul_is_distributive_add(s, (q1 * q1) / s, (q2 * q2) / s);
    assert(sq == s * lsp + rr2);
    assert(0 <= rr2 < 3 * s);
    assert(kk + 3 * s <= 15 * s);
    assert(s * (s - 15) <= s * lsp <= s * (s + 15)) by (nonlinear_arith)
        requires
            s * lsp == sq - rr2,
            -(11 * s + 1545) <= sq - s * s <= 11 * s + 1545,
            0 <= rr2 < 3 * s,
            s == 65536,
    ;
    assert(s - 15 <= lsp <= s + 15) by (nonlinear_arith)
        requires
            s * (s - 15) <= s * lsp <= s * (s + 15),
            s > 0,
    ;
    let lsp2 = lsp * s;
    assert((s - 15) * s <= lsp2 <= (s + 15) * s) by (nonlinear_arith)
        requires
            s - 15 <= lsp <= s + 15,
            lsp2 == lsp * s,
            s > 0,
    ;
    assert(lsp2 >= 0);
    lemma_sqrt_floor_exists(lsp2);
    let m = length_spec(w);
    assert(is_sqrt_floor(lsp2, m));
    assert((s - 8) * (s - 8) < (s - 15) * s) by (nonlinear_arith)
        requires
            s == 65536,
    ;
    assert(m >= s - 8) by (nonlinear_arith)
        requires
            lsp2 < (m + 1) * (m + 1),
            (s - 8) * (s - 8) < (s - 15) * s,
            (s - 15) * s <= lsp2,
            m >= 0,
            s == 65536,
    ;
    assert((s + 15) * s < (s + 8) * (s + 8)) by (nonlinear_arith)
        requires
            s == 65536,
    ;
    assert(m <= s + 7) by (nonlinear_arith)
        requires
            m * m <= lsp2,
            lsp2 <= (s + 15) * s,
            (s + 15) * s < (s + 8) * (s + 8),
            m >= 0,
            s == 65536,
    ;
    assert(iabs(m - s) <= 8);
}

} // verus!
