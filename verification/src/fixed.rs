//! Signed 64-bit fixed-point scalars.
//!
//! A scalar `n: i64` stands for the real number `n / SCALE`. Multiplication
//! and division of scalars rescale their exact integer result and truncate
//! toward zero, exactly as the contracts below state.

use vstd::prelude::*;
use vstd::arithmetic::div_mod::{
    lemma_div_is_ordered, lemma_div_multiples_vanish, lemma_div_pos_is_pos,
    lemma_fundamental_div_mod, lemma_mod_division_less_than_divisor,
};

verus! {

/// One whole unit: the fixed-point representation of the real number 1.
pub const SCALE: i64 = 65536;

/// Largest scalar magnitude the compound geometric operations accept:
/// the product of two such scalars stays within a signed 64-bit integer.
pub const FX_BOUND: i64 = 1073741824;

/// The numeric value of `FX_BOUND` squared over `SCALE`.
pub proof fn lemma_fx_bound_sq_div()
    ensures
        (FX_BOUND as int) * (FX_BOUND as int) / (SCALE as int) == 0x1000_0000_0000,
        (FX_BOUND as int) * (FX_BOUND as int) == 0x1000_0000_0000_0000,
{
    assert((FX_BOUND as int) * (FX_BOUND as int) == 0x1000_0000_0000_0000)
        by (nonlinear_arith)
        requires
            FX_BOUND as int == 0x4000_0000,
    ;
    lemma_div_multiples_vanish(0x1000_0000_0000, SCALE as int);
    assert((SCALE as int) * 0x1000_0000_0000 == 0x1000_0000_0000_0000);
}

/// Magnitude of a mathematical integer.
pub open spec fn iabs(a: int) -> int {
    if a >= 0 {
        a
    } else {
        -a
    }
}

/// Division truncating toward zero, the semantics of `/` on machine integers.
pub open spec fn tdiv(a: int, b: int) -> int
    recommends
        b != 0,
{
    if (a >= 0) == (b >= 0) {
        iabs(a) / iabs(b)
    } else {
        -(iabs(a) / iabs(b))
    }
}

/// The product of two fixed-point scalars: exact product, rescaled.
pub open spec fn fx_mul_spec(a: int, b: int) -> int {
    tdiv(a * b, SCALE as int)
}

/// The quotient of two fixed-point scalars: numerator rescaled, then divided.
pub open spec fn fx_div_spec(a: int, b: int) -> int
    recommends
        b != 0,
{
    tdiv(a * (SCALE as int), b)
}

/// `r` is the integer square root of `n`, rounded down.
pub open spec fn is_sqrt_floor(n: int, r: int) -> bool {
    0 <= r && r * r <= n && n < (r + 1) * (r + 1)
}

/// The integer square root of `n`, rounded down.
pub open spec fn sqrt_floor(n: int) -> int {
    choose|r: int| is_sqrt_floor(n, r)
}

/// Every nonnegative integer has a rounded-down square root.
pub proof fn lemma_sqrt_floor_exists(n: int)
    requires
        n >= 0,
    ensures
        is_sqrt_floor(n, sqrt_floor(n)),
    decreases n,
{
    if n == 0 {
        assert(is_sqrt_floor(0, 0)) by (nonlinear_arith);
    } else {
        lemma_sqrt_floor_exists(n - 1);
        let r = sqrt_floor(n - 1);
        if (r + 1) * (r + 1) <= n {
            assert(n <= (r + 1) * (r + 1));
            assert(is_sqrt_floor(n, r + 1)) by (nonlinear_arith)
                requires
                    r >= 0 && n == (r + 1) * (r + 1),
            ;
        } else {
            assert(is_sqrt_floor(n, r));
        }
        assert(exists|q: int| is_sqrt_floor(n, q));
        lemma_sqrt_floor_unique(n, choose|q: int| is_sqrt_floor(n, q), sqrt_floor(n));
    }
}

/// The rounded-down square root is unique.
pub proof fn lemma_sqrt_floor_unique(n: int, r1: int, r2: int)
    requires
        is_sqrt_floor(n, r1),
        is_sqrt_floor(n, r2),
    ensures
        r1 == r2,
{
    if r1 < r2 {
        assert((r1 + 1) * (r1 + 1) <= r2 * r2) by (nonlinear_arith)
            requires
                0 <= r1 && r1 + 1 <= r2,
        ;
    }
    if r2 < r1 {
        assert((r2 + 1) * (r2 + 1) <= r1 * r1) by (nonlinear_arith)
            requires
                0 <= r2 && r2 + 1 <= r1,
        ;
    }
}

/// Magnitudes multiply: `|a * b| == |a| * |b|`.
pub proof fn lemma_iabs_mul(a: int, b: int)
    ensures
        iabs(a * b) == iabs(a) * iabs(b),
{
    assert(iabs(a * b) == iabs(a) * iabs(b)) by (nonlinear_arith);
}

/// Bounds on two factors bound the magnitude of their product.
pub proof fn lemma_abs_mul_le(a: int, b: int, ba: int, bb: int)
    requires
        iabs(a) <= ba,
        iabs(b) <= bb,
    ensures
        iabs(a * b) <= ba * bb,
{
    lemma_iabs_mul(a, b);
    assert(iabs(a) * iabs(b) <= ba * bb) by (nonlinear_arith)
        requires
            0 <= iabs(a) <= ba,
            0 <= iabs(b) <= bb,
    ;
}

/// Truncating division by a positive divisor never grows the magnitude of
/// the exact quotient: `|tdiv(a, b)| == |a| / |b|`.
pub proof fn lemma_tdiv_abs(a: int, b: int)
    requires
        b != 0,
    ensures
        iabs(tdiv(a, b)) == iabs(a) / iabs(b),
{
    if iabs(a) == 0 {
        assert(iabs(a) / iabs(b) == 0);
    } else {
        lemma_div_pos_is_pos(iabs(a), iabs(b));
    }
}

/// Multiplying a truncated quotient back by the divisor leaves less than
/// one divisor of remainder.
pub proof fn lemma_tdiv_rem_div(p: int, d: int)
    requires
        d > 0,
    ensures
        iabs(d * tdiv(p, d) - p) < d,
{
    if p >= 0 {
        lemma_fundamental_div_mod(p, d);
        lemma_mod_division_less_than_divisor(p, d);
        assert(tdiv(p, d) == p / d);
        assert(d * tdiv(p, d) - p == -(p % d));
    } else {
        lemma_fundamental_div_mod(-p, d);
        lemma_mod_division_less_than_divisor(-p, d);
        assert(tdiv(p, d) == -((-p) / d));
        assert(d * (-((-p) / d)) == -(d * ((-p) / d))) by (nonlinear_arith);
        assert(d * tdiv(p, d) - p == (-p) % d);
    }
}

/// Multiplying a quotient truncated at `SCALE` back by `SCALE` leaves
/// less than one `SCALE` of remainder.
pub proof fn lemma_tdiv_rem(p: int)
    ensures
        iabs((SCALE as int) * tdiv(p, SCALE as int) - p) < SCALE as int,
{
    lemma_tdiv_rem_div(p, SCALE as int);
}

/// Multiplying by one whole unit is the identity: `fx_mul_spec(SCALE, x) == x`.
pub proof fn lemma_fx_mul_one(x: int)
    ensures
        fx_mul_spec(SCALE as int, x) == x,
        fx_mul_spec(x, SCALE as int) == x,
{
    let s = SCALE as int;
    if x >= 0 {
        lemma_div_multiples_vanish(x, s);
        assert(s * x / s == x);
        assert(tdiv(s * x, s) == x);
    } else {
        lemma_div_multiples_vanish(-x, s);
        assert(s * (-x) / s == -x);
        assert(iabs(s * x) == s * (-x));
        assert(tdiv(s * x, s) == -(s * (-x) / s));
    }
    assert(x * s == s * x);
}

/// Multiplying by zero gives zero.
pub proof fn lemma_fx_mul_zero(x: int)
    ensures
        fx_mul_spec(0, x) == 0,
        fx_mul_spec(x, 0) == 0,
{
}

/// Fixed-point multiplication is commutative.
pub proof fn lemma_fx_mul_comm(a: int, b: int)
    ensures
        fx_mul_spec(a, b) == fx_mul_spec(b, a),
{
    assert(a * b == b * a);
}

/// Multiplying by one whole unit is the identity and multiplying by zero
/// gives zero, for every scalar.
pub proof fn lemma_fx_unit_all()
    ensures
        forall|x: int| #[trigger] fx_mul_spec(SCALE as int, x) == x,
        forall|x: int| #[trigger] fx_mul_spec(x, SCALE as int) == x,
        forall|x: int| #[trigger] fx_mul_spec(0, x) == 0,
        forall|x: int| #[trigger] fx_mul_spec(x, 0) == 0,
{
    assert forall|x: int| #[trigger] fx_mul_spec(SCALE as int, x) == x by {
        lemma_fx_mul_one(x);
    }
    assert forall|x: int| #[trigger] fx_mul_spec(x, SCALE as int) == x by {
        lemma_fx_mul_one(x);
    }
    assert forall|x: int| #[trigger] fx_mul_spec(0, x) == 0 by {
        lemma_fx_mul_zero(x);
    }
    assert forall|x: int| #[trigger] fx_mul_spec(x, 0) == 0 by {
        lemma_fx_mul_zero(x);
    }
}

/// A bound on the factors bounds the product: with `|a| <= ba` and
/// `|b| <= bb`, `|fx_mul_spec(a, b)| <= ba * bb / SCALE`.
pub proof fn lemma_fx_mul_bound(a: int, b: int, ba: int, bb: int)
    requires
        iabs(a) <= ba,
        iabs(b) <= bb,
    ensures
        iabs(fx_mul_spec(a, b)) <= ba * bb / (SCALE as int),
{
    let s = SCALE as int;
    lemma_tdiv_abs(a * b, s);
    lemma_iabs_mul(a, b);
    assert(iabs(a) * iabs(b) <= ba * bb) by (nonlinear_arith)
        requires
            0 <= iabs(a) <= ba && 0 <= iabs(b) <= bb,
    ;
    lemma_div_is_ordered(iabs(a) * iabs(b), ba * bb, s);
}

/// Truncating division of `a` by `b`, with `a != i64::MIN` so that the
/// magnitude of the numerator fits.
pub fn idiv(a: i64, b: i64) -> (r: i64)
    requires
        b != 0,
        a != i64::MIN,
    ensures
        r as int == tdiv(a as int, b as int),
{
    let neg: bool = (a < 0) != (b < 0);
    let ua: u64 = if a < 0 {
        (-(a as i128)) as u64
    } else {
        a as u64
    };
    let ub: u64 = if b < 0 {
        (-(b as i128)) as u64
    } else {
        b as u64
    };
    let uq: u64 = ua / ub;
    proof {
        assert(ua as int == iabs(a as int));
        assert(ub as int == iabs(b as int));
        lemma_div_is_ordered(uq as int, ua as int, 1);
        assert(uq as int <= ua as int);
    }
    if neg {
        -(uq as i64)
    } else {
        uq as i64
    }
}

/// The sign of a product follows the signs of its factors.
proof fn lemma_sign_cases(a: int, b: int)
    ensures
        ((a < 0) != (b < 0)) ==> a * b <= 0,
        ((a < 0) == (b < 0)) ==> a * b >= 0,
{
    if a >= 0 && b >= 0 {
        assert(a * b >= 0) by (nonlinear_arith)
            requires
                a >= 0,
                b >= 0,
        ;
    }
    if a < 0 && b < 0 {
        assert(a * b >= 0) by (nonlinear_arith)
            requires
                a < 0,
                b < 0,
        ;
    }
    if a >= 0 && b < 0 {
        assert(a * b <= 0) by (nonlinear_arith)
            requires
                a >= 0,
                b < 0,
        ;
    }
    if a < 0 && b >= 0 {
        assert(a * b <= 0) by (nonlinear_arith)
            requires
                a < 0,
                b >= 0,
        ;
    }
}

/// The fixed-point product of `a` and `b`. The exact product must fit a
/// signed 64-bit integer; the result then fits as well.
pub fn fx_mul(a: i64, b: i64) -> (r: i64)
    requires
        -0x7fff_ffff_ffff_ffff <= a as int * b as int <= 0x7fff_ffff_ffff_ffff,
    ensures
        r as int == fx_mul_spec(a as int, b as int),
{
    let neg: bool = (a < 0) != (b < 0);
    let ua: u128 = if a < 0 {
        (-(a as i128)) as u128
    } else {
        a as u128
    };
    let ub: u128 = if b < 0 {
        (-(b as i128)) as u128
    } else {
        b as u128
    };
    proof {
        assert(ua as int == iabs(a as int));
        assert(ub as int == iabs(b as int));
        assert((ua as int) * (ub as int) < 0x1_0000_0000_0000_0000_0000_0000_0000_0000)
            by (nonlinear_arith)
            requires
                0 <= ua as int <= 0x8000_0000_0000_0000,
                0 <= ub as int <= 0x8000_0000_0000_0000,
        ;
    }
    let up: u128 = ua * ub;
    let uq: u128 = up / 65536;
    proof {
        let p = (a as int) * (b as int);
        let s = SCALE as int;
        lemma_iabs_mul(a as int, b as int);
        assert(up as int == iabs(p));
        assert(uq as int == iabs(p) / s);
        lemma_div_is_ordered(up as int, 0x7fff_ffff_ffff_ffff, s);
        lemma_div_pos_is_pos(up as int, s);
        assert(uq as int <= 0x7fff_ffff_ffff_ffff);
        lemma_sign_cases(a as int, b as int);
        if neg {
            assert(p <= 0);
            if p == 0 {
                assert(iabs(p) / s == 0);
            }
            assert(tdiv(p, s) == -(iabs(p) / s) || tdiv(p, s) == 0);
        } else {
            assert(p >= 0);
            assert(tdiv(p, s) == iabs(p) / s);
        }
    }
    if neg {
        -(uq as i64)
    } else {
        uq as i64
    }
}

/// The fixed-point quotient of `a` by `b`. The rescaled numerator
/// `a * SCALE` must fit a signed 64-bit integer.
pub fn fx_div(a: i64, b: i64) -> (r: i64)
    requires
        b != 0,
        -0x7fff_ffff_ffff <= a <= 0x7fff_ffff_ffff,
    ensures
        r as int == fx_div_spec(a as int, b as int),
{
    idiv(a * SCALE, b)
}

/// The integer square root of `n`, rounded down, by bisection.
pub fn isqrt(n: u64) -> (r: u64)
    ensures
        is_sqrt_floor(n as int, r as int),
        r as int == sqrt_floor(n as int),
{
    let mut lo: u64 = 0;
    let mut hi: u64 = 4294967296;
    proof {
        assert((hi as int) * (hi as int) > n as int) by (nonlinear_arith)
            requires
                hi == 4294967296u64 && n <= 0xffff_ffff_ffff_ffffu64,
        ;
    }
    while lo + 1 < hi
        invariant
            0 <= lo < hi <= 4294967296,
            (lo as int) * (lo as int) <= n as int,
            (n as int) < (hi as int) * (hi as int),
        decreases hi - lo,
    {
        let mid: u64 = lo + (hi - lo) / 2;
        assert(lo < mid < hi);
        let q: u64 = n / mid;
        proof {
            if mid <= q {
                assert((mid as int) * (mid as int) <= n as int) by (nonlinear_arith)
                    requires
                        0 < mid as int,
                        (mid as int) <= q as int,
                        q as int == n as int / mid as int,
                        n as int >= 0,
                ;
            } else {
                assert((n as int) < (mid as int) * (mid as int)) by (nonlinear_arith)
                    requires
                        0 < mid as int,
                        (q as int) < mid as int,
                        q as int == n as int / mid as int,
                        n as int >= 0,
                ;
            }
        }
        if mid <= q {
            lo = mid;
        } else {
            hi = mid;
        }
    }
    proof {
        assert(is_sqrt_floor(n as int, lo as int));
        lemma_sqrt_floor_exists(n as int);
        lemma_sqrt_floor_unique(n as int, lo as int, sqrt_floor(n as int));
    }
    lo
}

} // verus!
