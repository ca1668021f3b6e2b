//! Exact fixed-point arithmetic: a real quantity `q` is stored as the integer
//! `q * FX_ONE`, and every operation rounds toward zero, so each result is a
//! deterministic integer function of its inputs.

use vstd::prelude::*;

verus! {

/// The fixed-point unit: the stored integer `FX_ONE` denotes the real value 1.
pub const FX_ONE: i64 = 1_000_000;

/// A 3-vector of fixed-point coordinates.
#[derive(Clone, Copy, Debug, PartialEq, Eq, Structural)]
pub struct Vec3Fx {
    pub x: i64,
    pub y: i64,
    pub z: i64,
}

/// A 2-vector of fixed-point coordinates.
#[derive(Clone, Copy, Debug, PartialEq, Eq, Structural)]
pub struct Vec2Fx {
    pub x: i64,
    pub y: i64,
}

/// Division rounding toward zero, the rounding of Rust's `/` on signed
/// integers. Meaningful for `b > 0`.
pub open spec fn tdiv(a: int, b: int) -> int {
    if a >= 0 {
        a / b
    } else {
        -((-a) / b)
    }
}

/// Fixed-point product: the real product of the two operands, rounded toward
/// zero back onto the fixed-point lattice.
pub open spec fn fmul(a: int, b: int) -> int {
    tdiv(a * b, FX_ONE as int)
}

/// `r` is the floor of the square root of `n`.
pub open spec fn is_sqrt_floor(n: int, r: int) -> bool {
    &&& 0 <= r
    &&& r * r <= n
    &&& n < (r + 1) * (r + 1)
}

/// The floor of the square root of `n` (meaningful for `n >= 0`).
pub open spec fn sqrt_floor(n: int) -> int {
    choose|r: int| is_sqrt_floor(n, r)
}

/// The ceiling of the square root of `n` (meaningful for `n >= 0`): the
/// smallest integer whose square is at least `n`.
pub open spec fn sqrt_ceil(n: int) -> int {
    if sqrt_floor(n) * sqrt_floor(n) == n {
        sqrt_floor(n)
    } else {
        sqrt_floor(n) + 1
    }
}

/// The floor square root is unique.
pub proof fn lemma_sqrt_floor_unique(n: int, r1: int, r2: int)
    by (nonlinear_arith)
    requires
        is_sqrt_floor(n, r1),
        is_sqrt_floor(n, r2),
    ensures
        r1 == r2,
{
}

/// Any value whose square is at most `n` is bounded by the floor square root
/// of `n`.
pub proof fn lemma_sqrt_floor_dominates(n: int, r: int, v: int)
    by (nonlinear_arith)
    requires
        is_sqrt_floor(n, r),
        v * v <= n,
    ensures
        -r <= v <= r,
{
}

/// A quotient is no larger in magnitude than the bound that the dividend's
/// magnitude gives.
pub proof fn lemma_tdiv_bound(a: int, d: int, b: int)
    by (nonlinear_arith)
    requires
        d > 0,
        b >= 0,
        -(b * d) <= a <= b * d,
    ensures
        -b <= tdiv(a, d) <= b,
{
}

/// The magnitude of a product of bounded factors.
pub proof fn lemma_mul_abs_bound(a: int, b: int, abound: int, bbound: int)
    by (nonlinear_arith)
    requires
        -abound <= a <= abound,
        -bbound <= b <= bbound,
        0 <= abound,
        0 <= bbound,
    ensures
        -(abound * bbound) <= a * b <= abound * bbound,
{
}

/// Multiplying a truncated quotient back by the divisor never overshoots the
/// dividend, on either side of zero.
pub proof fn lemma_tdiv_mul_bound(a: int, d: int)
    requires
        d > 0,
    ensures
        a >= 0 ==> 0 <= tdiv(a, d) * d <= a,
        a <= 0 ==> a <= tdiv(a, d) * d <= 0,
{
    if a >= 0 {
        vstd::arithmetic::div_mod::lemma_fundamental_div_mod(a, d);
        vstd::arithmetic::div_mod::lemma_mod_division_less_than_divisor(a, d);
        vstd::arithmetic::div_mod::lemma_div_pos_is_pos(a, d);
        vstd::arithmetic::mul::lemma_mul_nonnegative(a / d, d);
        vstd::arithmetic::mul::lemma_mul_is_commutative(a / d, d);
    } else {
        let b = -a;
        vstd::arithmetic::div_mod::lemma_fundamental_div_mod(b, d);
        vstd::arithmetic::div_mod::lemma_mod_division_less_than_divisor(b, d);
        vstd::arithmetic::div_mod::lemma_div_pos_is_pos(b, d);
        vstd::arithmetic::mul::lemma_mul_nonnegative(b / d, d);
        vstd::arithmetic::mul::lemma_mul_is_commutative(b / d, d);
        vstd::arithmetic::mul::lemma_mul_unary_negation(b / d, d);
    }
}

/// Squaring keeps the order of a value pulled toward zero.
pub proof fn lemma_sq_between(v: int, w: int)
    by (nonlinear_arith)
    requires
        (0 <= w <= v) || (v <= w <= 0),
    ensures
        w * w <= v * v,
{
}

/// A common positive factor can be cancelled from an inequality.
pub proof fn lemma_mul_le_cancel(x: int, y: int, c: int)
    by (nonlinear_arith)
    requires
        c > 0,
        x * c <= y * c,
    ensures
        x <= y,
{
}

/// A quotient keeps the sign of its dividend.
pub proof fn lemma_tdiv_sign(a: int, d: int)
    requires
        d > 0,
    ensures
        a >= 0 ==> tdiv(a, d) >= 0,
        a <= 0 ==> tdiv(a, d) <= 0,
{
    if a >= 0 {
        vstd::arithmetic::div_mod::lemma_div_pos_is_pos(a, d);
    } else {
        vstd::arithmetic::div_mod::lemma_div_pos_is_pos(-a, d);
    }
}

/// The magnitude of a fixed-point product of bounded factors.
pub proof fn lemma_fmul_bound(a: int, b: int, abound: int, bbound: int, q: int)
    requires
        -abound <= a <= abound,
        -bbound <= b <= bbound,
        0 <= abound,
        0 <= bbound,
        0 <= q,
        abound * bbound <= q * (FX_ONE as int),
    ensures
        -q <= fmul(a, b) <= q,
        -(abound * bbound) <= a * b <= abound * bbound,
{
    lemma_mul_abs_bound(a, b, abound, bbound);
    lemma_tdiv_bound(a * b, FX_ONE as int, q);
}

/// The square of a bounded value is bounded and non-negative.
pub proof fn lemma_sq_bound(v: int, b: int)
    by (nonlinear_arith)
    requires
        -b <= v <= b,
        0 <= b,
    ensures
        0 <= v * v <= b * b,
{
}

/// The square of a non-zero integer is at least one.
pub proof fn lemma_sq_pos(v: int)
    by (nonlinear_arith)
    requires
        v != 0,
    ensures
        v * v >= 1,
{
}

/// A value whose square is at most `b * b` lies within `b`.
pub proof fn lemma_abs_le_of_sq_le(v: int, b: int)
    by (nonlinear_arith)
    requires
        v * v <= b * b,
        0 <= b,
    ensures
        -b <= v <= b,
{
}

/// Fixed-point multiplication, rounded toward zero.
pub fn fx_mul(a: i64, b: i64) -> (r: i64)
    requires
        -9_000_000_000_000_000_000 * (FX_ONE as int) <= (a as int) * (b as int)
            <= 9_000_000_000_000_000_000 * (FX_ONE as int),
    ensures
        r == fmul(a as int, b as int),
{
    proof {
        lemma_mul_abs_bound(
            a as int,
            b as int,
            9_223_372_036_854_775_808,
            9_223_372_036_854_775_808,
        );
    }
    let p: i128 = (a as i128) * (b as i128);
    let q: i128 = p / (FX_ONE as i128);
    proof {
        lemma_tdiv_bound(p as int, FX_ONE as int, 9_000_000_000_000_000_000);
    }
    q as i64
}

/// The floor of the square root, by bisection.
pub fn isqrt128(n: i128) -> (r: i128)
    requires
        0 <= n <= 400_000_000_000_000_000_000_000_000_000_000,
    ensures
        is_sqrt_floor(n as int, r as int),
        r == sqrt_floor(n as int),
        0 <= r <= 20_000_000_000_000_000,
{
    let mut lo: i128 = 0;
    let mut hi: i128 = 20_000_000_000_000_001;
    proof {
        assert((n as int) < 20_000_000_000_000_001 * 20_000_000_000_000_001) by (nonlinear_arith)
            requires
                n <= 400_000_000_000_000_000_000_000_000_000_000,
        ;
    }
    while lo + 1 < hi
        invariant
            0 <= lo < hi <= 20_000_000_000_000_001,
            (lo as int) * (lo as int) <= n as int,
            (n as int) < (hi as int) * (hi as int),
        decreases hi - lo,
    {
        let mid: i128 = lo + (hi - lo) / 2;
        proof {
            assert(0 <= mid * mid <= 20_000_000_000_000_001 * 20_000_000_000_000_001)
                by (nonlinear_arith)
                requires
                    0 <= mid <= 20_000_000_000_000_001,
            ;
        }
        if mid * mid <= n {
            lo = mid;
        } else {
            hi = mid;
        }
    }
    proof {
        assert(is_sqrt_floor(n as int, lo as int));
        assert(exists|r: int| is_sqrt_floor(n as int, r));
        lemma_sqrt_floor_unique(n as int, lo as int, sqrt_floor(n as int));
    }
    lo
}

} // verus!
