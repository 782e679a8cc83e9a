//! Fixed-point scalar arithmetic.
//!
//! A scalar holds a real value as a multiple of `1 / SCALE`.  Every
//! operation clamps its result into `[-CMAX, CMAX]`, so stored values stay
//! small enough that any product of two of them fits in `i64`.

use vstd::prelude::*;

verus! {

/// Number of fractional steps in one unit: a scalar `v` stands for the
/// real value `v / SCALE`.
pub const SCALE: i64 = 65536;

/// Largest magnitude a clamped scalar may have (`i32::MAX`), chosen so
/// that a product of two clamped scalars fits in `i64`.
pub const CMAX: i64 = 0x7fff_ffff;

/// A scalar within the clamping range.
pub open spec fn in_range(x: int) -> bool {
    -CMAX <= x <= CMAX
}

/// Clamp into `[-CMAX, CMAX]`.
pub open spec fn clamp_s(x: int) -> int {
    if x > CMAX {
        CMAX as int
    } else if x < -CMAX {
        -CMAX as int
    } else {
        x
    }
}

/// Division truncating toward zero, as the executable `/` does on
/// nonnegative operands (spec-level `/` is Euclidean).
pub open spec fn tdiv(a: int, d: int) -> int
    recommends
        d > 0,
{
    if a >= 0 {
        a / d
    } else {
        -((-a) / d)
    }
}

/// Remainder with the dividend's sign, as the executable `%` does.
pub open spec fn tmod(a: int, d: int) -> int
    recommends
        d > 0,
{
    if a >= 0 {
        a % d
    } else {
        -((-a) % d)
    }
}

/// Clamped fixed-point addition.
pub open spec fn add_s(a: int, b: int) -> int {
    clamp_s(a + b)
}

/// Clamped fixed-point subtraction.
pub open spec fn sub_s(a: int, b: int) -> int {
    clamp_s(a - b)
}

/// Clamped fixed-point multiplication: `a * b / SCALE`, truncated.
pub open spec fn mul_s(a: int, b: int) -> int {
    clamp_s(tdiv(a * b, SCALE as int))
}

/// Clamped fixed-point division: `a * SCALE / b`, truncated.
pub open spec fn div_s(a: int, b: int) -> int
    recommends
        b > 0,
{
    clamp_s(tdiv(a * SCALE, b))
}

pub fn clamp(x: i64) -> (r: i64)
    ensures
        r == clamp_s(x as int),
        in_range(r as int),
{
    if x > CMAX {
        CMAX
    } else if x < -CMAX {
        -CMAX
    } else {
        x
    }
}

/// Truncating division by a positive divisor.
pub fn div_trunc(a: i64, d: i64) -> (r: i64)
    requires
        d > 0,
        a > i64::MIN,
    ensures
        r == tdiv(a as int, d as int),
{
    if a >= 0 {
        a / d
    } else {
        -((-a) / d)
    }
}

/// Truncating remainder by a positive divisor.
pub fn rem_trunc(a: i64, d: i64) -> (r: i64)
    requires
        d > 0,
        a > i64::MIN,
    ensures
        r == tmod(a as int, d as int),
        -d < r < d,
{
    if a >= 0 {
        a % d
    } else {
        -((-a) % d)
    }
}

pub fn add(a: i64, b: i64) -> (r: i64)
    requires
        in_range(a as int),
        in_range(b as int),
    ensures
        r == add_s(a as int, b as int),
        in_range(r as int),
{
    clamp(a + b)
}

pub fn sub(a: i64, b: i64) -> (r: i64)
    requires
        in_range(a as int),
        in_range(b as int),
    ensures
        r == sub_s(a as int, b as int),
        in_range(r as int),
{
    clamp(a - b)
}

pub fn mul(a: i64, b: i64) -> (r: i64)
    requires
        in_range(a as int),
        in_range(b as int),
    ensures
        r == mul_s(a as int, b as int),
        in_range(r as int),
{
    proof {
        lemma_mul_bound(a as int, b as int, CMAX as int);
    }
    let p: i64 = a * b;
    clamp(div_trunc(p, SCALE))
}

pub fn div(a: i64, b: i64) -> (r: i64)
    requires
        in_range(a as int),
        1 <= b <= CMAX,
    ensures
        r == div_s(a as int, b as int),
        in_range(r as int),
{
    let p: i64 = a * SCALE;
    clamp(div_trunc(p, b))
}

/// `|a| <= m` and `|b| <= m` bound the product by `m * m`.
proof fn lemma_mul_bound(a: int, b: int, m: int)
    requires
        -m <= a <= m,
        -m <= b <= m,
        0 <= m,
    ensures
        -m * m <= a * b <= m * m,
{
    assert(-m * m <= a * b <= m * m) by (nonlinear_arith)
        requires
            -m <= a <= m,
            -m <= b <= m,
            0 <= m;
}

/// `|a| <= m` bounds the square by `m * m`, and squares are nonnegative.
pub proof fn lemma_sq_bound(a: int, m: int)
    requires
        -m <= a <= m,
        0 <= m,
    ensures
        0 <= a * a <= m * m,
{
    assert(0 <= a * a <= m * m) by (nonlinear_arith)
        requires
            -m <= a <= m,
            0 <= m;
}

/// Multiplying by `SCALE` and scaling back down returns the argument.
pub proof fn lemma_mul_one(a: int)
    requires
        in_range(a),
    ensures
        mul_s(a, SCALE as int) == a,
{
    assert(a * SCALE == a * 65536) by (nonlinear_arith);
    if a >= 0 {
        assert((a * 65536) / 65536 == a) by (nonlinear_arith);
    } else {
        assert(-(a * 65536) == (-a) * 65536) by (nonlinear_arith);
        assert(((-a) * 65536) / 65536 == -a) by (nonlinear_arith);
    }
}

/// Multiplying by zero gives zero.
pub proof fn lemma_mul_zero(a: int)
    ensures
        mul_s(a, 0) == 0,
        mul_s(0, a) == 0,
{
    assert(a * 0 == 0) by (nonlinear_arith);
    assert(0 * a == 0) by (nonlinear_arith);
}

/// Integer square root of a 64-bit value.
pub fn isqrt(n: u64) -> (r: u64)
    ensures
        r * r <= n,
        n < (r + 1) * (r + 1),
        r < 0x1_0000_0000u64,
{
    let mut lo: u64 = 0;
    let mut hi: u64 = 0x1_0000_0000;
    proof {
        assert((0x1_0000_0000 as int) * (0x1_0000_0000 as int) > u64::MAX as int)
            by (nonlinear_arith);
    }
    while lo + 1 < hi
        invariant
            lo < hi <= 0x1_0000_0000,
            (lo as int) * (lo as int) <= n as int,
            (hi as int) * (hi as int) > n as int,
        decreases hi - lo,
    {
        let mid: u64 = lo + (hi - lo) / 2;
        proof {
            assert((mid as int) * (mid as int) < (0x1_0000_0000 as int) * (0x1_0000_0000 as int))
                by (nonlinear_arith)
                requires
                    0 <= (mid as int) && (mid as int) < 0x1_0000_0000;
        }
        if mid * mid <= n {
            lo = mid;
        } else {
            hi = mid;
        }
    }
    lo
}

} // verus!
