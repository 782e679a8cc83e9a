//! Three-component vectors over the fixed-point scalars of `fx`.

use vstd::prelude::*;
use crate::fx;
use crate::fx::{SCALE, CMAX, in_range, clamp_s, tdiv, add_s, sub_s, mul_s};

verus! {

#[derive(Clone, Copy, Debug, PartialEq, Eq, Structural)]
pub struct Vec3Fixed {
    pub x: i64,
    pub y: i64,
    pub z: i64,
}

/// Every component within the clamping range.
pub open spec fn bounded(v: Vec3Fixed) -> bool {
    in_range(v.x as int) && in_range(v.y as int) && in_range(v.z as int)
}

/// Build a vector from spec-level components (each must fit in `i64`).
pub open spec fn fx3(x: int, y: int, z: int) -> Vec3Fixed {
    Vec3Fixed { x: x as i64, y: y as i64, z: z as i64 }
}

pub open spec fn add3_s(a: Vec3Fixed, b: Vec3Fixed) -> Vec3Fixed {
    fx3(
        add_s(a.x as int, b.x as int),
        add_s(a.y as int, b.y as int),
        add_s(a.z as int, b.z as int),
    )
}

pub open spec fn sub3_s(a: Vec3Fixed, b: Vec3Fixed) -> Vec3Fixed {
    fx3(
        sub_s(a.x as int, b.x as int),
        sub_s(a.y as int, b.y as int),
        sub_s(a.z as int, b.z as int),
    )
}

pub open spec fn scale3_s(v: Vec3Fixed, s: int) -> Vec3Fixed {
    fx3(mul_s(v.x as int, s), mul_s(v.y as int, s), mul_s(v.z as int, s))
}

pub open spec fn dot3_s(a: Vec3Fixed, b: Vec3Fixed) -> int {
    add_s(
        add_s(mul_s(a.x as int, b.x as int), mul_s(a.y as int, b.y as int)),
        mul_s(a.z as int, b.z as int),
    )
}

pub open spec fn cross3_s(a: Vec3Fixed, b: Vec3Fixed) -> Vec3Fixed {
    fx3(
        sub_s(mul_s(a.y as int, b.z as int), mul_s(a.z as int, b.y as int)),
        sub_s(mul_s(a.z as int, b.x as int), mul_s(a.x as int, b.z as int)),
        sub_s(mul_s(a.x as int, b.y as int), mul_s(a.y as int, b.x as int)),
    )
}

/// Squared Euclidean length, exact (no clamping).
pub open spec fn norm2_s(v: Vec3Fixed) -> int {
    (v.x as int) * (v.x as int) + (v.y as int) * (v.y as int) + (v.z as int) * (v.z as int)
}

/// Integer square root: the largest `r` with `r * r <= n`.
pub open spec fn sqrt_s(n: int) -> int
    decreases n,
{
    if n <= 0 {
        0
    } else {
        let s = sqrt_s(n - 1);
        if (s + 1) * (s + 1) <= n {
            s + 1
        } else {
            s
        }
    }
}

/// Unit-length vector toward `v` (components scaled by `SCALE`); the zero
/// vector stays zero.
pub open spec fn normalize3_s(v: Vec3Fixed) -> Vec3Fixed {
    let n2 = norm2_s(v);
    if n2 == 0 {
        fx3(0, 0, 0)
    } else {
        let d = sqrt_s(n2);
        fx3(
            clamp_s(tdiv((v.x as int) * SCALE, d)),
            clamp_s(tdiv((v.y as int) * SCALE, d)),
            clamp_s(tdiv((v.z as int) * SCALE, d)),
        )
    }
}

pub proof fn lemma_sqrt_s_bracket(n: int)
    requires
        n >= 0,
    ensures
        sqrt_s(n) >= 0,
        sqrt_s(n) * sqrt_s(n) <= n,
        n < (sqrt_s(n) + 1) * (sqrt_s(n) + 1),
    decreases n,
{
    if n == 0 {
    } else {
        lemma_sqrt_s_bracket(n - 1);
        let s = sqrt_s(n - 1);
        if (s + 1) * (s + 1) <= n {
            assert(n - 1 < (s + 1) * (s + 1));
            assert(n < (s + 2) * (s + 2)) by (nonlinear_arith)
                requires
                    s >= 0,
                    n <= (s + 1) * (s + 1);
        } else {
        }
    }
}

/// The integer square root is pinned down by its bracketing property.
pub proof fn lemma_sqrt_unique(n: int, r: int)
    requires
        n >= 0,
        r >= 0,
        r * r <= n,
        n < (r + 1) * (r + 1),
    ensures
        r == sqrt_s(n),
{
    lemma_sqrt_s_bracket(n);
    let s = sqrt_s(n);
    assert(r == s) by (nonlinear_arith)
        requires
            r >= 0,
            s >= 0,
            r * r <= n,
            n < (r + 1) * (r + 1),
            s * s <= n,
            n < (s + 1) * (s + 1);
}

/// The clamped vector operations always land in range, whatever their
/// arguments were.
pub proof fn lemma_ops_bounded(a: Vec3Fixed, b: Vec3Fixed, s: int)
    ensures
        bounded(add3_s(a, b)),
        bounded(sub3_s(a, b)),
        bounded(scale3_s(a, s)),
        bounded(cross3_s(a, b)),
        bounded(normalize3_s(a)),
        in_range(dot3_s(a, b)),
{
}

impl Vec3Fixed {
    pub fn new(x: i64, y: i64, z: i64) -> (r: Vec3Fixed)
        ensures
            r == (Vec3Fixed { x, y, z }),
    {
        Vec3Fixed { x, y, z }
    }
}

pub fn add3(a: &Vec3Fixed, b: &Vec3Fixed) -> (r: Vec3Fixed)
    requires
        bounded(*a),
        bounded(*b),
    ensures
        r == add3_s(*a, *b),
        bounded(r),
{
    Vec3Fixed { x: fx::add(a.x, b.x), y: fx::add(a.y, b.y), z: fx::add(a.z, b.z) }
}

pub fn sub3(a: &Vec3Fixed, b: &Vec3Fixed) -> (r: Vec3Fixed)
    requires
        bounded(*a),
        bounded(*b),
    ensures
        r == sub3_s(*a, *b),
        bounded(r),
{
    Vec3Fixed { x: fx::sub(a.x, b.x), y: fx::sub(a.y, b.y), z: fx::sub(a.z, b.z) }
}

pub fn scale3(v: &Vec3Fixed, s: i64) -> (r: Vec3Fixed)
    requires
        bounded(*v),
        in_range(s as int),
    ensures
        r == scale3_s(*v, s as int),
        bounded(r),
{
    Vec3Fixed { x: fx::mul(v.x, s), y: fx::mul(v.y, s), z: fx::mul(v.z, s) }
}

pub fn dot3(a: &Vec3Fixed, b: &Vec3Fixed) -> (r: i64)
    requires
        bounded(*a),
        bounded(*b),
    ensures
        r == dot3_s(*a, *b),
        in_range(r as int),
{
    fx::add(fx::add(fx::mul(a.x, b.x), fx::mul(a.y, b.y)), fx::mul(a.z, b.z))
}

pub fn cross3(a: &Vec3Fixed, b: &Vec3Fixed) -> (r: Vec3Fixed)
    requires
        bounded(*a),
        bounded(*b),
    ensures
        r == cross3_s(*a, *b),
        bounded(r),
{
    Vec3Fixed {
        x: fx::sub(fx::mul(a.y, b.z), fx::mul(a.z, b.y)),
        y: fx::sub(fx::mul(a.z, b.x), fx::mul(a.x, b.z)),
        z: fx::sub(fx::mul(a.x, b.y), fx::mul(a.y, b.x)),
    }
}

pub fn norm2(v: &Vec3Fixed) -> (r: u64)
    requires
        bounded(*v),
    ensures
        r == norm2_s(*v),
{
    proof {
        fx::lemma_sq_bound(v.x as int, CMAX as int);
        fx::lemma_sq_bound(v.y as int, CMAX as int);
        fx::lemma_sq_bound(v.z as int, CMAX as int);
    }
    let sx: u64 = (v.x * v.x) as u64;
    let sy: u64 = (v.y * v.y) as u64;
    let sz: u64 = (v.z * v.z) as u64;
    sx + sy + sz
}

pub fn normalize3(v: &Vec3Fixed) -> (r: Vec3Fixed)
    requires
        bounded(*v),
    ensures
        r == normalize3_s(*v),
        bounded(r),
{
    let n2 = norm2(v);
    if n2 == 0 {
        Vec3Fixed { x: 0, y: 0, z: 0 }
    } else {
        let d64 = fx::isqrt(n2);
        proof {
            lemma_sqrt_unique(n2 as int, d64 as int);
        }
        let d: i64 = d64 as i64;
        Vec3Fixed {
            x: fx::clamp(fx::div_trunc(v.x * SCALE, d)),
            y: fx::clamp(fx::div_trunc(v.y * SCALE, d)),
            z: fx::clamp(fx::div_trunc(v.z * SCALE, d)),
        }
    }
}

} // verus!
