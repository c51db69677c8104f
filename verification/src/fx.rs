//! Signed fixed-point scalars.
//!
//! A scalar stores its value times [`SCALE`] in an `i64`.  All arithmetic
//! saturates at magnitude [`FX_MAX`], so every operation is total: per the
//! error-handling design, nothing inside per-pixel evaluation may panic.

use vstd::prelude::*;
use vstd::arithmetic::div_mod::{
    lemma_div_nonincreasing, lemma_div_pos_is_pos, lemma_div_is_ordered, lemma_div_of0,
};

verus! {

/// Number of fixed-point units in one whole unit.
pub const SCALE: i64 = 1_000_000;

/// Largest magnitude a well-formed scalar may take; arithmetic saturates here.
pub const FX_MAX: i64 = 1_000_000_000_000_000;

/// A scalar is well formed when its magnitude is at most `FX_MAX`.
pub open spec fn fx_wf(a: i64) -> bool {
    -FX_MAX <= a && a <= FX_MAX
}

/// Clamp a mathematical integer into the well-formed scalar range.
pub open spec fn sat(x: int) -> int {
    if x > FX_MAX as int {
        FX_MAX as int
    } else if x < -(FX_MAX as int) {
        -(FX_MAX as int)
    } else {
        x
    }
}

/// Division truncating toward zero, defined for positive divisors.
pub open spec fn tdiv(a: int, b: int) -> int {
    if a >= 0 {
        a / b
    } else {
        -((-a) / b)
    }
}

/// The exact value scalar multiplication computes.
pub open spec fn fmul(a: int, b: int) -> int {
    sat(tdiv(a * b, SCALE as int))
}

/// The exact value scalar division computes; division by zero yields zero.
pub open spec fn fdiv(a: int, b: int) -> int {
    if b == 0 {
        0
    } else if b > 0 {
        sat(tdiv(a * SCALE, b))
    } else {
        sat(-tdiv(a * SCALE, -b))
    }
}

/// `r` is the integer square root of `x`.
pub open spec fn is_isqrt(x: int, r: int) -> bool {
    0 <= r && r * r <= x && x < (r + 1) * (r + 1)
}

/// The integer square root, as a value (unique for `x >= 0`).
pub open spec fn isqrt(x: int) -> int {
    choose|r: int| is_isqrt(x, r)
}

/// The exact value the scalar square root computes: zero on non-positive
/// input, else the square root in fixed-point units.
pub open spec fn fsqrt(a: int) -> int {
    if a <= 0 {
        0
    } else {
        sat(isqrt(a * SCALE))
    }
}

/// The exact value integer-exponent powers compute: repeated saturating
/// scalar multiplication, with the empty product equal to one whole unit.
pub open spec fn fpow(b: int, e: nat) -> int
    decreases e,
{
    if e == 0 {
        SCALE as int
    } else {
        fmul(b, fpow(b, (e - 1) as nat))
    }
}

/// The integer square root is unique.
pub proof fn lemma_isqrt_unique(x: int, r1: int, r2: int)
    requires
        is_isqrt(x, r1),
        is_isqrt(x, r2),
    ensures
        r1 == r2,
{
    if r1 < r2 {
        assert((r1 + 1) * (r1 + 1) <= r2 * r2) by (nonlinear_arith)
            requires 0 <= r1, 0 <= r2, r1 < r2;
    }
    if r2 < r1 {
        assert((r2 + 1) * (r2 + 1) <= r1 * r1) by (nonlinear_arith)
            requires 0 <= r1, 0 <= r2, r2 < r1;
    }
}

/// A product of values bounded by `m` is bounded by `m * m`.
pub proof fn lemma_product_bound(a: int, b: int, m: int)
    requires
        -m <= a <= m,
        -m <= b <= m,
        0 <= m,
    ensures
        -(m * m) <= a * b <= m * m,
{
    assert(-(m * m) <= a * b <= m * m) by (nonlinear_arith)
        requires -m <= a <= m, -m <= b <= m, 0 <= m;
}

/// Saturating addition.
pub fn fx_add(a: i64, b: i64) -> (r: i64)
    requires
        fx_wf(a),
        fx_wf(b),
    ensures
        r == sat(a + b),
        fx_wf(r),
{
    let s: i64 = a + b;
    if s > FX_MAX {
        FX_MAX
    } else if s < -FX_MAX {
        -FX_MAX
    } else {
        s
    }
}

/// Saturating subtraction.
pub fn fx_sub(a: i64, b: i64) -> (r: i64)
    requires
        fx_wf(a),
        fx_wf(b),
    ensures
        r == sat(a - b),
        fx_wf(r),
{
    let s: i64 = a - b;
    if s > FX_MAX {
        FX_MAX
    } else if s < -FX_MAX {
        -FX_MAX
    } else {
        s
    }
}

/// Truncating division of a wide intermediate by a positive divisor.
pub(crate) fn tdiv_i128(a: i128, b: i128) -> (r: i128)
    requires
        0 < b,
        -0x40000000000000000000000000000000 < a < 0x40000000000000000000000000000000,
    ensures
        r == tdiv(a as int, b as int),
        -a <= r <= a || a <= r <= -a,
{
    if a >= 0 {
        proof {
            lemma_div_nonincreasing(a as int, b as int);
            lemma_div_pos_is_pos(a as int, b as int);
        }
        a / b
    } else {
        let n: i128 = -a;
        proof {
            lemma_div_nonincreasing(n as int, b as int);
            lemma_div_pos_is_pos(n as int, b as int);
        }
        -(n / b)
    }
}

/// Clamp a wide intermediate into the well-formed range.
pub(crate) fn sat_i128(x: i128) -> (r: i64)
    ensures
        r == sat(x as int),
        fx_wf(r),
{
    if x > FX_MAX as i128 {
        FX_MAX
    } else if x < -(FX_MAX as i128) {
        -FX_MAX
    } else {
        x as i64
    }
}

/// Saturating fixed-point multiplication.
pub fn fx_mul(a: i64, b: i64) -> (r: i64)
    requires
        fx_wf(a),
        fx_wf(b),
    ensures
        r == fmul(a as int, b as int),
        fx_wf(r),
{
    proof {
        lemma_product_bound(a as int, b as int, FX_MAX as int);
    }
    let p: i128 = (a as i128) * (b as i128);
    let q: i128 = tdiv_i128(p, SCALE as i128);
    sat_i128(q)
}

/// Saturating fixed-point division; division by zero yields zero.
pub fn fx_div(a: i64, b: i64) -> (r: i64)
    requires
        fx_wf(a),
        fx_wf(b),
    ensures
        r == fdiv(a as int, b as int),
        fx_wf(r),
{
    if b == 0 {
        0
    } else if b > 0 {
        let p: i128 = (a as i128) * (SCALE as i128);
        let q: i128 = tdiv_i128(p, b as i128);
        sat_i128(q)
    } else {
        let p: i128 = (a as i128) * (SCALE as i128);
        let q: i128 = tdiv_i128(p, -(b as i128));
        sat_i128(-q)
    }
}

/// Integer square root of a wide non-negative intermediate, by bisection.
pub fn isqrt_u128(x: u128) -> (r: u128)
    requires
        x < 0x40000000000000000000000000,
    ensures
        is_isqrt(x as int, r as int),
        r == isqrt(x as int),
{
    let mut lo: u128 = 0;
    let mut hi: u128 = 0x8000000000000;
    assert(hi * hi == 0x40000000000000000000000000) by (nonlinear_arith)
        requires hi == 0x8000000000000u128;
    while lo + 1 < hi
        invariant
            lo < hi,
            hi <= 0x8000000000000,
            lo * lo <= x,
            x < hi * hi,
        decreases hi - lo,
    {
        let mid: u128 = lo + (hi - lo) / 2;
        assert(mid * mid < 0x100000000000000000000000000) by (nonlinear_arith)
            requires mid < 0x10000000000000;
        if mid * mid <= x {
            lo = mid;
        } else {
            hi = mid;
        }
    }
    proof {
        lemma_isqrt_unique(x as int, lo as int, isqrt(x as int));
    }
    lo
}

/// The scalar square root: zero on non-positive input.
pub fn fx_sqrt(a: i64) -> (r: i64)
    requires
        fx_wf(a),
    ensures
        r == fsqrt(a as int),
        0 <= r,
        fx_wf(r),
{
    if a <= 0 {
        0
    } else {
        let w: u128 = (a as u128) * (SCALE as u128);
        let r: u128 = isqrt_u128(w);
        if r > FX_MAX as u128 {
            FX_MAX
        } else {
            r as i64
        }
    }
}

/// A product of scalars in `[0, SCALE]` stays in `[0, SCALE]`.
pub proof fn lemma_fmul_unit_range(a: int, b: int)
    requires
        0 <= a <= SCALE,
        0 <= b <= SCALE,
    ensures
        0 <= fmul(a, b) <= SCALE,
{
    assert(0 <= a * b <= SCALE * SCALE) by (nonlinear_arith)
        requires 0 <= a <= SCALE, 0 <= b <= SCALE;
    if a * b == 0 {
        lemma_div_of0(SCALE as int);
    } else {
        lemma_div_pos_is_pos(a * b, SCALE as int);
        lemma_div_is_ordered(a * b, SCALE * SCALE, SCALE as int);
        assert(SCALE * SCALE / (SCALE as int) == SCALE);
    }
}

/// A power of a scalar in `[0, SCALE]` stays in `[0, SCALE]`.
pub proof fn lemma_fpow_unit_range(b: int, e: nat)
    requires
        0 <= b <= SCALE,
    ensures
        0 <= fpow(b, e) <= SCALE,
    decreases e,
{
    if e > 0 {
        lemma_fpow_unit_range(b, (e - 1) as nat);
        lemma_fmul_unit_range(b, fpow(b, (e - 1) as nat));
    }
}

/// Fixed-point power with a non-negative integer exponent, for cosines and
/// other bases in `[0, 1]`.
pub fn fx_pow(b: i64, e: u32) -> (r: i64)
    requires
        0 <= b <= SCALE,
    ensures
        r == fpow(b as int, e as nat),
        0 <= r <= SCALE,
{
    let mut acc: i64 = SCALE;
    let mut i: u32 = 0;
    while i < e
        invariant
            0 <= b <= SCALE,
            i <= e,
            acc == fpow(b as int, i as nat),
            0 <= acc <= SCALE,
        decreases e - i,
    {
        proof {
            lemma_fmul_unit_range(b as int, fpow(b as int, i as nat));
            assert(fpow(b as int, (i + 1) as nat) == fmul(b as int, fpow(b as int, i as nat)));
        }
        acc = fx_mul(b, acc);
        i = i + 1;
    }
    acc
}

} // verus!
