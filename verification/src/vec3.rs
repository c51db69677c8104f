//! Three-component fixed-point vectors, used for points, directions and
//! linear RGB colors alike.

use vstd::prelude::*;
use crate::fx::{
    SCALE, FX_MAX, fx_wf, sat, tdiv, fmul, fx_add, fx_sub, fx_mul, isqrt, is_isqrt, isqrt_u128,
    lemma_isqrt_unique, lemma_product_bound,
};
use vstd::arithmetic::div_mod::{
    lemma_div_nonincreasing, lemma_div_pos_is_pos, lemma_div_is_ordered,
    lemma_div_multiples_vanish,
};

verus! {

/// A vector of three well-formed fixed-point scalars.
#[derive(Clone, Copy, Debug, PartialEq, Eq, Structural)]
pub struct Vec3 {
    pub x: i64,
    pub y: i64,
    pub z: i64,
}

/// All three components are well formed.
pub open spec fn v3_wf(v: Vec3) -> bool {
    fx_wf(v.x) && fx_wf(v.y) && fx_wf(v.z)
}

/// The exact value of componentwise saturating addition.
pub open spec fn vadd(a: Vec3, b: Vec3) -> Vec3 {
    Vec3 { x: sat(a.x + b.x) as i64, y: sat(a.y + b.y) as i64, z: sat(a.z + b.z) as i64 }
}

/// The exact value of componentwise saturating subtraction.
pub open spec fn vsub(a: Vec3, b: Vec3) -> Vec3 {
    Vec3 { x: sat(a.x - b.x) as i64, y: sat(a.y - b.y) as i64, z: sat(a.z - b.z) as i64 }
}

/// The exact value of scaling by a scalar.
pub open spec fn vscale(v: Vec3, s: int) -> Vec3 {
    Vec3 { x: fmul(v.x as int, s) as i64, y: fmul(v.y as int, s) as i64, z: fmul(v.z as int, s) as i64 }
}

/// The exact value of the saturating dot product.
pub open spec fn vdot(a: Vec3, b: Vec3) -> int {
    sat(sat(fmul(a.x as int, b.x as int) + fmul(a.y as int, b.y as int))
        + fmul(a.z as int, b.z as int))
}

/// The sum of the squares of the components, without rounding.
pub open spec fn norm2(v: Vec3) -> int {
    v.x * v.x + v.y * v.y + v.z * v.z
}

/// The exact value of the saturating fixed-point length.
pub open spec fn vlen(v: Vec3) -> int {
    sat(isqrt(norm2(v)))
}

/// The exact value of normalization: the zero vector keeps length zero,
/// anything else is divided by its length.
pub open spec fn vnormalize(v: Vec3) -> Vec3 {
    if vlen(v) == 0 {
        Vec3 { x: 0, y: 0, z: 0 }
    } else {
        Vec3 {
            x: tdiv(v.x * SCALE, vlen(v)) as i64,
            y: tdiv(v.y * SCALE, vlen(v)) as i64,
            z: tdiv(v.z * SCALE, vlen(v)) as i64,
        }
    }
}

impl Vec3 {
    /// Build a vector from raw fixed-point components.
    pub fn new(x: i64, y: i64, z: i64) -> (r: Vec3)
        requires
            fx_wf(x),
            fx_wf(y),
            fx_wf(z),
        ensures
            r == (Vec3 { x, y, z }),
            v3_wf(r),
    {
        Vec3 { x, y, z }
    }

    /// The zero vector.
    pub fn zero() -> (r: Vec3)
        ensures
            r == (Vec3 { x: 0i64, y: 0i64, z: 0i64 }),
            v3_wf(r),
    {
        Vec3 { x: 0, y: 0, z: 0 }
    }

    /// The all-ones vector (one whole unit in each component).
    pub fn one() -> (r: Vec3)
        ensures
            r == (Vec3 { x: SCALE, y: SCALE, z: SCALE }),
            v3_wf(r),
    {
        Vec3 { x: SCALE, y: SCALE, z: SCALE }
    }

    /// Componentwise saturating addition.
    pub fn plus(&self, o: &Vec3) -> (r: Vec3)
        requires
            v3_wf(*self),
            v3_wf(*o),
        ensures
            r == vadd(*self, *o),
            v3_wf(r),
    {
        Vec3 { x: fx_add(self.x, o.x), y: fx_add(self.y, o.y), z: fx_add(self.z, o.z) }
    }

    /// Componentwise saturating subtraction.
    pub fn minus(&self, o: &Vec3) -> (r: Vec3)
        requires
            v3_wf(*self),
            v3_wf(*o),
        ensures
            r == vsub(*self, *o),
            v3_wf(r),
    {
        Vec3 { x: fx_sub(self.x, o.x), y: fx_sub(self.y, o.y), z: fx_sub(self.z, o.z) }
    }

    /// The negated vector.
    pub fn negated(&self) -> (r: Vec3)
        requires
            v3_wf(*self),
        ensures
            r == vsub(Vec3 { x: 0i64, y: 0i64, z: 0i64 }, *self),
            v3_wf(r),
    {
        Vec3 { x: -self.x, y: -self.y, z: -self.z }
    }

    /// Scaling by a scalar.
    pub fn scaled(&self, s: i64) -> (r: Vec3)
        requires
            v3_wf(*self),
            fx_wf(s),
        ensures
            r == vscale(*self, s as int),
            v3_wf(r),
    {
        Vec3 { x: fx_mul(self.x, s), y: fx_mul(self.y, s), z: fx_mul(self.z, s) }
    }

    /// Saturating dot product.
    pub fn dot(&self, o: &Vec3) -> (r: i64)
        requires
            v3_wf(*self),
            v3_wf(*o),
        ensures
            r == vdot(*self, *o),
            fx_wf(r),
    {
        fx_add(fx_add(fx_mul(self.x, o.x), fx_mul(self.y, o.y)), fx_mul(self.z, o.z))
    }

    /// Saturating fixed-point length.
    pub fn length(&self) -> (r: i64)
        requires
            v3_wf(*self),
        ensures
            r == vlen(*self),
            0 <= r,
            fx_wf(r),
            is_isqrt(norm2(*self), isqrt(norm2(*self))),
    {
        proof {
            lemma_product_bound(self.x as int, self.x as int, FX_MAX as int);
            lemma_product_bound(self.y as int, self.y as int, FX_MAX as int);
            lemma_product_bound(self.z as int, self.z as int, FX_MAX as int);
            assert(self.x * self.x >= 0 && self.y * self.y >= 0 && self.z * self.z >= 0)
                by (nonlinear_arith);
        }
        let sx: i128 = (self.x as i128) * (self.x as i128);
        let sy: i128 = (self.y as i128) * (self.y as i128);
        let sz: i128 = (self.z as i128) * (self.z as i128);
        let sum: u128 = (sx + sy + sz) as u128;
        let r: u128 = isqrt_u128(sum);
        if r > FX_MAX as u128 {
            FX_MAX
        } else {
            r as i64
        }
    }

    /// Normalization; the zero vector stays zero rather than dividing by zero.
    pub fn normalized(&self) -> (r: Vec3)
        requires
            v3_wf(*self),
        ensures
            r == vnormalize(*self),
            v3_wf(r),
            -SCALE <= r.x <= SCALE,
            -SCALE <= r.y <= SCALE,
            -SCALE <= r.z <= SCALE,
    {
        let len: i64 = self.length();
        if len == 0 {
            Vec3 { x: 0, y: 0, z: 0 }
        } else {
            proof {
                assert(self.x * self.x >= 0 && self.y * self.y >= 0 && self.z * self.z >= 0)
                    by (nonlinear_arith);
            }
            Vec3 {
                x: div_component(self.x, len, Ghost(norm2(*self))),
                y: div_component(self.y, len, Ghost(norm2(*self))),
                z: div_component(self.z, len, Ghost(norm2(*self))),
            }
        }
    }

    /// Cross product.
    pub fn cross(&self, o: &Vec3) -> (r: Vec3)
        requires
            v3_wf(*self),
            v3_wf(*o),
        ensures
            r == vcross(*self, *o),
            v3_wf(r),
    {
        Vec3 {
            x: fx_sub(fx_mul(self.y, o.z), fx_mul(self.z, o.y)),
            y: fx_sub(fx_mul(self.z, o.x), fx_mul(self.x, o.z)),
            z: fx_sub(fx_mul(self.x, o.y), fx_mul(self.y, o.x)),
        }
    }
}

/// The exact value of the cross product.
pub open spec fn vcross(a: Vec3, b: Vec3) -> Vec3 {
    Vec3 {
        x: sat(fmul(a.y as int, b.z as int) - fmul(a.z as int, b.y as int)) as i64,
        y: sat(fmul(a.z as int, b.x as int) - fmul(a.x as int, b.z as int)) as i64,
        z: sat(fmul(a.x as int, b.y as int) - fmul(a.y as int, b.x as int)) as i64,
    }
}

/// A well-formed component is bounded in magnitude by the vector's length.
proof fn lemma_component_le_len(c: int, n2: int, len: int)
    requires
        c * c <= n2,
        -FX_MAX <= c <= FX_MAX,
        len == sat(isqrt(n2)),
        is_isqrt(n2, isqrt(n2)),
    ensures
        -len <= c <= len,
{
    let r = isqrt(n2);
    if r <= FX_MAX as int {
        if c > r || c < -r {
            assert((r + 1) * (r + 1) <= c * c) by (nonlinear_arith)
                requires 0 <= r, (c > r || c < -r);
        }
    }
}

/// One component of a normalization: `c * SCALE / len`, which stays within
/// one whole unit because `|c| <= len`.
fn div_component(c: i64, len: i64, n2: Ghost<int>) -> (r: i64)
    requires
        fx_wf(c),
        0 < len,
        fx_wf(len),
        c * c <= n2@,
        len == sat(isqrt(n2@)),
        is_isqrt(n2@, isqrt(n2@)),
    ensures
        r == tdiv(c * SCALE, len as int),
        -SCALE <= r <= SCALE,
{
    proof {
        lemma_component_le_len(c as int, n2@, len as int);
        lemma_div_bound(c as int, len as int);
    }
    let p: i128 = (c as i128) * (SCALE as i128);
    let q: i128 = if p >= 0 { p / (len as i128) } else { -((-p) / (len as i128)) };
    q as i64
}

/// `|c| <= len` gives `|c * SCALE / len| <= SCALE`.
pub(crate) proof fn lemma_div_bound(c: int, len: int)
    requires
        0 < len,
        -len <= c <= len,
    ensures
        -SCALE <= tdiv(c * SCALE, len) <= SCALE,
{
    if c >= 0 {
        assert(c * SCALE <= len * SCALE) by (nonlinear_arith)
            requires c <= len, 0 < SCALE;
        lemma_div_pos_is_pos(c * SCALE, len);
        lemma_div_is_ordered(c * SCALE, len * SCALE, len);
        lemma_div_multiples_vanish(SCALE as int, len);
    } else {
        assert((-c) * SCALE <= len * SCALE) by (nonlinear_arith)
            requires -c <= len, 0 < SCALE;
        assert(-(c * SCALE) == (-c) * SCALE) by (nonlinear_arith);
        lemma_div_pos_is_pos((-c) * SCALE, len);
        lemma_div_is_ordered((-c) * SCALE, len * SCALE, len);
        lemma_div_multiples_vanish(SCALE as int, len);
    }
}

} // verus!
