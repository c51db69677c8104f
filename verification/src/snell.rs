//! Reflection and refraction directions.

use vstd::prelude::*;
use crate::fx::{SCALE, FX_MAX, fx_wf, sat, fmul, fdiv, fsqrt, fx_add, fx_sub, fx_mul, fx_div, fx_sqrt};
use crate::vec3::{Vec3, v3_wf, vadd, vsub, vscale, vdot};

verus! {

/// Clamp a scalar into one whole unit either way.
pub open spec fn clamp_pm1(x: int) -> int {
    if x < -SCALE {
        -SCALE as int
    } else if x > SCALE {
        SCALE as int
    } else {
        x
    }
}

/// The exact reflected direction: `i - n * (2 * (i . n))`.
pub open spec fn reflect_spec(i: Vec3, n: Vec3) -> Vec3 {
    vsub(i, vscale(n, sat(vdot(i, n) + vdot(i, n))))
}

/// Reflect an incident direction about a surface normal.
pub fn reflect(incident: &Vec3, normal: &Vec3) -> (r: Vec3)
    requires
        v3_wf(*incident),
        v3_wf(*normal),
    ensures
        r == reflect_spec(*incident, *normal),
        v3_wf(r),
{
    let d: i64 = incident.dot(normal);
    incident.minus(&normal.scaled(fx_add(d, d)))
}

/// The cosine the refraction uses: the incident/normal dot product clamped
/// into one unit.
pub open spec fn refract_cos(i: Vec3, n: Vec3) -> int {
    clamp_pm1(vdot(i, n))
}

/// The relative index of refraction: entering the medium divides by the
/// material index, leaving multiplies by it.
pub open spec fn refract_eta(i: Vec3, n: Vec3, index: int) -> int {
    if refract_cos(i, n) <= 0 {
        fdiv(SCALE as int, index)
    } else {
        index
    }
}

/// The discriminant of Snell's law; negative means total internal
/// reflection.
pub open spec fn refract_k(i: Vec3, n: Vec3, index: int) -> int {
    let cosi = if refract_cos(i, n) <= 0 { -refract_cos(i, n) } else { refract_cos(i, n) };
    let eta = refract_eta(i, n, index);
    sat((SCALE as int) - fmul(fmul(eta, eta), sat((SCALE as int) - fmul(cosi, cosi))))
}

/// The exact refracted direction; the zero vector stands for the
/// degenerate case of total internal reflection.
pub open spec fn refract_spec(i: Vec3, n: Vec3, index: int) -> Vec3 {
    let cos_raw = refract_cos(i, n);
    let cosi = if cos_raw <= 0 { -cos_raw } else { cos_raw };
    let facing = if cos_raw <= 0 { n } else { vsub(Vec3 { x: 0, y: 0, z: 0 }, n) };
    let eta = refract_eta(i, n, index);
    let k = refract_k(i, n, index);
    if k < 0 {
        Vec3 { x: 0, y: 0, z: 0 }
    } else {
        vadd(vscale(i, eta), vscale(facing, sat(fmul(eta, cosi) - fsqrt(k))))
    }
}

/// Refract an incident direction through a surface of the given material
/// index; total internal reflection degenerates to the zero vector.
pub fn refract(incident: &Vec3, normal: &Vec3, refractive_index: i64) -> (r: Vec3)
    requires
        v3_wf(*incident),
        v3_wf(*normal),
        0 < refractive_index <= FX_MAX,
    ensures
        r == refract_spec(*incident, *normal, refractive_index as int),
        v3_wf(r),
{
    let d: i64 = incident.dot(normal);
    let cos_raw: i64 = if d < -SCALE {
        -SCALE
    } else if d > SCALE {
        SCALE
    } else {
        d
    };
    let cosi: i64 = if cos_raw <= 0 { -cos_raw } else { cos_raw };
    let facing: Vec3 = if cos_raw <= 0 { *normal } else { normal.negated() };
    let eta: i64 = if cos_raw <= 0 { fx_div(SCALE, refractive_index) } else { refractive_index };
    let k: i64 = fx_sub(SCALE, fx_mul(fx_mul(eta, eta), fx_sub(SCALE, fx_mul(cosi, cosi))));
    if k < 0 {
        Vec3 { x: 0, y: 0, z: 0 }
    } else {
        incident.scaled(eta).plus(&facing.scaled(fx_sub(fx_mul(eta, cosi), fx_sqrt(k))))
    }
}

} // verus!
