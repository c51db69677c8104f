//! Axis-aligned box primitives and the slab-method ray intersection.
//!
//! The hit predicate is stated without division: per axis the entry and
//! exit parameters are kept as integer numerators over the positive
//! denominator `|d_k|`, and interval tests are cross-multiplied.  A zero
//! direction component constrains nothing; the origin must then lie inside
//! that axis' slab.

use vstd::prelude::*;
use crate::fx::{
    SCALE, FX_MAX, sat, tdiv, tdiv_i128, sat_i128, lemma_product_bound,
};
use crate::vec3::{Vec3, v3_wf, vadd, vscale};
use crate::material::{Material, material_wf};
use crate::ray_intersect::{Intersect, intersect_wf};
use vstd::arithmetic::div_mod::{
    lemma_div_pos_is_pos, lemma_div_is_ordered, lemma_div_multiples_vanish,
};

verus! {

/// Minimum near-edge ray parameter (fixed-point) for a hit; keeps a ray
/// from re-hitting the surface its origin sits on.
pub const T_EPS: i64 = 100;

/// The sole geometry type of the scene: an axis-aligned box with a material.
#[derive(Clone, Copy, Debug)]
pub struct Cube {
    pub min_bounds: Vec3,
    pub max_bounds: Vec3,
    pub material: Material,
}

/// Component `k` (0, 1 or 2) of a vector.
pub open spec fn axis(v: Vec3, k: int) -> int {
    if k == 0 {
        v.x as int
    } else if k == 1 {
        v.y as int
    } else {
        v.z as int
    }
}

/// Invariant of a box: well-formed corners and material, and a strictly
/// positive extent on every axis (zero-extent boxes are malformed).
pub open spec fn cube_wf(c: Cube) -> bool {
    &&& v3_wf(c.min_bounds)
    &&& v3_wf(c.max_bounds)
    &&& material_wf(c.material)
    &&& axis(c.min_bounds, 0) < axis(c.max_bounds, 0)
    &&& axis(c.min_bounds, 1) < axis(c.max_bounds, 1)
    &&& axis(c.min_bounds, 2) < axis(c.max_bounds, 2)
}

/// Whether the ray direction constrains the interval on axis `k`.
pub open spec fn constrained(d: Vec3, k: int) -> bool {
    axis(d, k) != 0
}

/// For an unconstrained axis the origin must lie inside the slab.
pub open spec fn slab_contains(c: Cube, o: Vec3, k: int) -> bool {
    axis(c.min_bounds, k) <= axis(o, k) <= axis(c.max_bounds, k)
}

/// Numerator of the entry parameter on axis `k`, over denominator `den`.
pub open spec fn lo_num(c: Cube, o: Vec3, d: Vec3, k: int) -> int {
    if axis(d, k) > 0 {
        axis(c.min_bounds, k) - axis(o, k)
    } else {
        axis(o, k) - axis(c.max_bounds, k)
    }
}

/// Numerator of the exit parameter on axis `k`, over denominator `den`.
pub open spec fn hi_num(c: Cube, o: Vec3, d: Vec3, k: int) -> int {
    if axis(d, k) > 0 {
        axis(c.max_bounds, k) - axis(o, k)
    } else {
        axis(o, k) - axis(c.min_bounds, k)
    }
}

/// Positive denominator of the parameters on axis `k`.
pub open spec fn den(d: Vec3, k: int) -> int {
    if axis(d, k) >= 0 {
        axis(d, k)
    } else {
        -axis(d, k)
    }
}

/// Axis `k` does not rule the ray out on its own.
pub open spec fn axis_ok(c: Cube, o: Vec3, d: Vec3, k: int) -> bool {
    constrained(d, k) || slab_contains(c, o, k)
}

/// The entry edge of axis `i` does not pass the exit edge of axis `j`.
pub open spec fn pair_ok(c: Cube, o: Vec3, d: Vec3, i: int, j: int) -> bool {
    !constrained(d, i) || !constrained(d, j)
        || lo_num(c, o, d, i) * den(d, j) <= hi_num(c, o, d, j) * den(d, i)
}

/// All nine entry/exit pairs are consistent: the three intervals meet.
pub open spec fn pairs_ok(c: Cube, o: Vec3, d: Vec3) -> bool {
    &&& pair_ok(c, o, d, 0, 0)
    &&& pair_ok(c, o, d, 0, 1)
    &&& pair_ok(c, o, d, 0, 2)
    &&& pair_ok(c, o, d, 1, 0)
    &&& pair_ok(c, o, d, 1, 1)
    &&& pair_ok(c, o, d, 1, 2)
    &&& pair_ok(c, o, d, 2, 0)
    &&& pair_ok(c, o, d, 2, 1)
    &&& pair_ok(c, o, d, 2, 2)
}

/// Axis `k` is constrained and its entry parameter is at least `T_EPS`.
pub open spec fn near_ok(c: Cube, o: Vec3, d: Vec3, k: int) -> bool {
    constrained(d, k) && lo_num(c, o, d, k) * SCALE >= T_EPS * den(d, k)
}

/// The ray hits the box: every axis admits it, the intervals meet, and the
/// near edge of the meet is at least the minimum positive parameter.
pub open spec fn cube_hit(c: Cube, o: Vec3, d: Vec3) -> bool {
    &&& axis_ok(c, o, d, 0)
    &&& axis_ok(c, o, d, 1)
    &&& axis_ok(c, o, d, 2)
    &&& pairs_ok(c, o, d)
    &&& (near_ok(c, o, d, 0) || near_ok(c, o, d, 1) || near_ok(c, o, d, 2))
}

/// Among constrained axes, the entry edge of `i` is at least that of `j`.
pub open spec fn entry_ge(c: Cube, o: Vec3, d: Vec3, i: int, j: int) -> bool {
    !constrained(d, j) || lo_num(c, o, d, i) * den(d, j) >= lo_num(c, o, d, j) * den(d, i)
}

/// The axis whose entry edge is tightest (ties go to the lower axis); it
/// determines the hit face, so the normal and the distance.
pub open spec fn near_axis(c: Cube, o: Vec3, d: Vec3) -> int {
    if constrained(d, 0) && entry_ge(c, o, d, 0, 1) && entry_ge(c, o, d, 0, 2) {
        0
    } else if constrained(d, 1) && entry_ge(c, o, d, 1, 0) && entry_ge(c, o, d, 1, 2) {
        1
    } else {
        2
    }
}

/// The exact fixed-point ray parameter of the hit.
pub open spec fn dist_spec(c: Cube, o: Vec3, d: Vec3) -> int {
    let a = near_axis(c, o, d);
    sat(tdiv(lo_num(c, o, d, a) * SCALE, den(d, a)))
}

/// The exact hit point: the origin advanced by the hit parameter.
pub open spec fn point_spec(c: Cube, o: Vec3, d: Vec3) -> Vec3 {
    vadd(o, vscale(d, dist_spec(c, o, d)))
}

/// The outward axis-aligned unit normal of the hit face: along the near
/// axis, facing against the ray.
pub open spec fn normal_spec(c: Cube, o: Vec3, d: Vec3) -> Vec3 {
    let a = near_axis(c, o, d);
    let s: i64 = if axis(d, a) > 0 { (-SCALE) as i64 } else { SCALE };
    if a == 0 {
        Vec3 { x: s, y: 0, z: 0 }
    } else if a == 1 {
        Vec3 { x: 0, y: s, z: 0 }
    } else {
        Vec3 { x: 0, y: 0, z: s }
    }
}

/// Clamp into one whole unit.
pub open spec fn clamp_unit(x: int) -> int {
    if x < 0 {
        0
    } else if x > SCALE {
        SCALE as int
    } else {
        x
    }
}

/// A face coordinate: the hit point projected on axis `k`, normalized to
/// the box's span there and clamped into the unit interval.
pub open spec fn face_coord(c: Cube, o: Vec3, d: Vec3, k: int) -> int {
    clamp_unit(tdiv(
        (axis(point_spec(c, o, d), k) - axis(c.min_bounds, k)) * SCALE,
        axis(c.max_bounds, k) - axis(c.min_bounds, k),
    ))
}

/// The first non-normal axis of the hit face.
pub open spec fn u_axis(c: Cube, o: Vec3, d: Vec3) -> int {
    let a = near_axis(c, o, d);
    if a == 0 { 1 } else if a == 1 { 2 } else { 0 }
}

/// The second non-normal axis of the hit face.
pub open spec fn v_axis(c: Cube, o: Vec3, d: Vec3) -> int {
    let a = near_axis(c, o, d);
    if a == 0 { 2 } else if a == 1 { 0 } else { 1 }
}

/// Texture coordinate `u` of the hit.
pub open spec fn u_spec(c: Cube, o: Vec3, d: Vec3) -> int {
    face_coord(c, o, d, u_axis(c, o, d))
}

/// Texture coordinate `v` of the hit.
pub open spec fn v_spec(c: Cube, o: Vec3, d: Vec3) -> int {
    face_coord(c, o, d, v_axis(c, o, d))
}

/// Strict transitivity of the cross-multiplied rational order.
proof fn lemma_rat_lt_trans(a: int, b: int, c: int, d: int, e: int, f: int)
    requires
        0 < b,
        0 < d,
        0 < f,
        a * d < c * b,
        c * f < e * d,
    ensures
        a * f < e * b,
{
    assert(a * f < e * b) by (nonlinear_arith)
        requires 0 < b, 0 < d, 0 < f, a * d < c * b, c * f < e * d;
}

/// A hit admits the near axis: it is constrained and its entry edge is
/// the latest of all.
proof fn lemma_near_axis_sound(c: Cube, o: Vec3, d: Vec3)
    requires
        cube_hit(c, o, d),
    ensures
        constrained(d, near_axis(c, o, d)),
        entry_ge(c, o, d, near_axis(c, o, d), 0),
        entry_ge(c, o, d, near_axis(c, o, d), 1),
        entry_ge(c, o, d, near_axis(c, o, d), 2),
{
    let a = near_axis(c, o, d);
    if a == 0 || a == 1 {
        // the branch condition itself gives everything but reflexivity
        assert(entry_ge(c, o, d, a, a));
    } else {
        // neither axis 0 nor axis 1 won the chain
        if !constrained(d, 2) {
            // the only constrained axes are 0 and 1; one of them must win
            if constrained(d, 0) && constrained(d, 1) {
                assert(lo_num(c, o, d, 0) * den(d, 1) >= lo_num(c, o, d, 1) * den(d, 0)
                    || lo_num(c, o, d, 1) * den(d, 0) >= lo_num(c, o, d, 0) * den(d, 1));
                assert(false);
            } else if constrained(d, 0) {
                assert(false);
            } else if constrained(d, 1) {
                assert(false);
            } else {
                assert(!near_ok(c, o, d, 0) && !near_ok(c, o, d, 1) && !near_ok(c, o, d, 2));
                assert(false);
            }
        }
        if constrained(d, 0) && !entry_ge(c, o, d, 2, 0) {
            // entry 2 < entry 0; axis 0 lost, so entry 0 < entry 1, and
            // then axis 1 lost against 2, a contradiction by transitivity
            assert(lo_num(c, o, d, 2) * den(d, 0) < lo_num(c, o, d, 0) * den(d, 2));
            assert(constrained(d, 1) && lo_num(c, o, d, 0) * den(d, 1) < lo_num(c, o, d, 1) * den(d, 0));
            assert(lo_num(c, o, d, 1) * den(d, 2) < lo_num(c, o, d, 2) * den(d, 1));
            lemma_rat_lt_trans(
                lo_num(c, o, d, 0), den(d, 0),
                lo_num(c, o, d, 1), den(d, 1),
                lo_num(c, o, d, 2), den(d, 2),
            );
            assert(false);
        }
        if constrained(d, 1) && !entry_ge(c, o, d, 2, 1) {
            assert(lo_num(c, o, d, 2) * den(d, 1) < lo_num(c, o, d, 1) * den(d, 2));
            assert(constrained(d, 0) && lo_num(c, o, d, 1) * den(d, 0) < lo_num(c, o, d, 0) * den(d, 1)
                || lo_num(c, o, d, 1) * den(d, 2) < lo_num(c, o, d, 2) * den(d, 1));
            if lo_num(c, o, d, 1) * den(d, 2) < lo_num(c, o, d, 2) * den(d, 1) {
                assert(false);
            } else {
                // entry 1 < entry 0, and axis 0 lost somewhere
                assert(!entry_ge(c, o, d, 0, 1) || !entry_ge(c, o, d, 0, 2));
                if !entry_ge(c, o, d, 0, 1) {
                    assert(false);
                } else {
                    assert(lo_num(c, o, d, 0) * den(d, 2) < lo_num(c, o, d, 2) * den(d, 0));
                    lemma_rat_lt_trans(
                        lo_num(c, o, d, 1), den(d, 1),
                        lo_num(c, o, d, 0), den(d, 0),
                        lo_num(c, o, d, 2), den(d, 2),
                    );
                    assert(false);
                }
            }
        }
    }
}

/// The near axis inherits the minimum-parameter bound from whichever axis
/// witnessed it.
proof fn lemma_near_axis_t_min(c: Cube, o: Vec3, d: Vec3)
    requires
        cube_hit(c, o, d),
    ensures
        near_ok(c, o, d, near_axis(c, o, d)),
{
    lemma_near_axis_sound(c, o, d);
    let a = near_axis(c, o, d);
    let k: int = if near_ok(c, o, d, 0) { 0 } else if near_ok(c, o, d, 1) { 1 } else { 2 };
    assert(near_ok(c, o, d, k));
    assert(entry_ge(c, o, d, a, k));
    assert(lo_num(c, o, d, a) * SCALE >= T_EPS * den(d, a)) by (nonlinear_arith)
        requires
            lo_num(c, o, d, k) * SCALE >= T_EPS * den(d, k),
            lo_num(c, o, d, a) * den(d, k) >= lo_num(c, o, d, k) * den(d, a),
            den(d, k) > 0,
            den(d, a) > 0,
            SCALE > 0,
            T_EPS > 0;
}

/// A non-negative numerator at least `T_EPS` times the denominator divides
/// to at least `T_EPS`.
proof fn lemma_dist_at_least(num: int, dn: int)
    requires
        0 < dn,
        num * SCALE >= T_EPS * dn,
    ensures
        sat(tdiv(num * SCALE, dn)) >= T_EPS,
{
    assert(num * SCALE >= 0) by (nonlinear_arith)
        requires num * SCALE >= T_EPS * dn, dn > 0, T_EPS > 0;
    lemma_div_is_ordered(T_EPS * dn, num * SCALE, dn);
    lemma_div_multiples_vanish(T_EPS as int, dn);
    assert((T_EPS * dn) / dn == T_EPS);
}

/// A product of wide intermediates within `2^51` in magnitude.
pub(crate) fn prod128(a: i128, b: i128) -> (r: i128)
    requires
        -0x8000000000000 <= a <= 0x8000000000000,
        -0x8000000000000 <= b <= 0x8000000000000,
    ensures
        r == a * b,
{
    proof {
        lemma_product_bound(a as int, b as int, 0x8000000000000);
    }
    a * b
}

impl Cube {
    /// Build a box of the given edge length centred at a point.
    pub fn new(center: Vec3, size: i64, material: Material) -> (r: Cube)
        requires
            v3_wf(center),
            -FX_MAX / 2 <= center.x <= FX_MAX / 2,
            -FX_MAX / 2 <= center.y <= FX_MAX / 2,
            -FX_MAX / 2 <= center.z <= FX_MAX / 2,
            2 <= size <= FX_MAX / 2,
            material_wf(material),
        ensures
            r.material == material,
            r.min_bounds == (Vec3 {
                x: (center.x - size / 2) as i64,
                y: (center.y - size / 2) as i64,
                z: (center.z - size / 2) as i64,
            }),
            r.max_bounds == (Vec3 {
                x: (center.x - size / 2 + size) as i64,
                y: (center.y - size / 2 + size) as i64,
                z: (center.z - size / 2 + size) as i64,
            }),
            cube_wf(r),
    {
        let half: i64 = size / 2;
        let mn = Vec3 { x: center.x - half, y: center.y - half, z: center.z - half };
        let mx = Vec3 { x: mn.x + size, y: mn.y + size, z: mn.z + size };
        Cube { min_bounds: mn, max_bounds: mx, material }
    }

    /// Build a box directly from its corners.
    pub fn from_bounds(min_bounds: Vec3, max_bounds: Vec3, material: Material) -> (r: Cube)
        requires
            v3_wf(min_bounds),
            v3_wf(max_bounds),
            min_bounds.x < max_bounds.x,
            min_bounds.y < max_bounds.y,
            min_bounds.z < max_bounds.z,
            material_wf(material),
        ensures
            r == (Cube { min_bounds, max_bounds, material }),
            cube_wf(r),
    {
        Cube { min_bounds, max_bounds, material }
    }

    /// The centre of the box's extent.
    pub fn center(&self) -> (r: Vec3)
        requires
            cube_wf(*self),
        ensures
            r == cube_center(*self),
            v3_wf(r),
    {
        proof {
            lemma_div_pos_is_pos(self.max_bounds.x - self.min_bounds.x, 2);
            lemma_div_pos_is_pos(self.max_bounds.y - self.min_bounds.y, 2);
            lemma_div_pos_is_pos(self.max_bounds.z - self.min_bounds.z, 2);
            vstd::arithmetic::div_mod::lemma_div_nonincreasing(
                self.max_bounds.x - self.min_bounds.x, 2);
            vstd::arithmetic::div_mod::lemma_div_nonincreasing(
                self.max_bounds.y - self.min_bounds.y, 2);
            vstd::arithmetic::div_mod::lemma_div_nonincreasing(
                self.max_bounds.z - self.min_bounds.z, 2);
        }
        Vec3 {
            x: self.min_bounds.x + (self.max_bounds.x - self.min_bounds.x) / 2,
            y: self.min_bounds.y + (self.max_bounds.y - self.min_bounds.y) / 2,
            z: self.min_bounds.z + (self.max_bounds.z - self.min_bounds.z) / 2,
        }
    }

    /// Slab-method intersection of a ray with this box.
    ///
    /// The flag is exactly the hit predicate; on a hit every field of the
    /// record is pinned to its spec value, and the hit parameter is at
    /// least the minimum positive bound.
    pub fn ray_intersect(&self, ray_origin: &Vec3, ray_direction: &Vec3) -> (r: Intersect)
        requires
            cube_wf(*self),
            v3_wf(*ray_origin),
            v3_wf(*ray_direction),
        ensures
            r.is_intersecting == cube_hit(*self, *ray_origin, *ray_direction),
            intersect_wf(r),
            r.is_intersecting ==> {
                &&& r.material == self.material
                &&& r.distance == dist_spec(*self, *ray_origin, *ray_direction)
                &&& r.distance >= T_EPS
                &&& r.point == point_spec(*self, *ray_origin, *ray_direction)
                &&& r.normal == normal_spec(*self, *ray_origin, *ray_direction)
                &&& r.u == u_spec(*self, *ray_origin, *ray_direction)
                &&& r.v == v_spec(*self, *ray_origin, *ray_direction)
                &&& 0 <= r.u <= SCALE
                &&& 0 <= r.v <= SCALE
            },
    {
        let c = *self;
        let o = *ray_origin;
        let d = *ray_direction;
        let mn = c.min_bounds;
        let mx = c.max_bounds;

        let c0: bool = d.x != 0;
        let c1: bool = d.y != 0;
        let c2: bool = d.z != 0;

        if !c0 && !(mn.x <= o.x && o.x <= mx.x) {
            return Intersect::empty();
        }
        if !c1 && !(mn.y <= o.y && o.y <= mx.y) {
            return Intersect::empty();
        }
        if !c2 && !(mn.z <= o.z && o.z <= mx.z) {
            return Intersect::empty();
        }

        let lo0: i128 = if d.x > 0 { mn.x as i128 - o.x as i128 } else { o.x as i128 - mx.x as i128 };
        let hi0: i128 = if d.x > 0 { mx.x as i128 - o.x as i128 } else { o.x as i128 - mn.x as i128 };
        let dn0: i128 = if d.x >= 0 { d.x as i128 } else { -(d.x as i128) };
        let lo1: i128 = if d.y > 0 { mn.y as i128 - o.y as i128 } else { o.y as i128 - mx.y as i128 };
        let hi1: i128 = if d.y > 0 { mx.y as i128 - o.y as i128 } else { o.y as i128 - mn.y as i128 };
        let dn1: i128 = if d.y >= 0 { d.y as i128 } else { -(d.y as i128) };
        let lo2: i128 = if d.z > 0 { mn.z as i128 - o.z as i128 } else { o.z as i128 - mx.z as i128 };
        let hi2: i128 = if d.z > 0 { mx.z as i128 - o.z as i128 } else { o.z as i128 - mn.z as i128 };
        let dn2: i128 = if d.z >= 0 { d.z as i128 } else { -(d.z as i128) };

        if c0 && prod128(lo0, dn0) > prod128(hi0, dn0) {
            return Intersect::empty();
        }
        if c0 && c1 && prod128(lo0, dn1) > prod128(hi1, dn0) {
            return Intersect::empty();
        }
        if c0 && c2 && prod128(lo0, dn2) > prod128(hi2, dn0) {
            return Intersect::empty();
        }
        if c1 && c0 && prod128(lo1, dn0) > prod128(hi0, dn1) {
            return Intersect::empty();
        }
        if c1 && prod128(lo1, dn1) > prod128(hi1, dn1) {
            return Intersect::empty();
        }
        if c1 && c2 && prod128(lo1, dn2) > prod128(hi2, dn1) {
            return Intersect::empty();
        }
        if c2 && c0 && prod128(lo2, dn0) > prod128(hi0, dn2) {
            return Intersect::empty();
        }
        if c2 && c1 && prod128(lo2, dn1) > prod128(hi1, dn2) {
            return Intersect::empty();
        }
        if c2 && prod128(lo2, dn2) > prod128(hi2, dn2) {
            return Intersect::empty();
        }

        let n0: bool = c0 && prod128(lo0, SCALE as i128) >= prod128(T_EPS as i128, dn0);
        let n1: bool = c1 && prod128(lo1, SCALE as i128) >= prod128(T_EPS as i128, dn1);
        let n2: bool = c2 && prod128(lo2, SCALE as i128) >= prod128(T_EPS as i128, dn2);
        if !(n0 || n1 || n2) {
            return Intersect::empty();
        }

        proof {
            assert(cube_hit(c, o, d));
            lemma_near_axis_sound(c, o, d);
            lemma_near_axis_t_min(c, o, d);
        }

        // choose the near axis exactly as the spec does
        let a: usize = if c0 && (!c1 || prod128(lo0, dn1) >= prod128(lo1, dn0))
            && (!c2 || prod128(lo0, dn2) >= prod128(lo2, dn0)) {
            0
        } else if c1 && (!c0 || prod128(lo1, dn0) >= prod128(lo0, dn1))
            && (!c2 || prod128(lo1, dn2) >= prod128(lo2, dn1)) {
            1
        } else {
            2
        };
        let (lo_a, dn_a): (i128, i128) = if a == 0 {
            (lo0, dn0)
        } else if a == 1 {
            (lo1, dn1)
        } else {
            (lo2, dn2)
        };

        proof {
            assert(a == near_axis(c, o, d));
            lemma_dist_at_least(lo_a as int, dn_a as int);
        }

        let t: i64 = sat_i128(tdiv_i128(prod128(lo_a, SCALE as i128), dn_a));
        let point: Vec3 = o.plus(&d.scaled(t));
        let normal: Vec3 = if a == 0 {
            Vec3 { x: if d.x > 0 { -SCALE } else { SCALE }, y: 0, z: 0 }
        } else if a == 1 {
            Vec3 { x: 0, y: if d.y > 0 { -SCALE } else { SCALE }, z: 0 }
        } else {
            Vec3 { x: 0, y: 0, z: if d.z > 0 { -SCALE } else { SCALE } }
        };

        let (pu, mnu, mxu): (i64, i64, i64) = if a == 0 {
            (point.y, mn.y, mx.y)
        } else if a == 1 {
            (point.z, mn.z, mx.z)
        } else {
            (point.x, mn.x, mx.x)
        };
        let (pv, mnv, mxv): (i64, i64, i64) = if a == 0 {
            (point.z, mn.z, mx.z)
        } else if a == 1 {
            (point.x, mn.x, mx.x)
        } else {
            (point.y, mn.y, mx.y)
        };
        let u: i64 = face_coord_exec(pu, mnu, mxu);
        let v: i64 = face_coord_exec(pv, mnv, mxv);

        Intersect {
            is_intersecting: true,
            point,
            normal,
            distance: t,
            material: self.material,
            u,
            v,
        }
    }
}

/// The centre of a box, componentwise midpoint rounded toward the lower
/// corner.
pub open spec fn cube_center(c: Cube) -> Vec3 {
    Vec3 {
        x: mid(axis(c.min_bounds, 0), axis(c.max_bounds, 0)) as i64,
        y: mid(axis(c.min_bounds, 1), axis(c.max_bounds, 1)) as i64,
        z: mid(axis(c.min_bounds, 2), axis(c.max_bounds, 2)) as i64,
    }
}

/// Midpoint of two ordered integers, rounded toward the first.
pub open spec fn mid(a: int, b: int) -> int {
    a + (b - a) / 2
}

/// Normalize a face-local coordinate to the box's span, clamped into the
/// unit interval.
fn face_coord_exec(p: i64, mn: i64, mx: i64) -> (r: i64)
    requires
        crate::fx::fx_wf(p),
        crate::fx::fx_wf(mn),
        crate::fx::fx_wf(mx),
        mn < mx,
    ensures
        r == clamp_unit(tdiv((p - mn) * SCALE, mx - mn)),
        0 <= r <= SCALE,
{
    let num: i128 = prod128(p as i128 - mn as i128, SCALE as i128);
    let span: i128 = mx as i128 - mn as i128;
    let q: i128 = tdiv_i128(num, span);
    if q < 0 {
        0
    } else if q > SCALE as i128 {
        SCALE
    } else {
        q as i64
    }
}

} // verus!
