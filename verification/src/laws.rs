//! Laws of the evaluation pipeline that span several functions.  Each is
//! stated over the spec values the executable contracts pin down, so the
//! executable behaviour inherits it.

use vstd::prelude::*;
use crate::fx::{SCALE, sat, tdiv, fmul};
use crate::vec3::{Vec3, v3_wf, vadd, vscale, vdot};
use crate::material::{Material, Light};
use crate::cube::{
    Cube, cube_wf, cube_hit, axis, slab_contains, lo_num, hi_num, near_ok, near_axis,
    dist_spec, normal_spec, T_EPS, clamp_unit,
};
use crate::textures::{TextureManager, SkyboxTextures, skybox_face_uv, iabs};
use crate::render::{
    lights_spec, sec_lights_upto, skip_emissive, synth_light, accum_lighting, diffuse_term,
    specular_term, eff_intensity, diffuse_color_spec, direct_color_spec, MAX_SECONDARY_LIGHTS,
};
use vstd::arithmetic::mul::lemma_mul_inequality;
use vstd::arithmetic::div_mod::{lemma_div_of0, lemma_div_multiples_vanish};

verus! {

/// The unit direction along a positive coordinate axis.
pub open spec fn axis_unit(k: int) -> Vec3 {
    if k == 0 {
        Vec3 { x: SCALE, y: 0, z: 0 }
    } else if k == 1 {
        Vec3 { x: 0, y: SCALE, z: 0 }
    } else {
        Vec3 { x: 0, y: 0, z: SCALE }
    }
}

/// A ray aimed along a positive coordinate axis at a box, from an origin
/// outside the box on that axis (by at least the minimum parameter) whose
/// other coordinates lie inside the box's slabs — such as one aimed at the
/// box's centre — hits the box, with the normal facing back along that
/// axis and a strictly positive distance.
pub proof fn lemma_axis_ray_hits(c: Cube, o: Vec3, k: int)
    requires
        cube_wf(c),
        v3_wf(o),
        0 <= k < 3,
        axis(o, k) <= axis(c.min_bounds, k) - T_EPS,
        forall|j: int| 0 <= j < 3 && j != k ==> slab_contains(c, o, j),
    ensures
        cube_hit(c, o, axis_unit(k)),
        normal_spec(c, o, axis_unit(k)) == vscale(axis_unit(k), -SCALE as int),
        dist_spec(c, o, axis_unit(k)) >= T_EPS,
        dist_spec(c, o, axis_unit(k)) > 0,
{
    let d = axis_unit(k);
    assert(slab_contains(c, o, (k + 1) % 3));
    assert(slab_contains(c, o, (k + 2) % 3));
    let lo = lo_num(c, o, d, k);
    let hi = hi_num(c, o, d, k);
    assert(lo >= T_EPS);
    assert(lo <= hi);
    lemma_mul_inequality(lo, hi, SCALE as int);
    lemma_mul_inequality(T_EPS as int, lo, SCALE as int);
    assert(T_EPS * SCALE <= lo * SCALE);
    assert(near_ok(c, o, d, k));
    assert(cube_hit(c, o, d));
    assert(near_axis(c, o, d) == k);
    // the distance is the entry numerator itself, saturated
    assert(lo * SCALE >= 0);
    lemma_div_multiples_vanish(lo, SCALE as int);
    assert(tdiv(lo * SCALE, SCALE as int) == lo) by {
        assert(lo * SCALE == SCALE * lo) by (nonlinear_arith);
    }
    assert(dist_spec(c, o, d) == sat(lo));
    // the normal flips the axis direction
    assert(fmul(SCALE as int, -SCALE as int) == -SCALE) by {
        assert((SCALE as int) * (-SCALE as int) == -((SCALE as int) * (SCALE as int)))
            by (nonlinear_arith);
        lemma_div_multiples_vanish(SCALE as int, SCALE as int);
        assert(((SCALE as int) * (SCALE as int)) / (SCALE as int) == SCALE);
    }
    assert(fmul(0, -SCALE as int) == 0) by {
        assert(0 * (-SCALE as int) == 0) by (nonlinear_arith);
        lemma_div_of0(SCALE as int);
    }
}

/// The mirrored orientation of the axis-ray law: a ray aimed along a
/// negative coordinate axis at a box, from an origin outside the box on
/// that axis (by at least the minimum parameter) whose other coordinates
/// lie inside the box's slabs, hits the box, with the normal facing back
/// along that axis and a strictly positive distance.
pub proof fn lemma_axis_ray_hits_mirrored(c: Cube, o: Vec3, k: int)
    requires
        cube_wf(c),
        v3_wf(o),
        0 <= k < 3,
        axis(o, k) >= axis(c.max_bounds, k) + T_EPS,
        forall|j: int| 0 <= j < 3 && j != k ==> slab_contains(c, o, j),
    ensures
        cube_hit(c, o, vscale(axis_unit(k), -SCALE as int)),
        normal_spec(c, o, vscale(axis_unit(k), -SCALE as int)) == axis_unit(k),
        dist_spec(c, o, vscale(axis_unit(k), -SCALE as int)) >= T_EPS,
        dist_spec(c, o, vscale(axis_unit(k), -SCALE as int)) > 0,
{
    assert(fmul(SCALE as int, -SCALE as int) == -SCALE) by {
        assert((SCALE as int) * (-SCALE as int) == -((SCALE as int) * (SCALE as int)))
            by (nonlinear_arith);
        lemma_div_multiples_vanish(SCALE as int, SCALE as int);
        assert(((SCALE as int) * (SCALE as int)) / (SCALE as int) == SCALE);
    }
    assert(fmul(0, -SCALE as int) == 0) by {
        assert(0 * (-SCALE as int) == 0) by (nonlinear_arith);
        lemma_div_of0(SCALE as int);
    }
    let d = vscale(axis_unit(k), -SCALE as int);
    assert(axis(d, k) == -SCALE);
    assert(slab_contains(c, o, (k + 1) % 3));
    assert(slab_contains(c, o, (k + 2) % 3));
    let lo = lo_num(c, o, d, k);
    let hi = hi_num(c, o, d, k);
    assert(lo == axis(o, k) - axis(c.max_bounds, k));
    assert(lo >= T_EPS);
    assert(lo <= hi);
    lemma_mul_inequality(lo, hi, SCALE as int);
    lemma_mul_inequality(T_EPS as int, lo, SCALE as int);
    assert(T_EPS * SCALE <= lo * SCALE);
    assert(near_ok(c, o, d, k));
    assert(cube_hit(c, o, d));
    assert(near_axis(c, o, d) == k);
    assert(lo * SCALE >= 0);
    lemma_div_multiples_vanish(lo, SCALE as int);
    assert(tdiv(lo * SCALE, SCALE as int) == lo) by {
        assert(lo * SCALE == SCALE * lo) by (nonlinear_arith);
    }
    assert(dist_spec(c, o, d) == sat(lo));
}

/// Cube-map face selection is total away from the zero vector: every
/// nonzero direction — directions exactly on an axis plane included —
/// selects exactly one face, with a positive dominant component (so the
/// face-local division is never by zero) and both coordinates inside the
/// unit interval.
pub proof fn lemma_face_selection_total(sb: SkyboxTextures, d: Vec3)
    requires
        v3_wf(d),
        d != (Vec3 { x: 0i64, y: 0i64, z: 0i64 }),
    ensures
        skybox_face_uv(sb, d) is Some,
        0 <= skybox_face_uv(sb, d)->Some_0.1 <= SCALE,
        0 <= skybox_face_uv(sb, d)->Some_0.2 <= SCALE,
{
    let ax = iabs(d.x as int);
    let ay = iabs(d.y as int);
    let az = iabs(d.z as int);
    if !(ax > ay && ax > az) && !(ay > az) {
        assert(az >= ay && (ax <= ay || ax <= az));
        if az == 0 {
            assert(d.x == 0 && d.y == 0 && d.z == 0);
            assert(false);
        }
    }
}

/// A zero-intensity product vanishes.
proof fn lemma_fmul_zero(x: int)
    ensures
        fmul(0, x) == 0,
        fmul(x, 0) == 0,
{
    assert(0 * x == 0 && x * 0 == 0) by (nonlinear_arith);
    lemma_div_of0(SCALE as int);
}

/// Scaling any color by zero gives black.
proof fn lemma_vscale_zero(v: Vec3)
    ensures
        vscale(v, 0) == (Vec3 { x: 0i64, y: 0i64, z: 0i64 }),
{
    lemma_fmul_zero(v.x as int);
    lemma_fmul_zero(v.y as int);
    lemma_fmul_zero(v.z as int);
}

/// Energy sanity: under a single light of zero intensity, a non-emissive
/// material — whatever its diffuse color, texture, albedo weights or
/// specular exponent — shades to exactly the zero color.  Together with
/// the ray evaluator's contract this makes a fully opaque, non-emissive,
/// non-reflective, non-transparent hit under zero light come out black.
pub proof fn lemma_zero_light_black(
    objs: Seq<Cube>, tm: TextureManager, lights: Seq<Light>,
    o: Vec3, p: Vec3, n: Vec3, m: Material, u: int, v: int,
)
    requires
        lights.len() == 1,
        lights[0].intensity == 0,
        m.emission == (Vec3 { x: 0i64, y: 0i64, z: 0i64 }),
    ensures
        direct_color_spec(objs, tm, lights, o, p, n, m, u, v)
            == (Vec3 { x: 0i64, y: 0i64, z: 0i64 }),
{
    let viewdir = crate::vec3::vnormalize(crate::vec3::vsub(o, p));
    let l = lights[0];
    assert(lights.drop_last() =~= Seq::<Light>::empty());
    assert(lights.last() == l);
    lemma_fmul_zero(sat((SCALE as int) - crate::render::shadow_spec(objs, p, n, l)));
    assert(eff_intensity(objs, p, n, l) == 0);
    lemma_fmul_zero(crate::render::pos_part(vdot(n, crate::render::light_dir_at(p, l))));
    assert(diffuse_term(objs, p, n, l) == 0);
    lemma_fmul_zero(crate::fx::fpow(
        clamp_unit(vdot(viewdir, crate::render::refl_dir_at(p, n, l))), m.specular as nat));
    lemma_vscale_zero(l.color);
    assert(specular_term(objs, p, n, viewdir, m.specular, l)
        == (Vec3 { x: 0i64, y: 0i64, z: 0i64 }));
    assert(accum_lighting(objs, Seq::<Light>::empty(), p, n, viewdir, m.specular)
        == (0int, Vec3 { x: 0i64, y: 0i64, z: 0i64 }));
    assert(lights.drop_last() == Seq::<Light>::empty());
    let acc = accum_lighting(objs, lights, p, n, viewdir, m.specular);
    assert(acc.0 == sat(0int + 0int) && acc.0 == 0);
    assert(acc.1 == vadd(Vec3 { x: 0, y: 0, z: 0 }, Vec3 { x: 0, y: 0, z: 0 }));
    assert(acc.1 == (Vec3 { x: 0i64, y: 0i64, z: 0i64 }));
    lemma_vscale_zero(diffuse_color_spec(tm, m, u, v));
    lemma_vscale_zero(Vec3 { x: 0, y: 0, z: 0 });
    lemma_fmul_zero(m.albedo.0 as int);
    lemma_fmul_zero(m.albedo.1 as int);
}

/// The emissive-light cap: however many emissive primitives the scene
/// holds, the active light list has the primary light first and at most
/// five synthetic lights, synthesized from the first five emissive
/// primitives in iteration order.
pub proof fn lemma_emissive_cap(primary: Light, emis: Seq<Cube>, p: Vec3)
    ensures
        1 <= lights_spec(primary, emis, p).len() <= 1 + MAX_SECONDARY_LIGHTS,
        lights_spec(primary, emis, p)[0] == primary,
{
    let n: nat = if emis.len() < MAX_SECONDARY_LIGHTS {
        emis.len()
    } else {
        MAX_SECONDARY_LIGHTS as nat
    };
    crate::render::lemma_sec_lights_len(emis, p, n);
}

/// When none of the first five emissive primitives is degenerately close
/// to the shading point, exactly five secondary lights are synthesized,
/// each from its primitive in order.
pub proof fn lemma_emissive_cap_exact(primary: Light, emis: Seq<Cube>, p: Vec3)
    requires
        emis.len() >= MAX_SECONDARY_LIGHTS,
        forall|i: int| 0 <= i < MAX_SECONDARY_LIGHTS ==> !skip_emissive(#[trigger] emis[i], p),
    ensures
        lights_spec(primary, emis, p).len() == 1 + MAX_SECONDARY_LIGHTS,
        forall|i: int| 0 <= i < MAX_SECONDARY_LIGHTS
            ==> lights_spec(primary, emis, p)[i + 1] == synth_light(#[trigger] emis[i]),
{
    lemma_sec_full(emis, p, MAX_SECONDARY_LIGHTS as nat);
}

/// Without skips, the secondary list mirrors the scanned prefix exactly.
proof fn lemma_sec_full(emis: Seq<Cube>, p: Vec3, n: nat)
    requires
        n <= emis.len(),
        forall|i: int| 0 <= i < n ==> !skip_emissive(#[trigger] emis[i], p),
    ensures
        sec_lights_upto(emis, p, n).len() == n,
        forall|i: int| 0 <= i < n
            ==> sec_lights_upto(emis, p, n)[i] == synth_light(#[trigger] emis[i]),
    decreases n,
{
    if n > 0 {
        lemma_sec_full(emis, p, (n - 1) as nat);
    }
}

} // verus!
