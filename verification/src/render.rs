//! The recursive ray evaluator and its companions: the origin-offset bias
//! rule, the shadow evaluator, the synthetic-light builder, and the frame
//! renderer.

use vstd::prelude::*;
use crate::fx::{SCALE, FX_MAX, fx_wf, sat, tdiv, fmul, fpow, fx_add, fx_sub, fx_mul, fx_pow};
use crate::vec3::{Vec3, v3_wf, vadd, vsub, vscale, vdot, vlen, vnormalize};
use crate::material::{Material, Light, light_wf, Rgb, tone, vector3_to_color};
use crate::ray_intersect::{Intersect, intersect_wf};
use crate::cube::{
    Cube, cube_wf, cube_hit, cube_center, dist_spec, point_spec, normal_spec, u_spec, v_spec,
    clamp_unit,
};
use crate::bvh::{Bvh, bvh_wf};
use crate::snell::{reflect, refract, reflect_spec};
use crate::camera::{Camera, camera_wf, basis_change_spec};
use crate::textures::{
    TextureManager, tm_wf, pixel_color_spec, skybox_spec, coord_to_pixel,
};

verus! {

/// Offset applied to a secondary ray's origin along the normal.
pub const ORIGIN_BIAS: i64 = 100;

/// Offset applied to a shadow ray's origin along the normal.
pub const SHADOW_BIAS: i64 = 1000;

/// The fixed partial attenuation an occluded light suffers.
pub const SHADOW_ATTENUATION: i64 = 700_000;

/// Squared distance under which an emissive primitive is too close to the
/// shading point to act as a light.
pub const EMISSIVE_MIN_DIST2: i64 = 10_000;

/// At most this many emissive primitives become secondary lights.
pub const MAX_SECONDARY_LIGHTS: usize = 5;

/// Field-of-view scale: the tangent of half the fixed 60-degree field.
pub const PERSPECTIVE_SCALE: i64 = 577_350;

/// The exact origin of a secondary ray: the hit point pushed along the
/// normal, inward when the ray leaves through the surface, outward
/// otherwise, so the ray cannot immediately re-hit its own surface.
pub open spec fn offset_origin_spec(p: Vec3, n: Vec3, rd: Vec3) -> Vec3 {
    let off = vscale(n, ORIGIN_BIAS as int);
    if vdot(rd, n) < 0 {
        vsub(p, off)
    } else {
        vadd(p, off)
    }
}

/// Apply the shared origin-offset bias rule.
pub fn offset_origin(intersect: &Intersect, ray_direction: &Vec3) -> (r: Vec3)
    requires
        intersect_wf(*intersect),
        v3_wf(*ray_direction),
    ensures
        r == offset_origin_spec(intersect.point, intersect.normal, *ray_direction),
        v3_wf(r),
{
    let offset: Vec3 = intersect.normal.scaled(ORIGIN_BIAS);
    if ray_direction.dot(&intersect.normal) < 0 {
        intersect.point.minus(&offset)
    } else {
        intersect.point.plus(&offset)
    }
}

/// The exact origin of a shadow ray toward a light.
pub open spec fn shadow_origin_spec(p: Vec3, n: Vec3) -> Vec3 {
    vadd(p, vscale(n, SHADOW_BIAS as int))
}

/// The exact direction from a point toward a light.
pub open spec fn light_dir_at(p: Vec3, l: Light) -> Vec3 {
    vnormalize(vsub(l.position, p))
}

/// The exact distance from the shadow origin to the light.
pub open spec fn light_dist_spec(p: Vec3, n: Vec3, l: Light) -> int {
    vlen(vsub(l.position, shadow_origin_spec(p, n)))
}

/// A primitive occludes the light from the shading point: the shadow ray
/// hits it strictly nearer than the light.
pub open spec fn occludes(c: Cube, p: Vec3, n: Vec3, l: Light) -> bool {
    let so = shadow_origin_spec(p, n);
    let sd = light_dir_at(p, l);
    cube_hit(c, so, sd) && dist_spec(c, so, sd) < light_dist_spec(p, n, l)
}

/// Some primitive occludes the light.
pub open spec fn any_occluder(objs: Seq<Cube>, p: Vec3, n: Vec3, l: Light) -> bool {
    exists|j: int| 0 <= j < objs.len() && occludes(#[trigger] objs[j], p, n, l)
}

/// The exact shadow attenuation: a binary test per light.
pub open spec fn shadow_spec(objs: Seq<Cube>, p: Vec3, n: Vec3, l: Light) -> int {
    if any_occluder(objs, p, n, l) {
        SHADOW_ATTENUATION as int
    } else {
        0
    }
}

/// Cast a shadow ray from the intersection toward the light.  The result
/// is exactly zero when no primitive lies strictly between the (biased)
/// point and the light, and exactly the fixed attenuation when one does.
pub fn cast_shadow(intersect: &Intersect, light: &Light, bvh: &Bvh, objects: &Vec<Cube>) -> (r: i64)
    requires
        intersect_wf(*intersect),
        light_wf(*light),
        bvh_wf(*bvh, objects@),
        forall|i: int| 0 <= i < objects@.len() ==> cube_wf(#[trigger] objects@[i]),
    ensures
        r == shadow_spec(objects@, intersect.point, intersect.normal, *light),
        r == 0 || r == SHADOW_ATTENUATION,
{
    let light_direction: Vec3 = light.position.minus(&intersect.point).normalized();
    let shadow_ray_origin: Vec3 = intersect.point.plus(&intersect.normal.scaled(SHADOW_BIAS));
    let light_distance: i64 = light.position.minus(&shadow_ray_origin).length();
    let candidates: Vec<usize> = bvh.traverse(&shadow_ray_origin, &light_direction, objects);
    let mut i: usize = 0;
    while i < candidates.len()
        invariant
            i <= candidates@.len(),
            forall|k: int| 0 <= k < i
                ==> !occludes(objects@[#[trigger] candidates@[k] as int],
                        intersect.point, intersect.normal, *light),
            forall|k: int| 0 <= k < candidates@.len()
                ==> (#[trigger] candidates@[k]) < objects@.len(),
            shadow_ray_origin == shadow_origin_spec(intersect.point, intersect.normal),
            light_direction == light_dir_at(intersect.point, *light),
            light_distance == light_dist_spec(intersect.point, intersect.normal, *light),
            v3_wf(shadow_ray_origin),
            v3_wf(light_direction),
            intersect_wf(*intersect),
            light_wf(*light),
            forall|j: int| 0 <= j < objects@.len() ==> cube_wf(#[trigger] objects@[j]),
            forall|j: int| 0 <= j < objects@.len()
                && cube_hit(#[trigger] objects@[j], shadow_ray_origin, light_direction)
                ==> candidates@.contains(j as usize),
        decreases candidates@.len() - i,
    {
        let idx: usize = candidates[i];
        let s: Intersect = objects[idx].ray_intersect(&shadow_ray_origin, &light_direction);
        if s.is_intersecting && s.distance < light_distance {
            proof {
                assert(occludes(objects@[idx as int], intersect.point, intersect.normal, *light));
            }
            return SHADOW_ATTENUATION;
        }
        i = i + 1;
    }
    proof {
        assert forall|j: int| 0 <= j < objects@.len() implies
            !occludes(#[trigger] objects@[j], intersect.point, intersect.normal, *light) by {
            if occludes(objects@[j], intersect.point, intersect.normal, *light) {
                assert(candidates@.contains(j as usize));
                let k = choose|k: int| 0 <= k < candidates@.len() && candidates@[k] == j as usize;
                assert(!occludes(objects@[candidates@[k] as int],
                    intersect.point, intersect.normal, *light));
            }
        }
    }
    0
}

/// The synthetic point light an emissive primitive casts: at the box's
/// centre, colored by the emission's direction, as strong as its length.
pub open spec fn synth_light(c: Cube) -> Light {
    Light {
        position: cube_center(c),
        color: vnormalize(c.material.emission),
        intensity: vlen(c.material.emission) as i64,
    }
}

/// Whether an emissive primitive sits degenerately close to the shading
/// point (squared distance below the threshold) and is skipped.
pub open spec fn skip_emissive(c: Cube, p: Vec3) -> bool {
    vdot(vsub(cube_center(c), p), vsub(cube_center(c), p)) < EMISSIVE_MIN_DIST2
}

/// The secondary lights synthesized from the first `n` emissive
/// primitives, in iteration order, skipping degenerate ones.
pub open spec fn sec_lights_upto(emis: Seq<Cube>, p: Vec3, n: nat) -> Seq<Light>
    decreases n,
{
    if n == 0 {
        Seq::empty()
    } else {
        let prev = sec_lights_upto(emis, p, (n - 1) as nat);
        if skip_emissive(emis[n - 1], p) {
            prev
        } else {
            prev.push(synth_light(emis[n - 1]))
        }
    }
}

/// The active light list at a shading point: the primary light, then the
/// secondary lights from at most the first five emissive primitives.
pub open spec fn lights_spec(primary: Light, emis: Seq<Cube>, p: Vec3) -> Seq<Light> {
    let n: nat = if emis.len() < MAX_SECONDARY_LIGHTS { emis.len() } else { MAX_SECONDARY_LIGHTS as nat };
    seq![primary] + sec_lights_upto(emis, p, n)
}

/// No more secondary lights than primitives scanned.
pub proof fn lemma_sec_lights_len(emis: Seq<Cube>, p: Vec3, n: nat)
    ensures
        sec_lights_upto(emis, p, n).len() <= n,
    decreases n,
{
    if n > 0 {
        lemma_sec_lights_len(emis, p, (n - 1) as nat);
    }
}

/// Build the active light list: the primary light plus at most five
/// synthetic lights from the emissive primitives, chosen by iteration
/// order, skipping any that sit degenerately close to the point.
pub fn collect_lights(primary: &Light, emissive_objects: &Vec<Cube>, point: Vec3) -> (r: Vec<Light>)
    requires
        light_wf(*primary),
        forall|i: int| 0 <= i < emissive_objects@.len()
            ==> cube_wf(#[trigger] emissive_objects@[i]),
        v3_wf(point),
    ensures
        r@ == lights_spec(*primary, emissive_objects@, point),
        1 <= r@.len() <= 1 + MAX_SECONDARY_LIGHTS,
        forall|k: int| 0 <= k < r@.len() ==> light_wf(#[trigger] r@[k]),
        r@[0] == *primary,
{
    let mut out: Vec<Light> = Vec::new();
    out.push(*primary);
    proof {
        assert(out@ =~= seq![*primary] + sec_lights_upto(emissive_objects@, point, 0nat));
    }
    let limit: usize = if emissive_objects.len() < MAX_SECONDARY_LIGHTS {
        emissive_objects.len()
    } else {
        MAX_SECONDARY_LIGHTS
    };
    let mut i: usize = 0;
    while i < limit
        invariant
            i <= limit,
            limit == if emissive_objects@.len() < MAX_SECONDARY_LIGHTS {
                emissive_objects@.len() as int
            } else {
                MAX_SECONDARY_LIGHTS as int
            },
            light_wf(*primary),
            v3_wf(point),
            forall|j: int| 0 <= j < emissive_objects@.len()
                ==> cube_wf(#[trigger] emissive_objects@[j]),
            out@ == seq![*primary] + sec_lights_upto(emissive_objects@, point, i as nat),
            forall|k: int| 0 <= k < out@.len() ==> light_wf(#[trigger] out@[k]),
        decreases limit - i,
    {
        let c: Cube = emissive_objects[i];
        let center: Vec3 = c.center();
        let diff: Vec3 = center.minus(&point);
        let d2: i64 = diff.dot(&diff);
        if d2 >= EMISSIVE_MIN_DIST2 {
            let lgt: Light = Light::new(
                center,
                c.material.emission.normalized(),
                c.material.emission.length(),
            );
            out.push(lgt);
        }
        i = i + 1;
        proof {
            assert(out@ =~= seq![*primary] + sec_lights_upto(emissive_objects@, point, i as nat));
        }
    }
    proof {
        lemma_sec_lights_len(emissive_objects@, point, i as nat);
    }
    out
}

/// The non-negative part of a scalar.
pub open spec fn pos_part(x: int) -> int {
    if x < 0 {
        0
    } else {
        x
    }
}

/// The exact specular reflection direction of a light at a point.
pub open spec fn refl_dir_at(p: Vec3, n: Vec3, l: Light) -> Vec3 {
    vnormalize(reflect_spec(vsub(Vec3 { x: 0, y: 0, z: 0 }, light_dir_at(p, l)), n))
}

/// The exact shadow-attenuated intensity of a light at a point.
pub open spec fn eff_intensity(objs: Seq<Cube>, p: Vec3, n: Vec3, l: Light) -> int {
    fmul(l.intensity as int, sat((SCALE as int) - shadow_spec(objs, p, n, l)))
}

/// The exact diffuse contribution of one light.
pub open spec fn diffuse_term(objs: Seq<Cube>, p: Vec3, n: Vec3, l: Light) -> int {
    fmul(pos_part(vdot(n, light_dir_at(p, l))), eff_intensity(objs, p, n, l))
}

/// The exact specular contribution of one light.
pub open spec fn specular_term(
    objs: Seq<Cube>, p: Vec3, n: Vec3, viewdir: Vec3, spec_e: u32, l: Light,
) -> Vec3 {
    vscale(
        l.color,
        fmul(
            fpow(clamp_unit(vdot(viewdir, refl_dir_at(p, n, l))), spec_e as nat),
            eff_intensity(objs, p, n, l),
        ),
    )
}

/// The exact accumulated diffuse intensity and specular color over a
/// light list, in order.
pub open spec fn accum_lighting(
    objs: Seq<Cube>, lights: Seq<Light>, p: Vec3, n: Vec3, viewdir: Vec3, spec_e: u32,
) -> (int, Vec3)
    decreases lights.len(),
{
    if lights.len() == 0 {
        (0, Vec3 { x: 0, y: 0, z: 0 })
    } else {
        let prev = accum_lighting(objs, lights.drop_last(), p, n, viewdir, spec_e);
        (
            sat(prev.0 + diffuse_term(objs, p, n, lights.last())),
            vadd(prev.1, specular_term(objs, p, n, viewdir, spec_e, lights.last())),
        )
    }
}

/// The exact diffuse base color: the texture sampled at the hit's face
/// coordinates when one is attached (an unknown identifier degrades to
/// white), else the flat diffuse color.
pub open spec fn diffuse_color_spec(tm: TextureManager, m: Material, u: int, v: int) -> Vec3 {
    match m.texture {
        Some(tid) => {
            let w: int = if tid < tm.cpu_textures@.len() { tm.cpu_textures@[tid as int].width as int } else { 0 };
            let h: int = if tid < tm.cpu_textures@.len() { tm.cpu_textures@[tid as int].height as int } else { 0 };
            pixel_color_spec(tm, tid as int, tdiv(u * w, SCALE as int), tdiv(v * h, SCALE as int))
        },
        None => m.diffuse,
    }
}

/// The exact direct (non-recursive) part of the shaded color: emission,
/// plus the lit diffuse base scaled by the first albedo weight, plus the
/// accumulated specular color scaled by the second.
pub open spec fn direct_color_spec(
    objs: Seq<Cube>, tm: TextureManager, lights: Seq<Light>,
    o: Vec3, p: Vec3, n: Vec3, m: Material, u: int, v: int,
) -> Vec3 {
    let viewdir = vnormalize(vsub(o, p));
    let acc = accum_lighting(objs, lights, p, n, viewdir, m.specular);
    let diffuse = vscale(diffuse_color_spec(tm, m, u, v), acc.0);
    vadd(
        vadd(m.emission, vscale(diffuse, m.albedo.0 as int)),
        vscale(acc.1, m.albedo.1 as int),
    )
}

/// A material that neither glows nor reflects nor refracts.
pub open spec fn dark_material(m: Material) -> bool {
    &&& m.emission == (Vec3 { x: 0i64, y: 0i64, z: 0i64 })
    &&& m.reflectivity == 0
    &&& m.transparency == 0
}

/// The nearest hit wins; ties in distance go to the lower index.
pub open spec fn hit_before(objs: Seq<Cube>, o: Vec3, d: Vec3, j: int, k: int) -> bool {
    dist_spec(objs[j], o, d) < dist_spec(objs[k], o, d)
        || (dist_spec(objs[j], o, d) == dist_spec(objs[k], o, d) && j <= k)
}

/// Primitive `j` is the hit the evaluator shades: the ray hits it, no
/// other hit comes before it.
pub open spec fn is_nearest_hit(objs: Seq<Cube>, o: Vec3, d: Vec3, j: int) -> bool {
    &&& 0 <= j < objs.len()
    &&& cube_hit(objs[j], o, d)
    &&& forall|k: int| 0 <= k < objs.len() && cube_hit(#[trigger] objs[k], o, d)
        ==> hit_before(objs, o, d, j, k)
}

/// The ray hits something in the scene.
pub open spec fn scene_hit(objs: Seq<Cube>, o: Vec3, d: Vec3) -> bool {
    exists|j: int| 0 <= j < objs.len() && cube_hit(#[trigger] objs[j], o, d)
}

/// The index of the hit the evaluator shades (meaningful when the scene
/// is hit; unique, since ties break on the index).
pub open spec fn nearest_idx(objs: Seq<Cube>, o: Vec3, d: Vec3) -> int {
    choose|j: int| is_nearest_hit(objs, o, d, j)
}

/// The nearest hit is unique, so the chosen index is the witnessed one.
pub proof fn lemma_nearest_unique(objs: Seq<Cube>, o: Vec3, d: Vec3, j: int)
    requires
        is_nearest_hit(objs, o, d, j),
    ensures
        nearest_idx(objs, o, d) == j,
        scene_hit(objs, o, d),
{
    let j2 = nearest_idx(objs, o, d);
    assert(is_nearest_hit(objs, o, d, j2));
    assert(hit_before(objs, o, d, j, j2));
    assert(hit_before(objs, o, d, j2, j));
}

/// The exact color the evaluator returns, for every ray, scene and depth:
/// past the depth bound or on a miss the environment sample; on a hit the
/// direct-lighting color plus the weighted recursive reflection and
/// refraction samples, each traced from the bias-offset origin.  A
/// degenerate refraction (total internal reflection, which comes back as
/// the zero direction) contributes nothing.
pub open spec fn cast_ray_spec(
    objs: Seq<Cube>, tm: TextureManager, light: Light, emis: Seq<Cube>,
    o: Vec3, d: Vec3, depth: nat,
) -> Vec3
    decreases 2 - depth,
{
    if depth > 1 {
        skybox_spec(tm, d)
    } else if !scene_hit(objs, o, d) {
        skybox_spec(tm, d)
    } else {
        let j = nearest_idx(objs, o, d);
        let m = objs[j].material;
        let p = point_spec(objs[j], o, d);
        let n = normal_spec(objs[j], o, d);
        let direct = direct_color_spec(
            objs, tm, lights_spec(light, emis, p), o, p, n, m,
            u_spec(objs[j], o, d), v_spec(objs[j], o, d));
        let refl = if m.reflectivity > 0 {
            let rd = reflect_spec(d, n);
            cast_ray_spec(objs, tm, light, emis, offset_origin_spec(p, n, rd), rd, depth + 1)
        } else {
            Vec3 { x: 0, y: 0, z: 0 }
        };
        let refr = if m.transparency > 0 {
            let fd = crate::snell::refract_spec(d, n, m.refractive_index as int);
            if fd == (Vec3 { x: 0i64, y: 0i64, z: 0i64 }) {
                // degenerate refraction (total internal reflection): the
                // refraction contribution is disabled for this sample
                Vec3 { x: 0, y: 0, z: 0 }
            } else {
                cast_ray_spec(objs, tm, light, emis, offset_origin_spec(p, n, fd), fd, depth + 1)
            }
        } else {
            Vec3 { x: 0, y: 0, z: 0 }
        };
        vadd(
            vadd(direct, vscale(refl, m.reflectivity as int)),
            vscale(refr, m.transparency as int),
        )
    }
}

/// Evaluate one ray against the scene.
///
/// Past the depth bound the environment sample is returned before any
/// intersection work; a miss returns the environment sample; a hit shades
/// the nearest intersection (ties to the lower index), and when the hit
/// material neither reflects nor refracts the result is exactly the
/// direct-lighting color over the synthesized light list.  Degenerate
/// refraction — total internal reflection — disables the refraction
/// contribution for the sample instead of tracing the zero direction.
#[verifier::rlimit(100)]
pub fn cast_ray(
    ray_origin: &Vec3,
    ray_direction: &Vec3,
    bvh: &Bvh,
    objects: &Vec<Cube>,
    light: &Light,
    emissive_objects: &Vec<Cube>,
    depth: u32,
    texture_manager: &TextureManager,
) -> (r: Vec3)
    requires
        v3_wf(*ray_origin),
        v3_wf(*ray_direction),
        bvh_wf(*bvh, objects@),
        forall|i: int| 0 <= i < objects@.len() ==> cube_wf(#[trigger] objects@[i]),
        light_wf(*light),
        forall|i: int| 0 <= i < emissive_objects@.len()
            ==> cube_wf(#[trigger] emissive_objects@[i]),
        tm_wf(*texture_manager),
    ensures
        v3_wf(r),
        r == cast_ray_spec(objects@, *texture_manager, *light, emissive_objects@,
            *ray_origin, *ray_direction, depth as nat),
        depth > 1 ==> r == skybox_spec(*texture_manager, *ray_direction),
        depth <= 1 && !scene_hit(objects@, *ray_origin, *ray_direction)
            ==> r == skybox_spec(*texture_manager, *ray_direction),
        depth <= 1 && scene_hit(objects@, *ray_origin, *ray_direction)
            ==> exists|j: int| #[trigger] is_nearest_hit(objects@, *ray_origin, *ray_direction, j)
                && ((objects@[j].material.reflectivity == 0
                        && objects@[j].material.transparency == 0)
                    ==> r == direct_color_spec(
                        objects@,
                        *texture_manager,
                        lights_spec(*light, emissive_objects@,
                            point_spec(objects@[j], *ray_origin, *ray_direction)),
                        *ray_origin,
                        point_spec(objects@[j], *ray_origin, *ray_direction),
                        normal_spec(objects@[j], *ray_origin, *ray_direction),
                        objects@[j].material,
                        u_spec(objects@[j], *ray_origin, *ray_direction),
                        v_spec(objects@[j], *ray_origin, *ray_direction),
                    )),
        (depth <= 1 && scene_hit(objects@, *ray_origin, *ray_direction)
            && light.intensity == 0 && emissive_objects@.len() == 0
            && (forall|j: int| 0 <= j < objects@.len()
                    ==> dark_material((#[trigger] objects@[j]).material)))
            ==> r == (Vec3 { x: 0i64, y: 0i64, z: 0i64 }),
    decreases 2int - depth,
{
    if depth > 1 {
        return texture_manager.sample_skybox(*ray_direction);
    }

    let candidates: Vec<usize> = bvh.traverse(ray_origin, ray_direction, objects);
    let mut found: bool = false;
    let mut best_idx: usize = 0;
    let mut best: Intersect = Intersect::empty();
    let mut ci: usize = 0;
    while ci < candidates.len()
        invariant
            ci <= candidates@.len(),
            v3_wf(*ray_origin),
            v3_wf(*ray_direction),
            forall|i: int| 0 <= i < objects@.len() ==> cube_wf(#[trigger] objects@[i]),
            forall|k: int| 0 <= k < candidates@.len()
                ==> (#[trigger] candidates@[k]) < objects@.len(),
            found ==> {
                &&& best_idx < objects@.len()
                &&& cube_hit(objects@[best_idx as int], *ray_origin, *ray_direction)
                &&& best.is_intersecting
                &&& intersect_wf(best)
                &&& best.material == objects@[best_idx as int].material
                &&& best.distance == dist_spec(objects@[best_idx as int], *ray_origin, *ray_direction)
                &&& best.point == point_spec(objects@[best_idx as int], *ray_origin, *ray_direction)
                &&& best.normal == normal_spec(objects@[best_idx as int], *ray_origin, *ray_direction)
                &&& best.u == u_spec(objects@[best_idx as int], *ray_origin, *ray_direction)
                &&& best.v == v_spec(objects@[best_idx as int], *ray_origin, *ray_direction)
                &&& 0 <= best.u <= SCALE
                &&& 0 <= best.v <= SCALE
            },
            forall|k: int| 0 <= k < ci
                && cube_hit(objects@[#[trigger] candidates@[k] as int], *ray_origin, *ray_direction)
                ==> found && hit_before(objects@, *ray_origin, *ray_direction,
                        best_idx as int, candidates@[k] as int),
            !found ==> forall|k: int| 0 <= k < ci
                ==> !cube_hit(objects@[#[trigger] candidates@[k] as int], *ray_origin, *ray_direction),
        decreases candidates@.len() - ci,
    {
        let idx: usize = candidates[ci];
        let tmp: Intersect = objects[idx].ray_intersect(ray_origin, ray_direction);
        if tmp.is_intersecting
            && (!found || tmp.distance < best.distance
                || (tmp.distance == best.distance && idx < best_idx)) {
            best = tmp;
            best_idx = idx;
            found = true;
        }
        ci = ci + 1;
    }

    if !found {
        proof {
            assert forall|j: int| 0 <= j < objects@.len() implies
                !cube_hit(#[trigger] objects@[j], *ray_origin, *ray_direction) by {
                if cube_hit(objects@[j], *ray_origin, *ray_direction) {
                    assert(candidates@.contains(j as usize));
                    let k = choose|k: int| 0 <= k < candidates@.len()
                        && candidates@[k] == j as usize;
                }
            }
        }
        return texture_manager.sample_skybox(*ray_direction);
    }

    proof {
        assert forall|k: int| 0 <= k < objects@.len()
            && cube_hit(#[trigger] objects@[k], *ray_origin, *ray_direction) implies
            hit_before(objects@, *ray_origin, *ray_direction, best_idx as int, k) by {
            assert(candidates@.contains(k as usize));
            let w = choose|w: int| 0 <= w < candidates@.len() && candidates@[w] == k as usize;
        }
        assert(is_nearest_hit(objects@, *ray_origin, *ray_direction, best_idx as int));
        lemma_nearest_unique(objects@, *ray_origin, *ray_direction, best_idx as int);
    }

    let emission: Vec3 = best.material.emission;
    let lights: Vec<Light> = collect_lights(light, emissive_objects, best.point);
    let view_direction: Vec3 = ray_origin.minus(&best.point).normalized();
    let normal: Vec3 = best.normal;

    let mut total_diffuse: i64 = 0;
    let mut total_specular: Vec3 = Vec3::zero();
    let mut li: usize = 0;
    while li < lights.len()
        invariant
            li <= lights@.len(),
            v3_wf(*ray_origin),
            v3_wf(*ray_direction),
            bvh_wf(*bvh, objects@),
            forall|i: int| 0 <= i < objects@.len() ==> cube_wf(#[trigger] objects@[i]),
            forall|k: int| 0 <= k < lights@.len() ==> light_wf(#[trigger] lights@[k]),
            intersect_wf(best),
            v3_wf(view_direction),
            normal == best.normal,
            (total_diffuse as int, total_specular) == accum_lighting(
                objects@, lights@.take(li as int), best.point, normal,
                view_direction, best.material.specular),
            fx_wf(total_diffuse),
            v3_wf(total_specular),
        decreases lights@.len() - li,
    {
        let l: Light = lights[li];
        let light_dir: Vec3 = l.position.minus(&best.point).normalized();
        let refl_dir: Vec3 = reflect(&light_dir.negated(), &normal).normalized();
        let shadow: i64 = cast_shadow(&best, &l, bvh, objects);
        let light_intensity: i64 = fx_mul(l.intensity, fx_sub(SCALE, shadow));
        let ndl: i64 = normal.dot(&light_dir);
        let diff_base: i64 = if ndl < 0 { 0 } else { ndl };
        total_diffuse = fx_add(total_diffuse, fx_mul(diff_base, light_intensity));
        let vdr: i64 = view_direction.dot(&refl_dir);
        let spec_base: i64 = if vdr < 0 { 0 } else if vdr > SCALE { SCALE } else { vdr };
        let spec_int: i64 = fx_mul(fx_pow(spec_base, best.material.specular), light_intensity);
        total_specular = total_specular.plus(&l.color.scaled(spec_int));
        li = li + 1;
        proof {
            assert(lights@.take(li as int).drop_last() =~= lights@.take(li - 1));
            assert(lights@.take(li as int).last() == lights@[li - 1]);
        }
    }
    proof {
        assert(lights@.take(lights@.len() as int) =~= lights@);
    }

    let diffuse_color: Vec3 = match best.material.texture {
        Some(tid) => {
            let (tw, th): (usize, usize) = match texture_manager.get_texture(tid) {
                Some(t) => (t.width, t.height),
                None => (0, 0),
            };
            let tx: usize = coord_to_pixel(best.u, tw);
            let ty: usize = coord_to_pixel(best.v, th);
            texture_manager.get_pixel_color(tid, tx, ty)
        },
        None => best.material.diffuse,
    };
    let diffuse: Vec3 = diffuse_color.scaled(total_diffuse);

    let mut reflection_color: Vec3 = Vec3::zero();
    let reflectivity: i64 = best.material.reflectivity;
    if reflectivity > 0 {
        let reflect_direction: Vec3 = reflect(ray_direction, &normal);
        let reflect_origin: Vec3 = offset_origin(&best, &reflect_direction);
        reflection_color = cast_ray(
            &reflect_origin, &reflect_direction, bvh, objects, light,
            emissive_objects, depth + 1, texture_manager);
    }

    let mut refraction_color: Vec3 = Vec3::zero();
    let transparency: i64 = best.material.transparency;
    if transparency > 0 {
        let refract_direction: Vec3 = refract(
            ray_direction, &normal, best.material.refractive_index);
        // total internal reflection degenerates to the zero direction; the
        // refraction contribution is then disabled rather than traced
        if !(refract_direction.x == 0 && refract_direction.y == 0 && refract_direction.z == 0) {
            let refract_origin: Vec3 = offset_origin(&best, &refract_direction);
            refraction_color = cast_ray(
                &refract_origin, &refract_direction, bvh, objects, light,
                emissive_objects, depth + 1, texture_manager);
        }
    }

    let color: Vec3 = emission
        .plus(&diffuse.scaled(best.material.albedo.0))
        .plus(&total_specular.scaled(best.material.albedo.1))
        .plus(&reflection_color.scaled(reflectivity))
        .plus(&refraction_color.scaled(transparency));

    proof {
        if reflectivity == 0 && transparency == 0 {
            lemma_vadd_zero_terms(
                vadd(
                    vadd(emission, vscale(diffuse, best.material.albedo.0 as int)),
                    vscale(total_specular, best.material.albedo.1 as int),
                ),
            );
        }
        if light.intensity == 0 && emissive_objects@.len() == 0
            && (forall|j: int| 0 <= j < objects@.len()
                    ==> dark_material((#[trigger] objects@[j]).material)) {
            assert(dark_material(best.material));
            assert(sec_lights_upto(emissive_objects@, best.point, 0nat) =~= Seq::<Light>::empty());
            assert(lights@.len() == 1 && lights@[0] == *light);
            crate::laws::lemma_zero_light_black(
                objects@, *texture_manager, lights@, *ray_origin, best.point, normal,
                best.material, best.u as int, best.v as int);
        }
    }
    color
}

/// Adding two zero-scaled terms leaves a well-formed color unchanged.
proof fn lemma_vadd_zero_terms(v: Vec3)
    requires
        v3_wf(v),
    ensures
        vadd(vadd(v, vscale(Vec3 { x: 0, y: 0, z: 0 }, 0)), vscale(Vec3 { x: 0, y: 0, z: 0 }, 0)) == v,
{
    vstd::arithmetic::div_mod::lemma_div_of0(SCALE as int);
    assert(fmul(0, 0) == 0);
}

/// The exact camera-space ray direction of a pixel, before normalization
/// and rotation: normalized screen coordinates scaled by aspect ratio and
/// the field-of-view tangent, with the fixed forward component.
pub open spec fn screen_dir_spec(width: int, height: int, x: int, y: int) -> Vec3 {
    let sx = tdiv((2 * x - width) * SCALE, width);
    let sy = tdiv((height - 2 * y) * SCALE, height);
    let aspect = tdiv(width * SCALE, height);
    Vec3 {
        x: fmul(fmul(sx, aspect), PERSPECTIVE_SCALE as int) as i64,
        y: fmul(sy, PERSPECTIVE_SCALE as int) as i64,
        z: (-SCALE) as i64,
    }
}

/// The exact world-space primary-ray direction of a pixel.
pub open spec fn ray_dir_spec(cam: Camera, width: int, height: int, x: int, y: int) -> Vec3 {
    basis_change_spec(cam, vnormalize(screen_dir_spec(width, height, x, y)))
}

/// The displayable pixel of a linear color.
pub open spec fn rgb_of(v: Vec3) -> Rgb {
    Rgb { r: tone(v.x as int) as u8, g: tone(v.y as int) as u8, b: tone(v.z as int) as u8 }
}

/// What the renderer owes each pixel: exactly the evaluator's color for
/// the pixel's primary ray at depth zero, tone-mapped at the pixel
/// boundary.
pub open spec fn pixel_ok(
    objs: Seq<Cube>, tm: TextureManager, cam: Camera, light: Light, emis: Seq<Cube>,
    width: int, height: int, x: int, y: int, px: Rgb,
) -> bool {
    let d = ray_dir_spec(cam, width, height, x, y);
    px == rgb_of(cast_ray_spec(objs, tm, light, emis, cam.eye, d, 0))
}

/// A normalized screen coordinate: `num / den` in fixed point, within one
/// unit either way.
fn screen_coord(num: i64, den: i64) -> (r: i64)
    requires
        0 < den,
        -den <= num <= den,
        den <= 1_000_000_000,
    ensures
        r == tdiv(num * SCALE, den as int),
        -SCALE <= r <= SCALE,
{
    proof {
        crate::vec3::lemma_div_bound(num as int, den as int);
        assert(-0x38d7ea4c68000 <= (num as int) * (SCALE as int) <= 0x38d7ea4c68000)
            by (nonlinear_arith)
            requires -1_000_000_000 <= num <= 1_000_000_000, SCALE == 1_000_000;
    }
    let p: i128 = (num as i128) * (SCALE as i128);
    let q: i128 = crate::fx::tdiv_i128(p, den as i128);
    q as i64
}

/// The aspect ratio in fixed point.
fn aspect_ratio(width: usize, height: usize) -> (r: i64)
    requires
        1 <= width <= 32768,
        1 <= height <= 32768,
    ensures
        r == tdiv(width * SCALE, height as int),
        0 <= r <= FX_MAX,
        fx_wf(r),
{
    proof {
        assert(0 <= (width as int) * (SCALE as int) <= 32768 * (SCALE as int))
            by (nonlinear_arith)
            requires 1 <= width <= 32768;
    }
    let p: i128 = (width as i128) * (SCALE as i128);
    proof {
        vstd::arithmetic::div_mod::lemma_div_pos_is_pos(p as int, height as int);
        vstd::arithmetic::div_mod::lemma_div_nonincreasing(p as int, height as int);
    }
    let q: i128 = p / (height as i128);
    q as i64
}

/// Evaluate one pixel: build the primary ray from the camera parameters
/// and trace it at depth zero.
pub fn render_pixel(
    x: usize,
    y: usize,
    width: usize,
    height: usize,
    bvh: &Bvh,
    objects: &Vec<Cube>,
    camera: &Camera,
    light: &Light,
    emissive_objects: &Vec<Cube>,
    texture_manager: &TextureManager,
) -> (px: Rgb)
    requires
        1 <= width <= 32768,
        1 <= height <= 32768,
        x < width,
        y < height,
        camera_wf(*camera),
        bvh_wf(*bvh, objects@),
        forall|i: int| 0 <= i < objects@.len() ==> cube_wf(#[trigger] objects@[i]),
        light_wf(*light),
        forall|i: int| 0 <= i < emissive_objects@.len()
            ==> cube_wf(#[trigger] emissive_objects@[i]),
        tm_wf(*texture_manager),
    ensures
        pixel_ok(objects@, *texture_manager, *camera, *light, emissive_objects@,
            width as int, height as int, x as int, y as int, px),
{
    let sx: i64 = screen_coord(2 * (x as i64) - (width as i64), width as i64);
    let sy: i64 = screen_coord((height as i64) - 2 * (y as i64), height as i64);
    let aspect: i64 = aspect_ratio(width, height);
    let dir = Vec3 {
        x: fx_mul(fx_mul(sx, aspect), PERSPECTIVE_SCALE),
        y: fx_mul(sy, PERSPECTIVE_SCALE),
        z: -SCALE,
    };
    let rotated: Vec3 = camera.basis_change(&dir.normalized());
    let c: Vec3 = cast_ray(
        &camera.eye, &rotated, bvh, objects, light, emissive_objects, 0, texture_manager);
    let px: Rgb = vector3_to_color(c);
    proof {
        let ghost d = ray_dir_spec(*camera, width as int, height as int, x as int, y as int);
        assert(rotated == d);
        assert(px == rgb_of(c));
    }
    px
}

/// Render a frame: one pixel per index, row-major, each pixel independent
/// of the others.
pub fn render(
    width: usize,
    height: usize,
    bvh: &Bvh,
    objects: &Vec<Cube>,
    camera: &Camera,
    light: &Light,
    emissive_objects: &Vec<Cube>,
    texture_manager: &TextureManager,
) -> (r: Vec<Rgb>)
    requires
        1 <= width <= 32768,
        1 <= height <= 32768,
        camera_wf(*camera),
        bvh_wf(*bvh, objects@),
        forall|i: int| 0 <= i < objects@.len() ==> cube_wf(#[trigger] objects@[i]),
        light_wf(*light),
        forall|i: int| 0 <= i < emissive_objects@.len()
            ==> cube_wf(#[trigger] emissive_objects@[i]),
        tm_wf(*texture_manager),
    ensures
        r@.len() == width * height,
        forall|i: int| 0 <= i < r@.len()
            ==> pixel_ok(objects@, *texture_manager, *camera, *light, emissive_objects@,
                    width as int, height as int,
                    i % (width as int), i / (width as int), #[trigger] r@[i]),
{
    proof {
        assert(width * height <= 0x40000000) by (nonlinear_arith)
            requires 1 <= width <= 32768, 1 <= height <= 32768;
    }
    let total: usize = width * height;
    let mut out: Vec<Rgb> = Vec::new();
    let mut i: usize = 0;
    while i < total
        invariant
            i <= total,
            total == width * height,
            1 <= width <= 32768,
            1 <= height <= 32768,
            camera_wf(*camera),
            bvh_wf(*bvh, objects@),
            forall|k: int| 0 <= k < objects@.len() ==> cube_wf(#[trigger] objects@[k]),
            light_wf(*light),
            forall|k: int| 0 <= k < emissive_objects@.len()
                ==> cube_wf(#[trigger] emissive_objects@[k]),
            tm_wf(*texture_manager),
            out@.len() == i,
            forall|k: int| 0 <= k < i
                ==> pixel_ok(objects@, *texture_manager, *camera, *light, emissive_objects@,
                        width as int, height as int,
                        k % (width as int), k / (width as int), #[trigger] out@[k]),
        decreases total - i,
    {
        let x: usize = i % width;
        let y: usize = i / width;
        proof {
            vstd::arithmetic::div_mod::lemma_multiply_divide_lt(
                i as int, width as int, height as int);
        }
        let px: Rgb = render_pixel(
            x, y, width, height, bvh, objects, camera, light,
            emissive_objects, texture_manager);
        out.push(px);
        i = i + 1;
    }
    out
}

} // verus!
