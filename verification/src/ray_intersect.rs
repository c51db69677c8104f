//! The per-query intersection record handed from the geometry to shading.

use vstd::prelude::*;
use crate::fx::fx_wf;
use crate::vec3::{Vec3, v3_wf};
use crate::material::{Material, material_wf};
use crate::fx::SCALE;

verus! {

/// The result of one ray/primitive intersection query: constructed fresh
/// per query and discarded after shading.
#[derive(Clone, Copy, Debug)]
pub struct Intersect {
    /// Whether the ray hits the primitive.
    pub is_intersecting: bool,
    /// Hit point on the surface.
    pub point: Vec3,
    /// Outward-facing axis-aligned unit normal of the hit face.
    pub normal: Vec3,
    /// Ray parameter of the hit, non-negative.
    pub distance: i64,
    /// Copy of the hit primitive's material.
    pub material: Material,
    /// Texture coordinates on the hit face, each within one unit.
    pub u: i64,
    pub v: i64,
}

/// Invariant of an intersection record.
pub open spec fn intersect_wf(i: Intersect) -> bool {
    &&& v3_wf(i.point)
    &&& v3_wf(i.normal)
    &&& fx_wf(i.distance)
    &&& material_wf(i.material)
    &&& fx_wf(i.u)
    &&& fx_wf(i.v)
}

impl Intersect {
    /// A fresh record meaning "no hit", carrying a neutral material.
    pub fn empty() -> (r: Intersect)
        ensures
            r.is_intersecting == false,
            r.point == (Vec3 { x: 0i64, y: 0i64, z: 0i64 }),
            r.normal == (Vec3 { x: 0i64, y: 0i64, z: 0i64 }),
            r.distance == 0i64,
            r.u == 0i64,
            r.v == 0i64,
            intersect_wf(r),
    {
        Intersect {
            is_intersecting: false,
            point: Vec3 { x: 0, y: 0, z: 0 },
            normal: Vec3 { x: 0, y: 0, z: 0 },
            distance: 0,
            material: Material {
                diffuse: Vec3 { x: 0, y: 0, z: 0 },
                texture: None,
                normal_map_id: None,
                albedo: (0, 0),
                specular: 0,
                reflectivity: 0,
                transparency: 0,
                refractive_index: SCALE,
                emission: Vec3 { x: 0, y: 0, z: 0 },
            },
            u: 0,
            v: 0,
        }
    }
}

} // verus!
