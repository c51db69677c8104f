//! Surface materials and the conversion from linear color to displayable
//! 8-bit RGB.

use vstd::prelude::*;
use crate::fx::{SCALE, FX_MAX, fx_wf, tdiv};
use crate::vec3::{Vec3, v3_wf};
use vstd::arithmetic::div_mod::{lemma_div_pos_is_pos, lemma_div_is_ordered};

verus! {

/// Per-surface optical parameters.  Scalar weights are fixed-point; the
/// specular exponent is a whole number.  Texture and normal-map references
/// are identifiers resolved by the texture provider.
#[derive(Clone, Copy, Debug)]
pub struct Material {
    /// Flat diffuse color, used when no texture is attached.
    pub diffuse: Vec3,
    /// Identifier of the diffuse texture, if any.
    pub texture: Option<usize>,
    /// Identifier of the normal map, if any.
    pub normal_map_id: Option<usize>,
    /// Diffuse and specular weighting, in that order; non-negative, not
    /// required to sum to one.
    pub albedo: (i64, i64),
    /// Specular (shininess) exponent.
    pub specular: u32,
    /// Share of the reflected recursive sample, in `[0, 1]`.
    pub reflectivity: i64,
    /// Share of the refracted recursive sample, in `[0, 1]`.
    pub transparency: i64,
    /// Refractive index, positive.
    pub refractive_index: i64,
    /// Emitted color; the zero vector means non-emissive.
    pub emission: Vec3,
}

/// Invariant of a material.
pub open spec fn material_wf(m: Material) -> bool {
    &&& v3_wf(m.diffuse)
    &&& v3_wf(m.emission)
    &&& 0 <= m.albedo.0 <= FX_MAX
    &&& 0 <= m.albedo.1 <= FX_MAX
    &&& 0 <= m.reflectivity <= SCALE
    &&& 0 <= m.transparency <= SCALE
    &&& 0 < m.refractive_index <= FX_MAX
}

/// A point light: the primary light of a frame, or a synthetic secondary
/// light derived from an emissive primitive.
#[derive(Clone, Copy, Debug)]
pub struct Light {
    pub position: Vec3,
    pub color: Vec3,
    pub intensity: i64,
}

/// Invariant of a light.
pub open spec fn light_wf(l: Light) -> bool {
    v3_wf(l.position) && v3_wf(l.color) && 0 <= l.intensity <= FX_MAX
}

impl Light {
    /// Build a light from its position, color and non-negative intensity.
    pub fn new(position: Vec3, color: Vec3, intensity: i64) -> (r: Light)
        requires
            v3_wf(position),
            v3_wf(color),
            0 <= intensity <= FX_MAX,
        ensures
            r == (Light { position, color, intensity }),
            light_wf(r),
    {
        Light { position, color, intensity }
    }
}

/// A displayable 8-bit RGB pixel.
#[derive(Clone, Copy, Debug, PartialEq, Eq, Structural)]
pub struct Rgb {
    pub r: u8,
    pub g: u8,
    pub b: u8,
}

/// The exact value tone mapping computes for one channel: clamp to one
/// whole unit, then scale into `0..=255`.
pub open spec fn tone(x: int) -> int {
    let c = if x < 0 { 0int } else if x > SCALE { SCALE as int } else { x };
    tdiv(c * 255, SCALE as int)
}

/// One channel of the displayable color.
fn tone_channel(x: i64) -> (r: u8)
    requires
        fx_wf(x),
    ensures
        r == tone(x as int),
{
    let c: i64 = if x < 0 { 0 } else if x > SCALE { SCALE } else { x };
    proof {
        lemma_div_pos_is_pos(c * 255, SCALE as int);
        lemma_div_is_ordered(c * 255, SCALE * 255, SCALE as int);
        assert(SCALE * 255 / (SCALE as int) == 255);
    }
    ((c * 255) / SCALE) as u8
}

/// Convert a linear color vector into a displayable pixel; this is the
/// clamping boundary at pixel-write time.
pub fn vector3_to_color(v: Vec3) -> (r: Rgb)
    requires
        v3_wf(v),
    ensures
        r.r == tone(v.x as int),
        r.g == tone(v.y as int),
        r.b == tone(v.z as int),
{
    Rgb { r: tone_channel(v.x), g: tone_channel(v.y), b: tone_channel(v.z) }
}

} // verus!
