//! The texture provider: pre-decoded pixel tables addressed by identifier,
//! nearest-pixel lookup, normal maps, and the environment sampler (a
//! six-face direction-mapped skybox with a procedural gradient fallback).
//!
//! Decoding image files is the surrounding program's business; the core
//! receives plain pixel arrays and resolves identifiers to them.

use vstd::prelude::*;
use crate::fx::{SCALE, FX_MAX, fx_wf, sat, tdiv, tdiv_i128, fdiv, fmul, fx_div};
use crate::vec3::{Vec3, v3_wf, vadd, vscale, vnormalize};
use crate::cube::{clamp_unit, prod128};
use vstd::arithmetic::div_mod::{lemma_div_pos_is_pos, lemma_div_is_ordered, lemma_div_multiples_vanish};

verus! {

/// A decoded texture: normalized RGB pixels in row-major order.
pub struct CpuTexture {
    pub width: usize,
    pub height: usize,
    pub pixels: Vec<Vec3>,
}

/// Invariant of a decoded texture: positive extent, one pixel per cell,
/// channels within one unit.
pub open spec fn tex_wf(t: CpuTexture) -> bool {
    &&& 1 <= t.width
    &&& 1 <= t.height
    &&& t.width * t.height == t.pixels@.len()
    &&& t.pixels@.len() <= usize::MAX
    &&& forall|i: int| 0 <= i < t.pixels@.len()
        ==> 0 <= (#[trigger] t.pixels@[i]).x <= SCALE
            && 0 <= t.pixels@[i].y <= SCALE && 0 <= t.pixels@[i].z <= SCALE
}

impl CpuTexture {
    /// Assemble a decoded texture from its extent and pixel rows.
    pub fn from_image(width: usize, height: usize, pixels: Vec<Vec3>) -> (r: CpuTexture)
        requires
            1 <= width,
            1 <= height,
            width * height == pixels@.len(),
            forall|i: int| 0 <= i < pixels@.len()
                ==> 0 <= (#[trigger] pixels@[i]).x <= SCALE
                    && 0 <= pixels@[i].y <= SCALE && 0 <= pixels@[i].z <= SCALE,
        ensures
            r.width == width,
            r.height == height,
            r.pixels == pixels,
            tex_wf(r),
    {
        let n: usize = pixels.len();
        assert(pixels@.len() == n);
        CpuTexture { width, height, pixels }
    }
}

/// The six face identifiers of a skybox, each naming a loaded texture.
#[derive(Clone, Copy, Debug)]
pub struct SkyboxTextures {
    pub front: usize,
    pub back: usize,
    pub left: usize,
    pub right: usize,
    pub top: usize,
    pub bottom: usize,
}

/// The texture provider: loaded textures by identifier, and the optional
/// skybox configuration.
pub struct TextureManager {
    pub cpu_textures: Vec<CpuTexture>,
    pub skybox_textures: Option<SkyboxTextures>,
}

/// Invariant of the provider: every loaded texture is well formed.
pub open spec fn tm_wf(tm: TextureManager) -> bool {
    forall|i: int| 0 <= i < tm.cpu_textures@.len() ==> tex_wf(#[trigger] tm.cpu_textures@[i])
}

/// The neutral fallback color: opaque white.
pub open spec fn white() -> Vec3 {
    Vec3 { x: SCALE, y: SCALE, z: SCALE }
}

/// The exact pixel lookup: clamp the coordinates into the texture's
/// extent; an unknown identifier falls back to white.
pub open spec fn pixel_color_spec(tm: TextureManager, id: int, tx: int, ty: int) -> Vec3 {
    if 0 <= id < tm.cpu_textures@.len() {
        let t = tm.cpu_textures@[id];
        let x = if tx >= t.width - 1 { t.width - 1 } else { tx };
        let y = if ty >= t.height - 1 { t.height - 1 } else { ty };
        t.pixels@[y * t.width + x]
    } else {
        white()
    }
}

/// The exact normal-map lookup: the stored color's first two channels are
/// remapped from the unit interval onto both signs, then normalized; an
/// unknown identifier has no normal.
pub open spec fn normal_map_spec(tm: TextureManager, id: int, tx: int, ty: int) -> Option<Vec3> {
    if 0 <= id < tm.cpu_textures@.len() {
        let c = pixel_color_spec(tm, id, tx, ty);
        Some(vnormalize(Vec3 {
            x: sat(2 * c.x - SCALE) as i64,
            y: sat(2 * c.y - SCALE) as i64,
            z: c.z,
        }))
    } else {
        None
    }
}

/// Magnitude of a scalar.
pub open spec fn iabs(x: int) -> int {
    if x >= 0 { x } else { -x }
}

/// A face-local coordinate: `num / dom * 0.5 + 0.5`, clamped into the
/// unit interval; `dom` is the dominant component's magnitude.
pub open spec fn uv_map(num: int, dom: int) -> int {
    clamp_unit(tdiv(num * SCALE, 2 * dom) + (SCALE as int) / 2)
}

/// Which skybox face a direction selects, and its face-local coordinates:
/// the dominant absolute component picks the face, the other two
/// components divide by it.  The zero direction selects no face.
pub open spec fn skybox_face_uv(sb: SkyboxTextures, d: Vec3) -> Option<(int, int, int)> {
    let ax = iabs(d.x as int);
    let ay = iabs(d.y as int);
    let az = iabs(d.z as int);
    if ax > ay && ax > az {
        if d.x > 0 {
            Some((sb.right as int, uv_map(-d.z as int, ax), uv_map(-d.y as int, ax)))
        } else {
            Some((sb.left as int, uv_map(d.z as int, ax), uv_map(-d.y as int, ax)))
        }
    } else if ay > az {
        if d.y > 0 {
            Some((sb.top as int, uv_map(d.x as int, ay), uv_map(-d.z as int, ay)))
        } else {
            Some((sb.bottom as int, uv_map(d.x as int, ay), uv_map(d.z as int, ay)))
        }
    } else if az > 0 {
        if d.z > 0 {
            Some((sb.front as int, uv_map(d.x as int, az), uv_map(-d.y as int, az)))
        } else {
            Some((sb.back as int, uv_map(-d.x as int, az), uv_map(-d.y as int, az)))
        }
    } else {
        None
    }
}

/// The exact color of the procedural gradient fallback: three linear
/// bands from green through white to blue over the direction's height.
pub open spec fn gradient_spec(d: Vec3) -> Vec3 {
    let dn = vnormalize(d);
    let t = tdiv(sat(dn.y + SCALE), 2);
    let green = Vec3 { x: 100_000, y: 600_000, z: 200_000 };
    let blue = Vec3 { x: 300_000, y: 500_000, z: SCALE };
    if t < 540_000 {
        let k = fdiv(t, 550_000);
        vadd(vscale(green, sat(SCALE - k)), vscale(white(), k))
    } else if t < 550_000 {
        white()
    } else if t < 800_000 {
        let k = fdiv(t - 550_000, 250_000);
        vadd(vscale(white(), sat(SCALE - k)), vscale(blue, k))
    } else {
        blue
    }
}

/// The exact environment sample: the configured skybox face's nearest
/// pixel, white where a face is degenerate or missing, else the gradient.
pub open spec fn skybox_spec(tm: TextureManager, d: Vec3) -> Vec3 {
    if tm.skybox_textures is Some {
        let sb = tm.skybox_textures->Some_0;
        match skybox_face_uv(sb, d) {
            Some(fuv) => {
                let id = fuv.0;
                if 0 <= id < tm.cpu_textures@.len() {
                    let t = tm.cpu_textures@[id];
                    let tx = tdiv(fuv.1 * (t.width - 1), SCALE as int);
                    let ty = tdiv(fuv.2 * (t.height - 1), SCALE as int);
                    t.pixels@[ty * t.width + tx]
                } else {
                    white()
                }
            },
            None => white(),
        }
    } else {
        gradient_spec(d)
    }
}

/// Scale a unit-interval coordinate onto `0..=limit`.
pub(crate) fn coord_to_pixel(c: i64, limit: usize) -> (r: usize)
    requires
        0 <= c <= SCALE,
    ensures
        r == tdiv(c * limit, SCALE as int),
        r <= limit,
{
    proof {
        assert(0 <= (c as int) * (limit as int) <= (SCALE as int) * (limit as int))
            by (nonlinear_arith)
            requires 0 <= c <= SCALE, 0 <= limit as int;
        lemma_div_pos_is_pos(c * limit, SCALE as int);
        lemma_div_is_ordered(c * limit, (SCALE as int) * (limit as int), SCALE as int);
        lemma_div_multiples_vanish(limit as int, SCALE as int);
    }
    let p: i128 = (c as i128) * (limit as i128);
    ((p / (SCALE as i128)) as usize)
}

impl TextureManager {
    /// An empty provider: no textures, no skybox.
    pub fn new() -> (r: TextureManager)
        ensures
            r.cpu_textures@.len() == 0,
            r.skybox_textures is None,
            tm_wf(r),
    {
        TextureManager::default()
    }

    /// Register a decoded texture and hand back its identifier.
    pub fn load_texture(&mut self, texture: CpuTexture) -> (id: usize)
        requires
            tm_wf(*old(self)),
            tex_wf(texture),
        ensures
            tm_wf(*final(self)),
            final(self).cpu_textures@ == old(self).cpu_textures@.push(texture),
            final(self).skybox_textures == old(self).skybox_textures,
            id == old(self).cpu_textures@.len(),
    {
        let id: usize = self.cpu_textures.len();
        self.cpu_textures.push(texture);
        id
    }

    /// Configure the skybox from six loaded face identifiers.
    pub fn load_skybox(&mut self, skybox: SkyboxTextures)
        requires
            tm_wf(*old(self)),
        ensures
            tm_wf(*final(self)),
            final(self).cpu_textures@ == old(self).cpu_textures@,
            final(self).skybox_textures == Some(skybox),
    {
        self.skybox_textures = Some(skybox);
    }

    /// Resolve an identifier to its decoded texture.
    pub fn get_texture(&self, id: usize) -> (r: Option<&CpuTexture>)
        requires
            tm_wf(*self),
        ensures
            id < self.cpu_textures@.len() ==> r == Some(&self.cpu_textures@[id as int]),
            id >= self.cpu_textures@.len() ==> r is None,
    {
        if id < self.cpu_textures.len() {
            Some(&self.cpu_textures[id])
        } else {
            None
        }
    }

    /// Nearest-pixel lookup, clamped to the texture's extent; unknown
    /// identifiers give opaque white.
    pub fn get_pixel_color(&self, id: usize, tx: usize, ty: usize) -> (r: Vec3)
        requires
            tm_wf(*self),
        ensures
            r == pixel_color_spec(*self, id as int, tx as int, ty as int),
            v3_wf(r),
            0 <= r.x <= SCALE && 0 <= r.y <= SCALE && 0 <= r.z <= SCALE,
    {
        if id < self.cpu_textures.len() {
            let t = &self.cpu_textures[id];
            assert(tex_wf(self.cpu_textures@[id as int]));
            let x: usize = if tx >= t.width - 1 { t.width - 1 } else { tx };
            let y: usize = if ty >= t.height - 1 { t.height - 1 } else { ty };
            proof {
                lemma_cell_in_range(t.width as int, t.height as int, x as int, y as int);
            }
            t.pixels[y * t.width + x]
        } else {
            Vec3 { x: SCALE, y: SCALE, z: SCALE }
        }
    }

    /// Normal-map lookup: remap the stored color onto both signs and
    /// normalize; `None` for an unknown identifier.
    pub fn get_normal_from_map(&self, id: usize, tx: usize, ty: usize) -> (r: Option<Vec3>)
        requires
            tm_wf(*self),
        ensures
            r == normal_map_spec(*self, id as int, tx as int, ty as int),
            r is Some ==> v3_wf(r->Some_0),
    {
        if id < self.cpu_textures.len() {
            let c: Vec3 = self.get_pixel_color(id, tx, ty);
            let raw = Vec3 {
                x: crate::fx::fx_sub(crate::fx::fx_mul(2 * SCALE, c.x), SCALE),
                y: crate::fx::fx_sub(crate::fx::fx_mul(2 * SCALE, c.y), SCALE),
                z: c.z,
            };
            proof {
                lemma_remap_channel(c.x as int);
                lemma_remap_channel(c.y as int);
            }
            Some(raw.normalized())
        } else {
            None
        }
    }

    /// Sample the environment in a direction: the configured skybox's
    /// face pixel, or the procedural gradient when none is configured.
    #[verifier::rlimit(100)]
    pub fn sample_skybox(&self, direction: Vec3) -> (r: Vec3)
        requires
            tm_wf(*self),
            v3_wf(direction),
        ensures
            r == skybox_spec(*self, direction),
            v3_wf(r),
    {
        let sb: SkyboxTextures = match &self.skybox_textures {
            Some(s) => *s,
            None => {
                return self.gradient(direction);
            },
        };
        let d = direction;
        let ax: i64 = if d.x >= 0 { d.x } else { -d.x };
        let ay: i64 = if d.y >= 0 { d.y } else { -d.y };
        let az: i64 = if d.z >= 0 { d.z } else { -d.z };
        let (id, u, v): (usize, i64, i64) = if ax > ay && ax > az {
            if d.x > 0 {
                (sb.right, uv_map_exec(-d.z, ax), uv_map_exec(-d.y, ax))
            } else {
                (sb.left, uv_map_exec(d.z, ax), uv_map_exec(-d.y, ax))
            }
        } else if ay > az {
            if d.y > 0 {
                (sb.top, uv_map_exec(d.x, ay), uv_map_exec(-d.z, ay))
            } else {
                (sb.bottom, uv_map_exec(d.x, ay), uv_map_exec(d.z, ay))
            }
        } else if az > 0 {
            if d.z > 0 {
                (sb.front, uv_map_exec(d.x, az), uv_map_exec(-d.y, az))
            } else {
                (sb.back, uv_map_exec(-d.x, az), uv_map_exec(-d.y, az))
            }
        } else {
            return Vec3 { x: SCALE, y: SCALE, z: SCALE };
        };
        if id < self.cpu_textures.len() {
            let t = &self.cpu_textures[id];
            assert(tex_wf(self.cpu_textures@[id as int]));
            let tx: usize = coord_to_pixel(u, t.width - 1);
            let ty: usize = coord_to_pixel(v, t.height - 1);
            proof {
                lemma_cell_in_range(t.width as int, t.height as int, tx as int, ty as int);
            }
            t.pixels[ty * t.width + tx]
        } else {
            Vec3 { x: SCALE, y: SCALE, z: SCALE }
        }
    }

    /// The procedural gradient fallback.
    fn gradient(&self, direction: Vec3) -> (r: Vec3)
        requires
            v3_wf(direction),
        ensures
            r == gradient_spec(direction),
            v3_wf(r),
    {
        let dn: Vec3 = direction.normalized();
        let s: i64 = crate::fx::fx_add(dn.y, SCALE);
        proof {
            lemma_div_pos_is_pos(s as int, 2);
        }
        let t: i64 = s / 2;
        let green = Vec3 { x: 100_000, y: 600_000, z: 200_000 };
        let blue = Vec3 { x: 300_000, y: 500_000, z: SCALE };
        let w = Vec3 { x: SCALE, y: SCALE, z: SCALE };
        if t < 540_000 {
            let k: i64 = fx_div(t, 550_000);
            green.scaled(crate::fx::fx_sub(SCALE, k)).plus(&w.scaled(k))
        } else if t < 550_000 {
            w
        } else if t < 800_000 {
            let k: i64 = fx_div(t - 550_000, 250_000);
            w.scaled(crate::fx::fx_sub(SCALE, k)).plus(&blue.scaled(k))
        } else {
            blue
        }
    }
}

impl Default for TextureManager {
    /// An empty provider: no textures, no skybox.
    fn default() -> (r: TextureManager)
        ensures
            r.cpu_textures@.len() == 0,
            r.skybox_textures is None,
            tm_wf(r),
    {
        TextureManager { cpu_textures: Vec::new(), skybox_textures: None }
    }
}

/// A clamped cell always addresses a pixel of a well-formed texture.
proof fn lemma_cell_in_range(w: int, h: int, x: int, y: int)
    requires
        1 <= w,
        1 <= h,
        0 <= x <= w - 1,
        0 <= y <= h - 1,
    ensures
        0 <= y * w + x < w * h,
        y * w + x <= (h - 1) * w + (w - 1),
{
    assert(0 <= y * w + x && y * w + x <= (h - 1) * w + (w - 1) && (h - 1) * w + (w - 1) < w * h)
        by (nonlinear_arith)
        requires 1 <= w, 1 <= h, 0 <= x <= w - 1, 0 <= y <= h - 1;
}

/// Remapping a unit channel onto both signs stays well formed, and the
/// saturating pipeline computes exactly the linear remap.
proof fn lemma_remap_channel(c: int)
    requires
        0 <= c <= SCALE,
    ensures
        fmul(2 * SCALE, c) == 2 * c,
        sat(2 * c - SCALE) == 2 * c - SCALE,
{
    assert((2 * SCALE) * c == (SCALE as int) * (2 * c)) by (nonlinear_arith);
    lemma_div_multiples_vanish(2 * c, SCALE as int);
}

/// Map a component ratio onto a face-local unit coordinate.
fn uv_map_exec(num: i64, dom: i64) -> (r: i64)
    requires
        -FX_MAX <= num <= FX_MAX,
        0 < dom <= FX_MAX,
    ensures
        r == uv_map(num as int, dom as int),
        0 <= r <= SCALE,
{
    let p: i128 = prod128(num as i128, SCALE as i128);
    let q: i128 = tdiv_i128(p, 2 * (dom as i128));
    let shifted: i128 = q + (SCALE as i128) / 2;
    if shifted < 0 {
        0
    } else if shifted > SCALE as i128 {
        SCALE
    } else {
        shifted as i64
    }
}

} // verus!
