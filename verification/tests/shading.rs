use raytracer::fx::SCALE;
use raytracer::vec3::Vec3;
use raytracer::material::{Light, Material, Rgb, vector3_to_color};
use raytracer::ray_intersect::Intersect;
use raytracer::cube::Cube;
use raytracer::bvh::Bvh;
use raytracer::textures::{CpuTexture, SkyboxTextures, TextureManager};
use raytracer::render::{cast_ray, cast_shadow, collect_lights, render, render_pixel};
use raytracer::camera::Camera;

fn matte(diffuse: Vec3) -> Material {
    Material {
        diffuse,
        texture: None,
        normal_map_id: None,
        albedo: (900_000, 100_000),
        specular: 8,
        reflectivity: 0,
        transparency: 0,
        refractive_index: SCALE,
        emission: Vec3::zero(),
    }
}

fn emissive(emission: Vec3) -> Material {
    Material { emission, ..matte(Vec3::new(1_000_000, 300_000, 0)) }
}

fn solid_texture(color: Vec3) -> CpuTexture {
    CpuTexture::from_image(1, 1, vec![color])
}

fn surface_at(point: Vec3, normal: Vec3) -> Intersect {
    Intersect {
        is_intersecting: true,
        point,
        normal,
        distance: 1_000_000,
        material: matte(Vec3::new(500_000, 500_000, 500_000)),
        u: 0,
        v: 0,
    }
}

#[test]
fn shadow_attenuation_is_binary() {
    // an opaque unit cube floats between the surface point and the light
    let occluder = vec![Cube::new(
        Vec3::new(0, 5_000_000, 0), 2_000_000, matte(Vec3::one()))];
    let bvh = Bvh::build(&occluder);
    let surface = surface_at(Vec3::zero(), Vec3::new(0, 1_000_000, 0));
    let light = Light::new(Vec3::new(0, 10_000_000, 0), Vec3::one(), 1_000_000);
    assert_eq!(cast_shadow(&surface, &light, &bvh, &occluder), 700_000);

    // with no occluder between them the attenuation is exactly zero
    let empty: Vec<Cube> = Vec::new();
    let open_bvh = Bvh::build(&empty);
    assert_eq!(cast_shadow(&surface, &light, &open_bvh, &empty), 0);

    // an occluder beyond the light does not shadow
    let behind = vec![Cube::new(
        Vec3::new(0, 20_000_000, 0), 2_000_000, matte(Vec3::one()))];
    let behind_bvh = Bvh::build(&behind);
    assert_eq!(cast_shadow(&surface, &light, &behind_bvh, &behind), 0);
}

#[test]
fn emissive_lights_capped_at_five() {
    // seven emissive primitives near (but not degenerately near) the point
    let mut torches: Vec<Cube> = Vec::new();
    for i in 0..7i64 {
        torches.push(Cube::new(
            Vec3::new(2_000_000 + i * 2_000_000, 0, 0),
            1_000_000,
            emissive(Vec3::new(2_000_000, 1_500_000, 500_000)),
        ));
    }
    let primary = Light::new(Vec3::new(0, 10_000_000, 0), Vec3::one(), 1_000_000);
    let lights = collect_lights(&primary, &torches, Vec3::zero());
    // the primary light plus exactly five synthetic ones, in order
    assert_eq!(lights.len(), 6);
    assert_eq!(lights[1].position, torches[0].center());
    assert_eq!(lights[5].position, torches[4].center());

    // a degenerately close emitter is skipped but still counts its slot
    let mut with_close = torches.clone();
    with_close[0] = Cube::new(Vec3::new(0, 0, 0), 1_000_000, with_close[0].material);
    let fewer = collect_lights(&primary, &with_close, Vec3::zero());
    assert_eq!(fewer.len(), 5);
    assert_eq!(fewer[1].position, with_close[1].center());
}

#[test]
fn skybox_face_selection_at_boundaries() {
    let mut tm = TextureManager::new();
    let right = tm.load_texture(solid_texture(Vec3::new(100_000, 0, 0)));
    let left = tm.load_texture(solid_texture(Vec3::new(200_000, 0, 0)));
    let top = tm.load_texture(solid_texture(Vec3::new(300_000, 0, 0)));
    let bottom = tm.load_texture(solid_texture(Vec3::new(400_000, 0, 0)));
    let front = tm.load_texture(solid_texture(Vec3::new(500_000, 0, 0)));
    let back = tm.load_texture(solid_texture(Vec3::new(600_000, 0, 0)));
    tm.load_skybox(SkyboxTextures { front, back, left, right, top, bottom });

    // dominant axes pick their faces
    assert_eq!(tm.sample_skybox(Vec3::new(2_000_000, 0, 0)).x, 100_000);
    assert_eq!(tm.sample_skybox(Vec3::new(-2_000_000, 0, 0)).x, 200_000);
    assert_eq!(tm.sample_skybox(Vec3::new(0, 2_000_000, 0)).x, 300_000);
    assert_eq!(tm.sample_skybox(Vec3::new(0, -2_000_000, 0)).x, 400_000);
    assert_eq!(tm.sample_skybox(Vec3::new(0, 0, 2_000_000)).x, 500_000);
    assert_eq!(tm.sample_skybox(Vec3::new(0, 0, -2_000_000)).x, 600_000);

    // directions exactly on an axis plane select one face deterministically
    // (|x| == |y|, z == 0: the y branch wins) with no division fault
    assert_eq!(tm.sample_skybox(Vec3::new(1_000_000, 1_000_000, 0)).x, 300_000);
    // |x| == |y| == |z|: the z branch wins
    assert_eq!(tm.sample_skybox(Vec3::new(1_000_000, 1_000_000, 1_000_000)).x, 500_000);
    // the zero direction degrades to the neutral white
    assert_eq!(tm.sample_skybox(Vec3::zero()), Vec3::one());
}

#[test]
fn gradient_fallback_bands() {
    let tm = TextureManager::new();
    // straight up: past the last threshold, pure blue
    assert_eq!(
        tm.sample_skybox(Vec3::new(0, 1_000_000, 0)),
        Vec3::new(300_000, 500_000, 1_000_000),
    );
    // straight down: the bottom of the first band, pure green
    assert_eq!(
        tm.sample_skybox(Vec3::new(0, -1_000_000, 0)),
        Vec3::new(100_000, 600_000, 200_000),
    );
}

#[test]
fn texture_lookup_clamps_and_defaults() {
    let mut tm = TextureManager::new();
    let id = tm.load_texture(CpuTexture::from_image(2, 1, vec![
        Vec3::new(100_000, 0, 0),
        Vec3::new(0, 200_000, 0),
    ]));
    assert_eq!(tm.get_pixel_color(id, 0, 0), Vec3::new(100_000, 0, 0));
    assert_eq!(tm.get_pixel_color(id, 1, 0), Vec3::new(0, 200_000, 0));
    // coordinates beyond the extent clamp to the border
    assert_eq!(tm.get_pixel_color(id, 99, 99), Vec3::new(0, 200_000, 0));
    // an unknown identifier resolves to opaque white
    assert_eq!(tm.get_pixel_color(id + 7, 0, 0), Vec3::one());
}

#[test]
fn normal_map_remaps_and_normalizes() {
    let mut tm = TextureManager::new();
    let id = tm.load_texture(solid_texture(Vec3::new(1_000_000, 1_000_000, 0)));
    let n = tm.get_normal_from_map(id, 0, 0).unwrap();
    // (2*1-1, 2*1-1, 0) normalized: both components at 1/sqrt(2)
    assert_eq!(n, Vec3::new(707_107, 707_107, 0));
    assert_eq!(tm.get_normal_from_map(id + 3, 0, 0), None);
}

#[test]
fn depth_bound_returns_environment() {
    // a cube sits squarely in the ray's path, yet past the depth bound the
    // evaluator must return the environment sample untouched
    let objects = vec![Cube::new(Vec3::new(0, 0, -5_000_000), 2_000_000, matte(Vec3::one()))];
    let bvh = Bvh::build(&objects);
    let tm = TextureManager::new();
    let light = Light::new(Vec3::new(0, 10_000_000, 0), Vec3::one(), 1_000_000);
    let none: Vec<Cube> = Vec::new();
    let origin = Vec3::zero();
    let direction = Vec3::new(0, 0, -1_000_000);
    let c = cast_ray(&origin, &direction, &bvh, &objects, &light, &none, 2, &tm);
    assert_eq!(c, tm.sample_skybox(direction));
}

#[test]
fn miss_returns_environment() {
    let objects = vec![Cube::new(Vec3::new(0, 0, -5_000_000), 2_000_000, matte(Vec3::one()))];
    let bvh = Bvh::build(&objects);
    let tm = TextureManager::new();
    let light = Light::new(Vec3::new(0, 10_000_000, 0), Vec3::one(), 1_000_000);
    let none: Vec<Cube> = Vec::new();
    let origin = Vec3::zero();
    // straight up, away from all geometry
    let direction = Vec3::new(0, 1_000_000, 0);
    let c = cast_ray(&origin, &direction, &bvh, &objects, &light, &none, 0, &tm);
    assert_eq!(c, tm.sample_skybox(direction));
}

#[test]
fn zero_light_shades_black() {
    // a fully opaque, non-emissive, non-reflective, non-transparent hit
    // under a zero-intensity light and no emissive primitives
    let objects = vec![Cube::new(Vec3::new(0, 0, -5_000_000), 2_000_000,
        matte(Vec3::new(900_000, 100_000, 400_000)))];
    let bvh = Bvh::build(&objects);
    let tm = TextureManager::new();
    let dark = Light::new(Vec3::new(0, 10_000_000, 0), Vec3::one(), 0);
    let none: Vec<Cube> = Vec::new();
    let origin = Vec3::zero();
    let direction = Vec3::new(0, 0, -1_000_000);
    let c = cast_ray(&origin, &direction, &bvh, &objects, &dark, &none, 0, &tm);
    assert_eq!(c, Vec3::zero());
}

#[test]
fn emission_passes_through_unscaled() {
    // with both albedo weights zero, the shaded color is the emission alone
    let mut m = matte(Vec3::one());
    m.albedo = (0, 0);
    m.emission = Vec3::new(2_000_000, 1_000_000, 500_000);
    let objects = vec![Cube::new(Vec3::new(0, 0, -5_000_000), 2_000_000, m)];
    let bvh = Bvh::build(&objects);
    let tm = TextureManager::new();
    let light = Light::new(Vec3::new(0, 10_000_000, 0), Vec3::one(), 1_000_000);
    let origin = Vec3::zero();
    let direction = Vec3::new(0, 0, -1_000_000);
    let c = cast_ray(&origin, &direction, &bvh, &objects, &light, &objects, 0, &tm);
    assert_eq!(c, Vec3::new(2_000_000, 1_000_000, 500_000));
}

#[test]
fn tone_mapping_clamps() {
    let px = vector3_to_color(Vec3::new(500_000, 2_000_000, -1_000_000));
    assert_eq!(px, Rgb { r: 127, g: 255, b: 0 });
}

#[test]
fn render_matches_per_pixel_evaluation() {
    let objects = vec![Cube::new(Vec3::new(0, 0, -5_000_000), 2_000_000,
        matte(Vec3::new(300_000, 600_000, 900_000)))];
    let bvh = Bvh::build(&objects);
    let tm = TextureManager::new();
    let light = Light::new(Vec3::new(0, 10_000_000, 10_000_000), Vec3::one(), 800_000);
    let none: Vec<Cube> = Vec::new();
    let camera = Camera::new(
        Vec3::new(0, 0, 5_000_000), Vec3::new(0, 0, -5_000_000), Vec3::new(0, 1_000_000, 0));
    let frame = render(4, 3, &bvh, &objects, &camera, &light, &none, &tm);
    assert_eq!(frame.len(), 12);
    for i in 0..12usize {
        let px = render_pixel(i % 4, i / 4, 4, 3, &bvh, &objects, &camera, &light, &none, &tm);
        assert_eq!(frame[i], px);
    }
}

#[test]
fn reflection_blends_environment() {
    // a perfect mirror under an open sky: straight down bounces straight
    // up, and the result is exactly the environment's zenith color
    let mut mirror = matte(Vec3::one());
    mirror.albedo = (0, 0);
    mirror.reflectivity = SCALE;
    let objects = vec![Cube::new(Vec3::zero(), 2_000_000, mirror)];
    let bvh = Bvh::build(&objects);
    let tm = TextureManager::new();
    let light = Light::new(Vec3::new(0, 10_000_000, 0), Vec3::one(), 1_000_000);
    let none: Vec<Cube> = Vec::new();
    let c = cast_ray(
        &Vec3::new(0, 5_000_000, 0), &Vec3::new(0, -1_000_000, 0),
        &bvh, &objects, &light, &none, 0, &tm);
    assert_eq!(c, Vec3::new(300_000, 500_000, 1_000_000));
}

#[test]
fn refraction_blends_environment() {
    // a fully transparent box of unit refractive index: the ray passes
    // straight through and picks up the environment below
    let mut pane = matte(Vec3::one());
    pane.albedo = (0, 0);
    pane.transparency = SCALE;
    pane.refractive_index = SCALE;
    let objects = vec![Cube::new(Vec3::zero(), 2_000_000, pane)];
    let bvh = Bvh::build(&objects);
    let tm = TextureManager::new();
    let light = Light::new(Vec3::new(0, 10_000_000, 0), Vec3::one(), 1_000_000);
    let none: Vec<Cube> = Vec::new();
    let c = cast_ray(
        &Vec3::new(0, 5_000_000, 0), &Vec3::new(0, -1_000_000, 0),
        &bvh, &objects, &light, &none, 0, &tm);
    assert_eq!(c, Vec3::new(100_000, 600_000, 200_000));
}

#[test]
fn diffuse_and_specular_exact() {
    // a light straight above the top face: full diffuse cosine, full
    // specular alignment, no shadow, so every term is exact
    let mut m = matte(Vec3::new(400_000, 600_000, 800_000));
    m.albedo = (500_000, 250_000);
    m.specular = 10;
    let objects = vec![Cube::new(Vec3::zero(), 2_000_000, m)];
    let bvh = Bvh::build(&objects);
    let tm = TextureManager::new();
    let light = Light::new(
        Vec3::new(0, 10_000_000, 0), Vec3::new(1_000_000, 500_000, 250_000), 1_000_000);
    let none: Vec<Cube> = Vec::new();
    let c = cast_ray(
        &Vec3::new(0, 5_000_000, 0), &Vec3::new(0, -1_000_000, 0),
        &bvh, &objects, &light, &none, 0, &tm);
    // diffuse: base color times half; specular: light color times a quarter
    assert_eq!(c, Vec3::new(450_000, 425_000, 462_500));
}

#[test]
fn total_internal_reflection_contributes_nothing() {
    // a grazing hit on a fully transparent box whose below-one refractive
    // index forces total internal reflection: the refraction contribution
    // is disabled for the sample, and with every other term dark the
    // result is exactly the zero vector (not the environment fallback)
    let mut pane = matte(Vec3::one());
    pane.albedo = (0, 0);
    pane.transparency = SCALE;
    pane.refractive_index = 400_000;
    let objects = vec![Cube::new(Vec3::zero(), 2_000_000, pane)];
    let bvh = Bvh::build(&objects);
    let tm = TextureManager::new();
    let dark = Light::new(Vec3::new(0, 10_000_000, 0), Vec3::one(), 0);
    let none: Vec<Cube> = Vec::new();
    let c = cast_ray(
        &Vec3::new(-5_000_000, 2_000_000, 0), &Vec3::new(1_000_000, -200_000, 0),
        &bvh, &objects, &dark, &none, 0, &tm);
    assert_eq!(c, Vec3::zero());
}
