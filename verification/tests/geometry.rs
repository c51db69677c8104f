use raytracer::fx::{fx_add, fx_div, fx_mul, fx_pow, fx_sqrt, FX_MAX, SCALE};
use raytracer::vec3::Vec3;
use raytracer::cube::Cube;
use raytracer::bvh::Bvh;
use raytracer::material::Material;
use raytracer::snell::{reflect, refract};
use raytracer::camera::Camera;

fn plain_material() -> Material {
    Material {
        diffuse: Vec3::new(500_000, 500_000, 500_000),
        texture: None,
        normal_map_id: None,
        albedo: (900_000, 100_000),
        specular: 8,
        reflectivity: 0,
        transparency: 0,
        refractive_index: SCALE,
        emission: Vec3::zero(),
    }
}

#[test]
fn fixed_point_arithmetic() {
    // 2.0 * 3.0 == 6.0
    assert_eq!(fx_mul(2_000_000, 3_000_000), 6_000_000);
    // 1.0 / 4.0 == 0.25
    assert_eq!(fx_div(1_000_000, 4_000_000), 250_000);
    // division by zero degrades to zero instead of failing
    assert_eq!(fx_div(1_000_000, 0), 0);
    // sqrt(4.0) == 2.0
    assert_eq!(fx_sqrt(4_000_000), 2_000_000);
    // 0.5 ^ 2 == 0.25
    assert_eq!(fx_pow(500_000, 2), 250_000);
    // anything ^ 0 == 1.0
    assert_eq!(fx_pow(123_456, 0), SCALE);
    // addition saturates at the representable bound
    assert_eq!(fx_add(FX_MAX, FX_MAX), FX_MAX);
}

#[test]
fn vector_operations() {
    let a = Vec3::new(3_000_000, 4_000_000, 0);
    assert_eq!(a.length(), 5_000_000);
    let n = Vec3::new(10_000_000, 0, 0).normalized();
    assert_eq!(n, Vec3::new(1_000_000, 0, 0));
    assert_eq!(Vec3::zero().normalized(), Vec3::zero());
    let d = a.dot(&Vec3::new(1_000_000, 1_000_000, 1_000_000));
    assert_eq!(d, 7_000_000);
    let c = Vec3::new(1_000_000, 0, 0).cross(&Vec3::new(0, 1_000_000, 0));
    assert_eq!(c, Vec3::new(0, 0, 1_000_000));
}

#[test]
fn axis_ray_hits_face() {
    // a unit-radius box at the origin, a ray aimed at its center along +x
    let cube = Cube::from_bounds(
        Vec3::new(-1_000_000, -1_000_000, -1_000_000),
        Vec3::new(1_000_000, 1_000_000, 1_000_000),
        plain_material(),
    );
    let origin = Vec3::new(-5_000_000, 0, 0);
    let direction = Vec3::new(1_000_000, 0, 0);
    let hit = cube.ray_intersect(&origin, &direction);
    assert!(hit.is_intersecting);
    assert!(hit.distance > 0);
    assert_eq!(hit.distance, 4_000_000);
    assert_eq!(hit.normal, Vec3::new(-1_000_000, 0, 0));
    assert_eq!(hit.point, Vec3::new(-1_000_000, 0, 0));
    // the hit is at the face's middle
    assert_eq!(hit.u, 500_000);
    assert_eq!(hit.v, 500_000);

    // the mirrored orientation: aimed back along -x from the other side
    let mirrored = cube.ray_intersect(&Vec3::new(5_000_000, 0, 0), &Vec3::new(-1_000_000, 0, 0));
    assert!(mirrored.is_intersecting);
    assert!(mirrored.distance > 0);
    assert_eq!(mirrored.distance, 4_000_000);
    assert_eq!(mirrored.normal, Vec3::new(1_000_000, 0, 0));
    assert_eq!(mirrored.point, Vec3::new(1_000_000, 0, 0));
}

#[test]
fn parallel_ray_misses() {
    let cube = Cube::from_bounds(
        Vec3::new(-1_000_000, -1_000_000, -1_000_000),
        Vec3::new(1_000_000, 1_000_000, 1_000_000),
        plain_material(),
    );
    // origin outside the x slab, direction parallel to it: the degenerate
    // axis must reject the ray rather than divide by zero
    let origin = Vec3::new(-5_000_000, 0, 0);
    let direction = Vec3::new(0, 1_000_000, 0);
    let hit = cube.ray_intersect(&origin, &direction);
    assert!(!hit.is_intersecting);
    // a ray pointing away from the box misses too
    let away = cube.ray_intersect(&origin, &Vec3::new(-1_000_000, 0, 0));
    assert!(!away.is_intersecting);
}

#[test]
fn traversal_never_omits_a_hit() {
    let mut objects: Vec<Cube> = Vec::new();
    for i in 0..8i64 {
        objects.push(Cube::new(
            Vec3::new(i * 3_000_000, 0, 0),
            2_000_000,
            plain_material(),
        ));
    }
    let bvh = Bvh::build(&objects);
    let origin = Vec3::new(-10_000_000, 0, 0);
    let direction = Vec3::new(1_000_000, 0, 0);
    let candidates = bvh.traverse(&origin, &direction, &objects);
    // the ray pierces every box in the row: each index must be a candidate
    for i in 0..8usize {
        assert!(candidates.contains(&i));
        assert!(objects[i].ray_intersect(&origin, &direction).is_intersecting);
    }
    // a perpendicular ray far away yields no narrow hit among candidates
    let off = Vec3::new(0, 50_000_000, 0);
    let side = bvh.traverse(&off, &Vec3::new(0, 0, 1_000_000), &objects);
    for idx in side {
        assert!(!objects[idx].ray_intersect(&off, &Vec3::new(0, 0, 1_000_000)).is_intersecting);
    }
}

#[test]
fn empty_scene_traversal() {
    let objects: Vec<Cube> = Vec::new();
    let bvh = Bvh::build(&objects);
    let candidates = bvh.traverse(
        &Vec3::new(0, 0, 0), &Vec3::new(0, 0, 1_000_000), &objects);
    assert!(candidates.is_empty());
}

#[test]
fn reflection_direction() {
    // a ray straight down reflects straight up about an upward normal
    let incident = Vec3::new(0, -1_000_000, 0);
    let normal = Vec3::new(0, 1_000_000, 0);
    assert_eq!(reflect(&incident, &normal), Vec3::new(0, 1_000_000, 0));
    // a 45-degree ray keeps its horizontal component
    let slanted = Vec3::new(1_000_000, -1_000_000, 0);
    assert_eq!(reflect(&slanted, &normal), Vec3::new(1_000_000, 1_000_000, 0));
}

#[test]
fn refraction_straight_through_and_total_internal() {
    let normal = Vec3::new(0, 1_000_000, 0);
    // head-on entry passes straight through
    let straight = refract(&Vec3::new(0, -1_000_000, 0), &normal, 1_500_000);
    assert_eq!(straight, Vec3::new(0, -1_000_000, 0));
    // a steep exit from the denser medium reflects internally: the
    // degenerate case yields the zero vector (no refraction contribution)
    let grazing = refract(&Vec3::new(866_025, 500_000, 0), &normal, 1_500_000);
    assert_eq!(grazing, Vec3::zero());
}

#[test]
fn camera_basis() {
    let camera = Camera::new(
        Vec3::new(0, 0, 13_000_000),
        Vec3::new(0, 0, 0),
        Vec3::new(0, 1_000_000, 0),
    );
    assert_eq!(camera.w, Vec3::new(0, 0, 1_000_000));
    assert_eq!(camera.u, Vec3::new(1_000_000, 0, 0));
    assert_eq!(camera.v, Vec3::new(0, 1_000_000, 0));
    // camera-space forward (-z) leaves toward the scene
    let d = camera.basis_change(&Vec3::new(0, 0, -1_000_000));
    assert_eq!(d, Vec3::new(0, 0, -1_000_000));
}

#[test]
fn cube_center_and_bounds() {
    let cube = Cube::new(Vec3::new(1_000_000, 2_000_000, 3_000_000), 1_000_000, plain_material());
    assert_eq!(cube.min_bounds, Vec3::new(500_000, 1_500_000, 2_500_000));
    assert_eq!(cube.max_bounds, Vec3::new(1_500_000, 2_500_000, 3_500_000));
    assert_eq!(cube.center(), Vec3::new(1_000_000, 2_000_000, 3_000_000));
}
