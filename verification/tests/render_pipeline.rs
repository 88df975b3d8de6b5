use raytrace::camera::Camera;
use raytrace::color::encode_color;
use raytrace::fixed::{HALF, ONE};
use raytrace::hittable_list::HittableList;
use raytrace::materials::{Lambertian, Material};
use raytrace::ray::Ray;
use raytrace::rng::rng_from_seed;
use raytrace::sphere::Sphere;
use raytrace::tracer::{ray_color, render};
use raytrace::vec3::Vector3;

fn one_sphere_world() -> HittableList {
    let mut world = HittableList::new();
    world.add(Sphere::new(
        Vector3::new(0, 0, -ONE),
        2 * ONE,
        Material::Lambertian(Lambertian { albedo: Vector3::new(HALF, HALF, HALF) }),
    ));
    world
}

#[test]
fn ray_color_depth_zero_is_black() {
    // the depth budget alone decides: scene and ray are irrelevant
    let world = one_sphere_world();
    let mut rng = rng_from_seed(1);
    let r = Ray::new(Vector3::new(0, 0, 0), Vector3::new(0, 0, -ONE));
    assert_eq!(ray_color(&r, &world, 0, &mut rng), Vector3::new(0, 0, 0));
    let empty = HittableList::new();
    let up = Ray::new(Vector3::new(ONE, ONE, ONE), Vector3::new(0, ONE, 0));
    assert_eq!(ray_color(&up, &empty, 0, &mut rng), Vector3::new(0, 0, 0));
}

#[test]
fn ray_color_background_gradient() {
    let empty = HittableList::new();
    let mut rng = rng_from_seed(1);
    // horizontal ray: halfway between white and sky-blue
    let level = Ray::new(Vector3::new(0, 0, 0), Vector3::new(0, 0, -ONE));
    assert_eq!(ray_color(&level, &empty, 8, &mut rng), Vector3::new(49152, 55705, ONE));
    // straight up: the full sky colour
    let up = Ray::new(Vector3::new(0, 0, 0), Vector3::new(0, ONE, 0));
    assert_eq!(ray_color(&up, &empty, 8, &mut rng), Vector3::new(HALF, 45875, ONE));
    // straight down: plain white
    let down = Ray::new(Vector3::new(0, 0, 0), Vector3::new(0, -ONE, 0));
    assert_eq!(ray_color(&down, &empty, 8, &mut rng), Vector3::new(ONE, ONE, ONE));
}

#[test]
fn ray_color_exhausted_bounce_is_black() {
    // with depth one, the single diffuse bounce recurses into the depth-zero
    // black, and black attenuated by any albedo stays black
    let world = one_sphere_world();
    let mut rng = rng_from_seed(3);
    let r = Ray::new(Vector3::new(0, 0, 0), Vector3::new(0, 0, -ONE));
    assert_eq!(ray_color(&r, &world, 1, &mut rng), Vector3::new(0, 0, 0));
}

#[test]
fn ray_color_degenerate_direction_is_black() {
    let world = one_sphere_world();
    let mut rng = rng_from_seed(5);
    let still = Ray::new(Vector3::new(0, 0, 0), Vector3::new(0, 0, 0));
    assert_eq!(ray_color(&still, &world, 8, &mut rng), Vector3::new(0, 0, 0));
}

#[test]
fn encode_color_full_white_round_trip() {
    // mean (1,1,1) after four samples encodes to 255 on every channel
    let summed = Vector3::new(4 * ONE, 4 * ONE, 4 * ONE);
    assert_eq!(encode_color(summed, 4), (255, 255, 255));
}

#[test]
fn encode_color_gamma_and_clamp() {
    // black stays black
    assert_eq!(encode_color(Vector3::new(0, 0, 0), 1), (0, 0, 0));
    // linear one quarter has mean sqrt 0.5: channel 128
    assert_eq!(encode_color(Vector3::new(ONE / 4, ONE / 4, ONE / 4), 1), (128, 128, 128));
    // values beyond one clamp to 255; negatives clamp to zero
    assert_eq!(encode_color(Vector3::new(100 * ONE, -ONE, ONE), 1), (255, 0, 255));
}

#[test]
fn camera_default_center_ray() {
    let camera = Camera::default();
    // the frame centre looks straight down the axis
    let center = camera.get_ray(HALF, HALF);
    assert_eq!(center.origin, Vector3::new(0, 0, 0));
    assert_eq!(center.direction, Vector3::new(0, 0, -ONE));
    // the lower-left corner: half the viewport left and down, focal ahead
    let corner = camera.get_ray(0, 0);
    assert_eq!(corner.direction, Vector3::new(-116508, -ONE, -ONE));
}

#[test]
fn render_is_deterministic_for_a_seed() {
    // a 2x2 image of one diffuse sphere filling the frame, with a seeded
    // generator: identical output across runs of the same sequence
    let world = one_sphere_world();
    let camera = Camera::default();
    let mut rng_a = rng_from_seed(42);
    let first = render(&world, &camera, 2, 2, 4, 8, &mut rng_a);
    let mut rng_b = rng_from_seed(42);
    let second = render(&world, &camera, 2, 2, 4, 8, &mut rng_b);
    assert_eq!(first.len(), 4);
    assert_eq!(first, second);
    // the sphere encloses the camera, so no pixel shows the background;
    // a diffuse grey sphere lit by nothing converges toward darkness
    let mut rng_c = rng_from_seed(43);
    let third = render(&world, &camera, 2, 2, 4, 8, &mut rng_c);
    assert_eq!(third.len(), 4);
}
