use raytrace::fixed::{FX_MAX, HALF, ONE};
use raytrace::hittable_list::HittableList;
use raytrace::materials::{Lambertian, Material};
use raytrace::ray::Ray;
use raytrace::sphere::Sphere;
use raytrace::vec3::Vector3;

fn grey() -> Material {
    Material::Lambertian(Lambertian { albedo: Vector3::new(HALF, HALF, HALF) })
}

#[test]
fn sphere_hit_head_on() {
    // centre (0,0,-1), radius 0.5, a ray from the origin straight at it
    let s = Sphere::new(Vector3::new(0, 0, -ONE), HALF, grey());
    let r = Ray::new(Vector3::new(0, 0, 0), Vector3::new(0, 0, -ONE));
    let hit = s.hit(&r, 66, FX_MAX).expect("must hit");
    assert_eq!(hit.t, HALF);
    assert_eq!(hit.p, Vector3::new(0, 0, -HALF));
    assert_eq!(hit.normal, Vector3::new(0, 0, ONE));
    assert!(hit.front_face);
}

#[test]
fn sphere_hit_normal_opposes_ray() {
    // the stored normal opposes the ray, from outside and from inside
    let s = Sphere::new(Vector3::new(0, 0, -ONE), HALF, grey());
    let outside = Ray::new(Vector3::new(0, 0, 0), Vector3::new(0, 0, -ONE));
    let h1 = s.hit(&outside, 66, FX_MAX).expect("must hit");
    assert!(outside.direction.dot(h1.normal) < 0);
    assert!(h1.front_face);

    let inside = Ray::new(Vector3::new(0, 0, -ONE), Vector3::new(0, 0, -ONE));
    let h2 = s.hit(&inside, 66, FX_MAX).expect("must hit");
    assert_eq!(h2.t, HALF);
    assert_eq!(h2.normal, Vector3::new(0, 0, ONE));
    assert!(!h2.front_face);
    assert!(inside.direction.dot(h2.normal) < 0);
}

#[test]
fn sphere_miss_and_interval() {
    let s = Sphere::new(Vector3::new(0, 0, -ONE), HALF, grey());
    // pointing away: both roots negative
    let away = Ray::new(Vector3::new(0, 0, 0), Vector3::new(0, 0, ONE));
    assert!(s.hit(&away, 66, FX_MAX).is_none());
    // upper bound below the first root
    let toward = Ray::new(Vector3::new(0, 0, 0), Vector3::new(0, 0, -ONE));
    assert!(s.hit(&toward, 66, HALF - 1).is_none());
    // lower bound at the root: the interval is open below, so the far
    // root of the same sphere is reported instead
    let grazing = s.hit(&toward, HALF, FX_MAX).expect("far root");
    assert_eq!(grazing.t, 3 * HALF);
}

#[test]
fn scene_returns_nearest_hit_in_any_order() {
    // the scene answer equals the minimum of the individual answers
    let near = Sphere::new(Vector3::new(0, 0, -ONE), HALF, grey());
    let far = Sphere::new(Vector3::new(0, 0, -2 * ONE), HALF, grey());
    let r = Ray::new(Vector3::new(0, 0, 0), Vector3::new(0, 0, -ONE));

    let t_near = near.hit(&r, 66, FX_MAX).expect("near").t;
    let t_far = far.hit(&r, 66, FX_MAX).expect("far").t;
    assert_eq!(t_near, HALF);
    assert_eq!(t_far, 3 * HALF);

    let mut world_a = HittableList::new();
    world_a.add(near);
    world_a.add(far);
    let ha = world_a.hit(&r, 66, FX_MAX).expect("scene hit");
    assert_eq!(ha.t, t_near.min(t_far));

    let mut world_b = HittableList::new();
    world_b.add(far);
    world_b.add(near);
    let hb = world_b.hit(&r, 66, FX_MAX).expect("scene hit");
    assert_eq!(hb.t, t_near.min(t_far));
}

#[test]
fn scene_empty_and_all_missing() {
    let world = HittableList::new();
    let r = Ray::new(Vector3::new(0, 0, 0), Vector3::new(0, 0, -ONE));
    assert!(world.hit(&r, 66, FX_MAX).is_none());

    let mut missed = HittableList::new();
    missed.add(Sphere::new(Vector3::new(0, 0, -ONE), HALF, grey()));
    let up = Ray::new(Vector3::new(0, 0, 0), Vector3::new(0, ONE, 0));
    assert!(missed.hit(&up, 66, FX_MAX).is_none());
    missed.clear();
}

#[test]
fn degenerate_direction_reports_no_hit() {
    // a direction whose squared length rounds to zero cannot intersect
    let s = Sphere::new(Vector3::new(0, 0, -ONE), HALF, grey());
    let still = Ray::new(Vector3::new(0, 0, 0), Vector3::new(0, 0, 0));
    assert!(s.hit(&still, 66, FX_MAX).is_none());
    // 100 steps squared is below one step: also degenerate
    let tiny = Ray::new(Vector3::new(0, 0, 0), Vector3::new(100, 0, 0));
    assert!(s.hit(&tiny, 66, FX_MAX).is_none());
}

#[test]
fn vector_arithmetic() {
    let a = Vector3::new(ONE, 2 * ONE, 3 * ONE);
    let b = Vector3::new(-ONE, HALF, 0);
    assert_eq!(a.add(b), Vector3::new(0, 2 * ONE + HALF, 3 * ONE));
    assert_eq!(a.sub(b), Vector3::new(2 * ONE, 3 * HALF, 3 * ONE));
    assert_eq!(a.neg(), Vector3::new(-ONE, -2 * ONE, -3 * ONE));
    assert_eq!(a.scale(HALF), Vector3::new(HALF, ONE, 3 * HALF));
    assert_eq!(a.mul(b), Vector3::new(-ONE, ONE, 0));
    assert_eq!(a.div(2 * ONE), Vector3::new(HALF, ONE, 3 * HALF));
    assert_eq!(a.dot(b), -ONE + ONE + 0);
    // (1,0,0) x (0,1,0) = (0,0,1)
    let x = Vector3::new(ONE, 0, 0);
    let y = Vector3::new(0, ONE, 0);
    assert_eq!(x.cross(y), Vector3::new(0, 0, ONE));
    // length of (3,4,0)/5 scaled: |(3,4,0)| = 5
    let v = Vector3::new(3 * ONE, 4 * ONE, 0);
    assert_eq!(v.length_squared(), 25 * ONE);
    assert_eq!(v.length(), 5 * ONE);
    assert_eq!(v.normalized(), Vector3::new(39321, 52428, 0));
}
