use raytrace::fixed::{HALF, ONE, TWO};
use raytrace::hittable::HitRecord;
use raytrace::materials::{
    reflect, reflectance, refract, Dielectric, Lambertian, Material, Metal,
};
use raytrace::ray::Ray;
use raytrace::rng::rng_from_seed;
use raytrace::vec3::{random_in_unit_sphere, Vector3};

fn record(normal: Vector3, front_face: bool, material: Material) -> HitRecord {
    HitRecord { p: Vector3::new(0, 0, -HALF), normal, t: HALF, front_face, material }
}

#[test]
fn reflect_is_mirror() {
    // reflecting (0,0,-1) about (0,0,1) gives (0,0,1)
    assert_eq!(
        reflect(Vector3::new(0, 0, -ONE), Vector3::new(0, 0, ONE)),
        Vector3::new(0, 0, ONE)
    );
    // a 45-degree bounce: (1,-1,0) about (0,1,0) gives (1,1,0)
    assert_eq!(
        reflect(Vector3::new(ONE, -ONE, 0), Vector3::new(0, ONE, 0)),
        Vector3::new(ONE, ONE, 0)
    );
}

#[test]
fn metal_zero_fuzz_scatters_exact_mirror() {
    let albedo = Vector3::new(HALF, HALF, HALF);
    let metal = Metal { albedo, fuzz: 0 };
    let rec = record(Vector3::new(0, 0, ONE), true, Material::Metal(metal));
    let ray = Ray::new(Vector3::new(0, 0, 0), Vector3::new(0, 0, -ONE));
    let mut rng = rng_from_seed(7);
    let (scattered, attenuation) = metal.scatter(&ray, &rec, &mut rng).expect("must scatter");
    assert_eq!(scattered.origin, rec.p);
    assert_eq!(scattered.direction, Vector3::new(0, 0, ONE));
    assert_eq!(attenuation, albedo);
}

#[test]
fn metal_absorbs_reflection_into_surface() {
    let metal = Metal { albedo: Vector3::new(ONE, ONE, ONE), fuzz: 0 };
    // a normal pointing along the ray: the reflection leaves on the wrong side
    let rec = record(Vector3::new(0, 0, -ONE), false, Material::Metal(metal));
    let ray = Ray::new(Vector3::new(0, 0, 0), Vector3::new(0, 0, -ONE));
    let mut rng = rng_from_seed(7);
    assert!(metal.scatter(&ray, &rec, &mut rng).is_none());
}

#[test]
fn lambertian_always_scatters_with_albedo() {
    let albedo = Vector3::new(45875, HALF, ONE);
    let lambertian = Lambertian { albedo };
    let rec = record(Vector3::new(0, 0, ONE), true, Material::Lambertian(lambertian));
    let ray = Ray::new(Vector3::new(0, 0, 0), Vector3::new(0, 0, -ONE));
    let mut rng = rng_from_seed(11);
    for _ in 0..32 {
        let (scattered, attenuation) = lambertian.scatter(&ray, &rec, &mut rng).expect(
            "diffuse never absorbs",
        );
        assert_eq!(attenuation, albedo);
        assert_eq!(scattered.origin, rec.p);
        // direction = normal + sample, each sample coordinate within one unit
        assert!((scattered.direction.x).abs() <= ONE);
        assert!((scattered.direction.y).abs() <= ONE);
        assert!((scattered.direction.z - ONE).abs() <= ONE);
    }
}

#[test]
fn dielectric_index_one_transmits_unbent() {
    // refraction index one: normal incidence passes straight through,
    // whatever the Schlick draw
    let glass = Dielectric { refraction_index: ONE };
    let ray = Ray::new(Vector3::new(0, 0, 0), Vector3::new(0, 0, -ONE));
    let mut rng = rng_from_seed(13);
    for front_face in [true, false] {
        let rec = record(Vector3::new(0, 0, ONE), front_face, Material::Dielectric(glass));
        for _ in 0..16 {
            let (scattered, attenuation) = glass.scatter(&ray, &rec, &mut rng).expect(
                "dielectric never absorbs",
            );
            assert_eq!(attenuation, Vector3::new(ONE, ONE, ONE));
            assert_eq!(scattered.direction, ray.direction);
            assert_eq!(scattered.origin, rec.p);
        }
    }
}

#[test]
fn refract_bends_into_denser_medium() {
    // entering glass (ratio 1/1.5 ~ 0.6667 ~ 43690/65536) at 45 degrees
    let uv = Vector3::new(46340, 0, -46341).normalized();
    let n = Vector3::new(0, 0, ONE);
    let out = refract(uv, n, 43690);
    // the transmitted ray bends toward the normal: |x| shrinks, still downward
    assert!(out.x > 0 && out.x < uv.x);
    assert!(out.z < 0);
}

#[test]
fn reflectance_endpoints() {
    // ratio one: zero reflectance head-on, total reflectance at grazing
    assert_eq!(reflectance(ONE, ONE), 0);
    assert_eq!(reflectance(0, ONE), ONE);
    // ratio 2: r0 = ((1-2)/(1+2))^2 ~ 1/9; head-on reflectance is r0
    assert_eq!(reflectance(ONE, TWO), fx_ninth());
}

fn fx_ninth() -> i64 {
    // ((1-2)/(1+2))^2 computed in fixed point: -65536*65536/196608 truncates
    // toward zero to -21845, and its square rescales to 21845^2/65536
    let third: i64 = 65536 * 65536 / 196608;
    third * third / 65536
}

#[test]
fn unit_sphere_samples_stay_bounded() {
    // every draw lies in the unit ball, up to eight steps of rounding on
    // the squared length, not merely in the surrounding cube
    let mut rng = rng_from_seed(99);
    for _ in 0..256 {
        let p = random_in_unit_sphere(&mut rng);
        assert!(p.x.abs() <= ONE);
        assert!(p.y.abs() <= ONE);
        assert!(p.z.abs() <= ONE);
        assert!(p.length_squared() <= ONE + 8);
    }
}

#[test]
fn metal_fuzz_perturbation_stays_within_fuzz() {
    // with fuzz one half, the scattered direction differs from the mirror
    // reflection by a vector whose squared length is at most fuzz squared,
    // up to rounding: (1/2)^2 + a few steps
    let albedo = Vector3::new(HALF, HALF, HALF);
    let metal = Metal { albedo, fuzz: HALF };
    let rec = record(Vector3::new(0, 0, ONE), true, Material::Metal(metal));
    let ray = Ray::new(Vector3::new(0, 0, 0), Vector3::new(0, 0, -ONE));
    let mirror = Vector3::new(0, 0, ONE);
    let mut rng = rng_from_seed(21);
    for _ in 0..64 {
        let (scattered, _) = metal.scatter(&ray, &rec, &mut rng).expect("head-on metal scatters");
        let perturbation = scattered.direction.sub(mirror);
        assert!(perturbation.length_squared() <= ONE / 4 + 3);
    }
}
