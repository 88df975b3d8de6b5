//! The recursive path-tracing integrator and the sampling loop.

use vstd::prelude::*;
use crate::camera::{camera_ray_sp, Camera, CameraS};
use crate::color::encode_color;
use crate::fixed::{fx_add, fx_add_sp, fx_div, fx_from_u32, fx_mul, fx_mul_sp, fx_sub, fx_sub_sp,
    FX_MAX, HALF, ONE};
use crate::hittable::HitRec;
use crate::hittable_list::{scene_hit_sp, HittableList};
use crate::materials::{reflect_sp, white_v3, Material};
use crate::ray::{Ray, RayS};
use crate::rng::rng_range;
use crate::sphere::Sphere;
use crate::vec3::{v3_add, v3_compmul, v3_dot, v3_len_sq, v3_scale, v3_unit, Vector3, V3};

verus! {

/// The lower intersection bound: about a thousandth of a unit, so a
/// scattered ray cannot re-hit the surface it just left.
pub const T_EPS: i64 = 66;

pub open spec fn black_v3() -> V3 {
    V3 { x: 0, y: 0, z: 0 }
}

/// The sky-blue the background fades to overhead.
pub open spec fn sky_v3() -> V3 {
    V3 { x: HALF as int, y: 45875, z: ONE as int }
}

/// The background gradient: white to sky-blue by the unit direction's
/// height, remapped from `[-1, 1]` to `[0, 1]`.
pub open spec fn background_sp(ray: RayS) -> V3 {
    let unit_direction = v3_unit(ray.direction);
    let t = fx_mul_sp(HALF as int, fx_add_sp(unit_direction.y, ONE as int));
    v3_add(v3_scale(fx_sub_sp(ONE as int, t), white_v3()), v3_scale(t, sky_v3()))
}

/// A scatter step the material's contract allows: scattered ray and
/// attenuation for the given hit.
pub open spec fn scatter_outcome(ray: RayS, h: HitRec, sray: RayS, att: V3) -> bool {
    h.material.scatter_post(ray, h.p, h.normal, h.front_face, Some((sray, att)))
}

/// One unwinding of the integrator, with the drawn noise written out:
/// each step records the scattered ray, the attenuation, and the deeper
/// estimate the step composed. The colour is black at exhausted depth or a
/// degenerate direction; exactly the background gradient on a miss; and on
/// a hit, either black because the material absorbed the ray, or the head
/// step's attenuation times its deeper estimate, which the remaining steps
/// must themselves explain one level down.
pub open spec fn trace_post(
    ray: RayS,
    objs: Seq<Sphere>,
    depth: int,
    steps: Seq<(RayS, V3, V3)>,
    c: V3,
) -> bool
    decreases depth,
{
    if depth <= 0 || v3_len_sq(ray.direction) == 0 {
        c == black_v3()
    } else {
        match scene_hit_sp(objs, ray, T_EPS as int, FX_MAX as int) {
            None => c == background_sp(ray),
            Some(h) => (h.material.scatter_post(ray, h.p, h.normal, h.front_face, None) && c
                == black_v3()) || (steps.len() > 0 && scatter_outcome(
                ray,
                h,
                steps[0].0,
                steps[0].1,
            ) && trace_post(steps[0].0, objs, depth - 1, steps.drop_first(), steps[0].2) && c
                == v3_compmul(steps[0].1, steps[0].2)),
        }
    }
}

/// What the radiance estimate may be: some unwinding of the integrator
/// explains it. Only the drawn noise is quantified, through the steps;
/// everything else is fixed by the scatter contracts.
pub open spec fn ray_color_post(ray: RayS, objs: Seq<Sphere>, depth: int, c: V3) -> bool {
    exists|steps: Seq<(RayS, V3, V3)>| #[trigger] trace_post(ray, objs, depth, steps, c)
}

/// The radiance estimate for one ray: black once the depth budget is
/// spent, the background where nothing is hit, and otherwise the scatter
/// attenuation times the scattered ray's own estimate. A ray whose
/// direction rounds to zero length carries no light.
#[verifier::rlimit(100)]
#[verifier::spinoff_prover]
pub fn ray_color(ray: &Ray, world: &HittableList, depth: u8, rng: &mut rand::rngs::StdRng) -> (c:
    Vector3)
    requires
        world.wf(),
    ensures
        depth == 0 ==> c@ == black_v3(),
        depth > 0 && v3_len_sq(ray@.direction) == 0 ==> c@ == black_v3(),
        (depth > 0 && v3_len_sq(ray@.direction) > 0 && scene_hit_sp(
            world.objects@,
            ray@,
            T_EPS as int,
            FX_MAX as int,
        ) is None) ==> c@ == background_sp(ray@),
        (depth > 0 && v3_len_sq(ray@.direction) > 0 && (scene_hit_sp(
            world.objects@,
            ray@,
            T_EPS as int,
            FX_MAX as int,
        ) matches Some(h) && h.material matches Material::Metal(_) && v3_dot(
            reflect_sp(v3_unit(ray@.direction), h.normal),
            h.normal,
        ) <= 0)) ==> c@ == black_v3(),
        ray_color_post(ray@, world.objects@, depth as int, c@),
    decreases depth,
{
    if depth == 0 {
        let c = Vector3::new(0, 0, 0);
        proof {
            assert(trace_post(
                ray@,
                world.objects@,
                depth as int,
                Seq::<(RayS, V3, V3)>::empty(),
                c@,
            ));
        }
        return c;
    }
    let ls = ray.direction.length_squared();
    if ls == 0 {
        let c = Vector3::new(0, 0, 0);
        proof {
            assert(trace_post(
                ray@,
                world.objects@,
                depth as int,
                Seq::<(RayS, V3, V3)>::empty(),
                c@,
            ));
        }
        return c;
    }
    if let Some(hit) = world.hit(ray, T_EPS, FX_MAX) {
        if let Some((scattered, attenuation)) = hit.material.scatter(ray, &hit, rng) {
            let rest = ray_color(&scattered, world, depth - 1, rng);
            let c = attenuation.mul(rest);
            proof {
                assert(scene_hit_sp(world.objects@, ray@, T_EPS as int, FX_MAX as int) == Some(
                    hit@,
                ));
                assert(scatter_outcome(ray@, hit@, scattered@, attenuation@) && c@ == v3_compmul(
                    attenuation@,
                    rest@,
                ));
                let steps_rest = choose|st: Seq<(RayS, V3, V3)>|
                    #[trigger] trace_post(scattered@, world.objects@, depth as int - 1, st, rest@);
                let steps = seq![(scattered@, attenuation@, rest@)] + steps_rest;
                assert(steps.len() == 1 + steps_rest.len());
                assert(steps[0] == (scattered@, attenuation@, rest@));
                assert(steps.drop_first() =~= steps_rest);
                assert(trace_post(ray@, world.objects@, depth as int, steps, c@));
            }
            c
        } else {
            let c = Vector3::new(0, 0, 0);
            proof {
                assert(scene_hit_sp(world.objects@, ray@, T_EPS as int, FX_MAX as int) == Some(
                    hit@,
                ));
                assert(trace_post(
                    ray@,
                    world.objects@,
                    depth as int,
                    Seq::<(RayS, V3, V3)>::empty(),
                    c@,
                ));
            }
            c
        }
    } else {
        let unit_direction = ray.direction.normalized();
        let t = fx_mul(HALF, fx_add(unit_direction.y, ONE));
        let c = Vector3::new(ONE, ONE, ONE).scale(fx_sub(ONE, t)).add(
            Vector3::new(HALF, 45875, ONE).scale(t),
        );
        proof {
            assert(trace_post(
                ray@,
                world.objects@,
                depth as int,
                Seq::<(RayS, V3, V3)>::empty(),
                c@,
            ));
        }
        c
    }
}

/// A run of per-pixel samples, with the drawn frame positions and the
/// running sums written out: each entry records a frame position, an
/// estimate the integrator allows for the camera ray through it, and the
/// sum so far after adding that estimate.
pub open spec fn sample_trace_ok(
    objs: Seq<Sphere>,
    cam: CameraS,
    depth: int,
    picks: Seq<(int, int, V3, V3)>,
) -> bool
    decreases picks.len(),
{
    if picks.len() == 0 {
        true
    } else {
        let e = picks.last();
        sample_trace_ok(objs, cam, depth, picks.drop_last()) && ray_color_post(
            camera_ray_sp(cam, e.0, e.1),
            objs,
            depth,
            e.2,
        ) && e.3 == v3_add(sample_trace_sum(picks.drop_last()), e.2)
    }
}

/// The accumulated colour a run of samples reaches.
pub open spec fn sample_trace_sum(picks: Seq<(int, int, V3, V3)>) -> V3 {
    if picks.len() == 0 {
        black_v3()
    } else {
        picks.last().3
    }
}

/// What a rendered pixel may be: the encoding, over the sample count, of a
/// colour accumulated by that many integrator estimates, each for a camera
/// ray of this camera over this scene.
pub open spec fn pixel_post(
    px: (u8, u8, u8),
    objs: Seq<Sphere>,
    cam: CameraS,
    depth: int,
    samples: int,
) -> bool {
    exists|picks: Seq<(int, int, V3, V3)>|
        #![trigger sample_trace_ok(objs, cam, depth, picks)]
        picks.len() == samples && sample_trace_ok(objs, cam, depth, picks) && (
        px.0 as int,
        px.1 as int,
        px.2 as int,
        ) == crate::color::encode_color_sp(sample_trace_sum(picks), samples)
}

/// Render the scene row by row from the top, summing the given number of
/// samples per pixel and encoding each sum; one channel triple per pixel.
#[verifier::rlimit(100)]
#[verifier::spinoff_prover]
pub fn render(
    world: &HittableList,
    camera: &Camera,
    image_width: u32,
    image_height: u32,
    samples_per_pixel: u8,
    max_depth: u8,
    rng: &mut rand::rngs::StdRng,
) -> (pixels: Vec<(u8, u8, u8)>)
    requires
        world.wf(),
        image_width >= 2,
        image_height >= 2,
        samples_per_pixel >= 1,
    ensures
        pixels@.len() == image_width as int * image_height as int,
        forall|k: int|
            0 <= k < pixels@.len() ==> #[trigger] pixel_post(
                pixels@[k],
                world.objects@,
                camera@,
                max_depth as int,
                samples_per_pixel as int,
            ),
{
    let mut pixels: Vec<(u8, u8, u8)> = Vec::new();
    let du_w = fx_from_u32(image_width - 1);
    let dv_h = fx_from_u32(image_height - 1);
    let mut j: u32 = image_height;
    while j > 0
        invariant
            j <= image_height,
            pixels@.len() == (image_height - j) as int * image_width as int,
            world.wf(),
            image_width >= 2,
            image_height >= 2,
            samples_per_pixel >= 1,
            du_w > 0,
            dv_h > 0,
            forall|k: int|
                0 <= k < pixels@.len() ==> #[trigger] pixel_post(
                    pixels@[k],
                    world.objects@,
                    camera@,
                    max_depth as int,
                    samples_per_pixel as int,
                ),
        decreases j,
    {
        j -= 1;
        let mut i: u32 = 0;
        while i < image_width
            invariant
                i <= image_width,
                j < image_height,
                pixels@.len() == (image_height - j - 1) as int * image_width as int + i as int,
                world.wf(),
                image_width >= 2,
                image_height >= 2,
                samples_per_pixel >= 1,
                du_w > 0,
                dv_h > 0,
                forall|k: int|
                    0 <= k < pixels@.len() ==> #[trigger] pixel_post(
                        pixels@[k],
                        world.objects@,
                        camera@,
                        max_depth as int,
                        samples_per_pixel as int,
                    ),
            decreases image_width - i,
        {
            let mut pixel_color = Vector3::new(0, 0, 0);
            let ghost mut picks: Seq<(int, int, V3, V3)> = Seq::empty();
            let mut s: u8 = 0;
            while s < samples_per_pixel
                invariant
                    world.wf(),
                    du_w > 0,
                    dv_h > 0,
                    j < image_height,
                    i < image_width,
                    s <= samples_per_pixel,
                    picks.len() == s as int,
                    sample_trace_ok(world.objects@, camera@, max_depth as int, picks),
                    pixel_color@ == sample_trace_sum(picks),
                decreases samples_per_pixel - s,
            {
                let u = fx_div(fx_add(fx_from_u32(i), rng_range(rng, 0, ONE)), du_w);
                let v = fx_div(fx_add(fx_from_u32(j), rng_range(rng, 0, ONE)), dv_h);
                let ray = camera.get_ray(u, v);
                let sample_color = ray_color(&ray, world, max_depth, rng);
                pixel_color = pixel_color.add(sample_color);
                proof {
                    let e = (u as int, v as int, sample_color@, pixel_color@);
                    let picks2 = picks.push(e);
                    assert(picks2.drop_last() =~= picks);
                    assert(picks2.last() == e);
                    picks = picks2;
                }
                s += 1;
            }
            let px = encode_color(pixel_color, samples_per_pixel);
            proof {
                assert(pixel_post(
                    px,
                    world.objects@,
                    camera@,
                    max_depth as int,
                    samples_per_pixel as int,
                ));
            }
            pixels.push(px);
            i += 1;
        }
        proof {
            assert((image_height - j - 1) as int * image_width as int + image_width as int == (
            image_height - j) as int * image_width as int) by (nonlinear_arith);
        }
    }
    proof {
        assert(image_height as int * image_width as int == image_width as int
            * image_height as int) by (nonlinear_arith);
    }
    pixels
}

} // verus!
