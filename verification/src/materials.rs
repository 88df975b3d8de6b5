//! The three light-scattering models, as one closed sum type.
//!
//! A scatter call answers whether the surface absorbs the ray, and if not,
//! with which scattered ray and attenuation the path continues. Sampling
//! noise is drawn from the injected generator, so each contract quantifies
//! over the drawn point and pins everything else down exactly.

use vstd::prelude::*;
use crate::fixed::{
    fx_add, fx_add_sp, fx_div, fx_div_sp, fx_mul, fx_mul_sp, fx_sqrt, fx_sqrt_sp, fx_sub,
    fx_sub_sp, lemma_fx_div_nonneg, lemma_fx_mul_one, lemma_fx_mul_zero, lemma_sqrt_unique, ONE,
    TWO,
};
use crate::hittable::HitRecord;
use crate::ray::{Ray, RayS};
use crate::rng::rng_range;
use crate::vec3::{
    lemma_scale_len_sq_bound, random_in_unit_sphere, unit_sample, v3_add, v3_dot, v3_len_sq,
    v3_neg, v3_ok, v3_scale, v3_sub, v3_unit, Vector3, V3,
};

verus! {

#[derive(Clone, Copy)]
pub struct Lambertian {
    pub albedo: Vector3,
}

#[derive(Clone, Copy)]
pub struct Metal {
    pub albedo: Vector3,
    pub fuzz: i64,
}

#[derive(Clone, Copy)]
pub struct Dielectric {
    pub refraction_index: i64,
}

/// The closed set of materials a surface can carry.
#[derive(Clone, Copy)]
pub enum Material {
    Lambertian(Lambertian),
    Metal(Metal),
    Dielectric(Dielectric),
}

/// The model of a scatter result.
pub open spec fn scatter_view(r: Option<(Ray, Vector3)>) -> Option<(RayS, V3)> {
    match r {
        Some((ray, attenuation)) => Some((ray@, attenuation@)),
        None => None,
    }
}

/// The fully transmissive attenuation.
pub open spec fn white_v3() -> V3 {
    V3 { x: ONE as int, y: ONE as int, z: ONE as int }
}

/// Mirror reflection of `v` about the normal `n`.
pub open spec fn reflect_sp(v: V3, n: V3) -> V3 {
    v3_sub(v, v3_scale(fx_mul_sp(TWO as int, v3_dot(n, v)), n))
}

/// Snell refraction of the unit direction `uv` at normal `n`, split into
/// perpendicular and parallel parts. The parallel part's radicand is held
/// at zero when rounding pushes the perpendicular part past unit length.
pub open spec fn refract_sp(uv: V3, n: V3, etai_over_etat: int) -> V3 {
    let d = v3_dot(n, v3_neg(uv));
    let cos_theta = if d < ONE as int {
        d
    } else {
        ONE as int
    };
    let perp = v3_scale(etai_over_etat, v3_add(uv, v3_scale(cos_theta, n)));
    let k0 = fx_sub_sp(ONE as int, v3_len_sq(perp));
    let k = if k0 < 0 {
        0
    } else {
        k0
    };
    v3_add(perp, v3_scale(fx_sqrt_sp(k), v3_neg(n)))
}

pub open spec fn pow5_sp(x: int) -> int {
    fx_mul_sp(fx_mul_sp(fx_mul_sp(fx_mul_sp(x, x), x), x), x)
}

/// Schlick's reflectance approximation.
pub open spec fn reflectance_sp(cosine: int, ref_idx: int) -> int {
    let q = fx_div_sp(fx_sub_sp(ONE as int, ref_idx), fx_add_sp(ONE as int, ref_idx));
    let r0 = fx_mul_sp(q, q);
    fx_add_sp(r0, fx_mul_sp(fx_sub_sp(ONE as int, r0), pow5_sp(fx_sub_sp(ONE as int, cosine))))
}

pub fn reflect(v: Vector3, n: Vector3) -> (r: Vector3)
    ensures
        r@ == reflect_sp(v@, n@),
{
    v.sub(n.scale(fx_mul(TWO, n.dot(v))))
}

pub fn refract(uv: Vector3, n: Vector3, etai_over_etat: i64) -> (r: Vector3)
    ensures
        r@ == refract_sp(uv@, n@, etai_over_etat as int),
{
    let d = n.dot(uv.neg());
    let cos_theta = if d < ONE {
        d
    } else {
        ONE
    };
    let r_out_perp = uv.add(n.scale(cos_theta)).scale(etai_over_etat);
    let k0 = fx_sub(ONE, r_out_perp.length_squared());
    let k = if k0 < 0 {
        0
    } else {
        k0
    };
    let r_out_parallel = n.neg().scale(fx_sqrt(k));
    r_out_perp.add(r_out_parallel)
}

pub fn reflectance(cosine: i64, ref_idx: i64) -> (r: i64)
    requires
        ref_idx >= 0,
    ensures
        r as int == reflectance_sp(cosine as int, ref_idx as int),
{
    let denominator = fx_add(ONE, ref_idx);
    let q = fx_div(fx_sub(ONE, ref_idx), denominator);
    let r0 = fx_mul(q, q);
    fx_add(r0, fx_mul(fx_sub(ONE, r0), pow5(fx_sub(ONE, cosine))))
}

fn pow5(x: i64) -> (r: i64)
    ensures
        r as int == pow5_sp(x as int),
{
    fx_mul(fx_mul(fx_mul(fx_mul(x, x), x), x), x)
}

/// The diffuse scatter direction: the stored normal plus the drawn point,
/// except that an exactly vanishing sum falls back to the bare normal.
pub open spec fn lambertian_dir(normal: V3, s: V3) -> V3 {
    let d = v3_add(normal, s);
    if d.x == 0 && d.y == 0 && d.z == 0 {
        normal
    } else {
        d
    }
}

/// What a diffuse scatter may return: always a ray from the hit point,
/// attenuated by the albedo, for some drawn point.
pub open spec fn lambertian_post(l: Lambertian, p: V3, normal: V3, r: Option<(RayS, V3)>) -> bool {
    exists|s: V3|
        #[trigger] unit_sample(s) && r == Some(
            ((RayS { origin: p, direction: lambertian_dir(normal, s) }), l.albedo@),
        )
}

/// What a metal scatter may return: the mirror reflection of the unit
/// incoming direction, fuzzed by the drawn point, kept only when it leaves
/// the surface on the outside; with no fuzz the reflection is exact.
pub open spec fn metal_post(m: Metal, ray: RayS, p: V3, normal: V3, r: Option<(RayS, V3)>) -> bool {
    let refl = reflect_sp(v3_unit(ray.direction), normal);
    if v3_dot(refl, normal) > 0 {
        (exists|s: V3|
            #[trigger] unit_sample(s) && r == Some(
                ((RayS { origin: p, direction: v3_add(refl, v3_scale(m.fuzz as int, s)) }),
                m.albedo@),
            )) && (m.fuzz == 0 ==> r == Some(((RayS { origin: p, direction: refl }), m.albedo@)))
    } else {
        r is None
    }
}

/// The refraction ratio a dielectric uses on the given face.
pub open spec fn dielectric_ratio(d: Dielectric, front_face: bool) -> int {
    if front_face {
        fx_div_sp(ONE as int, d.refraction_index as int)
    } else {
        d.refraction_index as int
    }
}

/// Whether Snell's law has no solution (total internal reflection).
pub open spec fn dielectric_cannot_refract(u: V3, normal: V3, ratio: int) -> bool {
    let d = v3_dot(normal, v3_neg(u));
    let cos_theta = if d < ONE as int {
        d
    } else {
        ONE as int
    };
    let s0 = fx_sub_sp(ONE as int, fx_mul_sp(cos_theta, cos_theta));
    let s1 = if s0 < 0 {
        0
    } else {
        s0
    };
    fx_mul_sp(ratio, fx_sqrt_sp(s1)) > ONE as int
}

/// The direction a dielectric scatters to, given the Schlick draw `w`.
pub open spec fn dielectric_dir(u: V3, normal: V3, ratio: int, w: int) -> V3 {
    let d = v3_dot(normal, v3_neg(u));
    let cos_theta = if d < ONE as int {
        d
    } else {
        ONE as int
    };
    if dielectric_cannot_refract(u, normal, ratio) || reflectance_sp(cos_theta, ratio) > w {
        reflect_sp(u, normal)
    } else {
        refract_sp(u, normal, ratio)
    }
}

/// What a dielectric scatter may return: always a ray from the hit point
/// with unit attenuation; under total internal reflection, exactly the
/// mirror reflection.
pub open spec fn dielectric_post(
    d: Dielectric,
    ray: RayS,
    p: V3,
    normal: V3,
    front_face: bool,
    r: Option<(RayS, V3)>,
) -> bool {
    let ratio = dielectric_ratio(d, front_face);
    let u = v3_unit(ray.direction);
    (exists|w: int|
        0 <= w < ONE as int && r == Some(
            ((RayS { origin: p, direction: #[trigger] dielectric_dir(u, normal, ratio, w) }),
            white_v3()),
        )) && (dielectric_cannot_refract(u, normal, ratio) ==> r == Some(
        ((RayS { origin: p, direction: reflect_sp(u, normal) }), white_v3()),
    ))
}

/// The metal fuzz perturbation is at most the fuzz scalar times a vector of
/// the unit ball: for any draw the sampler can hand out, the perturbation's
/// squared length, brought to the common scale, is bounded by the square of
/// the fuzz scalar up to eleven steps of rounding.
pub proof fn lemma_metal_fuzz_bound(fuzz: int, s: V3)
    requires
        0 <= fuzz,
        unit_sample(s),
    ensures
        v3_len_sq(v3_scale(fuzz, s)) * (ONE as int) * (ONE as int) <= fuzz * fuzz * (
        ONE as int + 11),
{
    lemma_scale_len_sq_bound(fuzz, s);
    assert(fuzz * fuzz >= 0) by (nonlinear_arith);
    assert(fuzz * fuzz * (v3_len_sq(s) + 3) <= fuzz * fuzz * (ONE as int + 11)) by (nonlinear_arith)
        requires
            v3_len_sq(s) + 3 <= ONE as int + 11,
            fuzz * fuzz >= 0,
    ;
}

/// A dielectric whose refraction ratio is one transmits a normal-incidence
/// ray without bending: the refracted direction equals the incoming unit
/// direction, and no Schlick draw makes it reflect instead.
pub proof fn lemma_dielectric_identity(u: V3, normal: V3, w: int)
    requires
        v3_ok(normal),
        u == v3_neg(normal),
        v3_dot(normal, normal) >= ONE as int,
        0 <= w < ONE as int,
    ensures
        refract_sp(u, normal, ONE as int) == u,
        dielectric_dir(u, normal, ONE as int, w) == u,
{
    lemma_fx_mul_one(normal.x);
    lemma_fx_mul_one(normal.y);
    lemma_fx_mul_one(normal.z);
    lemma_fx_mul_one(u.x);
    lemma_fx_mul_one(u.y);
    lemma_fx_mul_one(u.z);
    assert(v3_neg(u) == normal);
    assert(v3_dot(normal, v3_neg(u)) >= ONE as int);
    let sum = v3_add(u, v3_scale(ONE as int, normal));
    assert(sum == (V3 { x: 0, y: 0, z: 0 }));
    lemma_fx_mul_zero(0);
    let perp = v3_scale(ONE as int, sum);
    assert(perp == (V3 { x: 0, y: 0, z: 0 }));
    assert(v3_len_sq(perp) == 0);
    assert(fx_sub_sp(ONE as int, 0) == ONE as int);
    assert(65536nat * 65536nat <= 4294967296nat) by (nonlinear_arith);
    assert(4294967296nat < 65537nat * 65537nat) by (nonlinear_arith);
    lemma_sqrt_unique(4294967296nat, 65536nat);
    assert(fx_sqrt_sp(ONE as int) == ONE as int);
    assert(v3_scale(ONE as int, v3_neg(normal)) == u);
    assert(refract_sp(u, normal, ONE as int) == v3_add(perp, u));
    assert(v3_add(perp, u) == u);

    // total internal reflection cannot occur: the sine term is zero
    assert(fx_mul_sp(ONE as int, ONE as int) == ONE as int);
    assert(0nat * 0nat <= 0nat) by (nonlinear_arith);
    assert(0nat < 1nat * 1nat) by (nonlinear_arith);
    lemma_sqrt_unique(0nat, 0nat);
    lemma_fx_mul_zero(ONE as int);
    assert(!dielectric_cannot_refract(u, normal, ONE as int));

    // the Schlick reflectance at ratio one is exactly zero
    assert(fx_sub_sp(ONE as int, ONE as int) == 0);
    assert(fx_add_sp(ONE as int, ONE as int) == 131072);
    assert(fx_div_sp(0, 131072) == 0);
    assert(pow5_sp(0) == 0);
    assert(reflectance_sp(ONE as int, ONE as int) == 0);
}

impl Lambertian {
    pub fn scatter(&self, _ray: &Ray, rec: &HitRecord, rng: &mut rand::rngs::StdRng) -> (r: Option<
        (Ray, Vector3),
    >)
        ensures
            lambertian_post(*self, rec@.p, rec@.normal, scatter_view(r)),
    {
        let s = random_in_unit_sphere(rng);
        let mut scatter_direction = rec.normal.add(s);
        if scatter_direction.x == 0 && scatter_direction.y == 0 && scatter_direction.z == 0 {
            scatter_direction = rec.normal;
        }
        let out = Some((Ray::new(rec.p, scatter_direction), self.albedo));
        proof {
            assert(unit_sample(s@) && scatter_view(out) == Some(
                ((RayS { origin: rec@.p, direction: lambertian_dir(rec@.normal, s@) }),
                self.albedo@),
            ));
        }
        out
    }
}

impl Metal {
    pub fn scatter(&self, ray: &Ray, rec: &HitRecord, rng: &mut rand::rngs::StdRng) -> (r: Option<
        (Ray, Vector3),
    >)
        requires
            v3_len_sq(ray@.direction) > 0,
            self.fuzz >= 0,
        ensures
            metal_post(*self, ray@, rec@.p, rec@.normal, scatter_view(r)),
    {
        let reflected = reflect(ray.direction.normalized(), rec.normal);
        if reflected.dot(rec.normal) > 0 {
            let s = random_in_unit_sphere(rng);
            let scattered = Ray::new(rec.p, reflected.add(s.scale(self.fuzz)));
            let out = Some((scattered, self.albedo));
            proof {
                let refl = reflect_sp(v3_unit(ray@.direction), rec@.normal);
                assert(unit_sample(s@) && scatter_view(out) == Some(
                    ((RayS {
                        origin: rec@.p,
                        direction: v3_add(refl, v3_scale(self.fuzz as int, s@)),
                    }), self.albedo@),
                ));
                if self.fuzz == 0 {
                    lemma_fx_mul_zero(s@.x);
                    lemma_fx_mul_zero(s@.y);
                    lemma_fx_mul_zero(s@.z);
                    assert(v3_add(refl, v3_scale(0, s@)) == refl);
                }
            }
            out
        } else {
            None
        }
    }
}

impl Dielectric {
    pub fn scatter(&self, ray: &Ray, rec: &HitRecord, rng: &mut rand::rngs::StdRng) -> (r: Option<
        (Ray, Vector3),
    >)
        requires
            v3_len_sq(ray@.direction) > 0,
            self.refraction_index > 0,
        ensures
            dielectric_post(*self, ray@, rec@.p, rec@.normal, rec@.front_face, scatter_view(r)),
    {
        let refraction_ratio = if rec.front_face {
            fx_div(ONE, self.refraction_index)
        } else {
            self.refraction_index
        };
        proof {
            lemma_fx_div_nonneg(ONE as int, self.refraction_index as int);
        }
        let unit_direction = ray.direction.normalized();
        let d0 = rec.normal.dot(unit_direction.neg());
        let cos_theta = if d0 < ONE {
            d0
        } else {
            ONE
        };
        let s0 = fx_sub(ONE, fx_mul(cos_theta, cos_theta));
        let s1 = if s0 < 0 {
            0
        } else {
            s0
        };
        let sin_theta = fx_sqrt(s1);
        let cannot_refract = fx_mul(refraction_ratio, sin_theta) > ONE;
        let w = rng_range(rng, 0, ONE);
        let direction = if cannot_refract || reflectance(cos_theta, refraction_ratio) > w {
            reflect(unit_direction, rec.normal)
        } else {
            refract(unit_direction, rec.normal, refraction_ratio)
        };
        let out = Some((Ray::new(rec.p, direction), Vector3::new(ONE, ONE, ONE)));
        proof {
            let ratio = dielectric_ratio(*self, rec@.front_face);
            let u = v3_unit(ray@.direction);
            assert(0 <= w < ONE as int && scatter_view(out) == Some(
                ((RayS { origin: rec@.p, direction: dielectric_dir(u, rec@.normal, ratio, w as int) }),
                white_v3()),
            ));
        }
        out
    }
}

impl Material {
    /// Well-formed material data, as the data model requires.
    pub open spec fn wf(self) -> bool {
        match self {
            Material::Lambertian(_) => true,
            Material::Metal(m) => m.fuzz >= 0,
            Material::Dielectric(d) => d.refraction_index > 0,
        }
    }

    /// What scattering may return, by variant.
    pub open spec fn scatter_post(
        self,
        ray: RayS,
        p: V3,
        normal: V3,
        front_face: bool,
        r: Option<(RayS, V3)>,
    ) -> bool {
        match self {
            Material::Lambertian(l) => lambertian_post(l, p, normal, r),
            Material::Metal(m) => metal_post(m, ray, p, normal, r),
            Material::Dielectric(d) => dielectric_post(d, ray, p, normal, front_face, r),
        }
    }

    pub fn scatter(&self, ray: &Ray, rec: &HitRecord, rng: &mut rand::rngs::StdRng) -> (r: Option<
        (Ray, Vector3),
    >)
        requires
            self.wf(),
            v3_len_sq(ray@.direction) > 0,
        ensures
            self.scatter_post(ray@, rec@.p, rec@.normal, rec@.front_face, scatter_view(r)),
    {
        match self {
            Material::Lambertian(l) => l.scatter(ray, rec, rng),
            Material::Metal(m) => m.scatter(ray, rec, rng),
            Material::Dielectric(d) => d.scatter(ray, rec, rng),
        }
    }
}

} // verus!
