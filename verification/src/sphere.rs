//! Spheres and their closed-form quadratic intersection.

use vstd::prelude::*;
use crate::fixed::{
    fx_add, fx_add_sp, fx_div, fx_div_sp, fx_mul, fx_mul_sp, fx_neg, fx_neg_sp, fx_sqrt,
    fx_sqrt_sp, fx_sub, fx_sub_sp,
};
use crate::hittable::{face_normal_sp, is_front_face, lemma_face_normal_opposes, HitRec, HitRecord};
use crate::materials::Material;
use crate::ray::{ray_at_sp, Ray, RayS};
use crate::vec3::{v3_divs, v3_dot, v3_len_sq, v3_ok, v3_sub, Vector3, V3};

verus! {

/// The model of a sphere.
pub ghost struct SphereS {
    pub center: V3,
    pub radius: int,
    pub material: Material,
}

#[derive(Clone, Copy)]
pub struct Sphere {
    pub center: Vector3,
    pub radius: i64,
    pub material: Material,
}

impl View for Sphere {
    type V = SphereS;

    open spec fn view(&self) -> SphereS {
        SphereS { center: self.center@, radius: self.radius as int, material: self.material }
    }
}

/// The record reported when the ray meets the sphere at parameter `root`.
pub open spec fn hit_rec_at(s: SphereS, ray: RayS, root: int) -> HitRec {
    let p = ray_at_sp(ray, root);
    let outward = v3_divs(v3_sub(p, s.center), s.radius);
    HitRec {
        p: p,
        normal: face_normal_sp(ray.direction, outward),
        t: root,
        front_face: is_front_face(ray.direction, outward),
        material: s.material,
    }
}

/// The quadratic intersection: a hit is reported exactly when the
/// discriminant is non-negative and a root lies in `(t_min, t_max]`, the
/// smaller root preferred. A direction whose squared length rounds to zero
/// reports no hit.
pub open spec fn sphere_hit_sp(s: SphereS, ray: RayS, t_min: int, t_max: int) -> Option<HitRec>
    recommends
        s.radius != 0,
{
    let oc = v3_sub(ray.origin, s.center);
    let a = v3_len_sq(ray.direction);
    let half_b = v3_dot(oc, ray.direction);
    let c = fx_sub_sp(v3_len_sq(oc), fx_mul_sp(s.radius, s.radius));
    let discriminant = fx_sub_sp(fx_mul_sp(half_b, half_b), fx_mul_sp(a, c));
    if a == 0 || discriminant < 0 {
        None
    } else {
        let sqrtd = fx_sqrt_sp(discriminant);
        let root1 = fx_div_sp(fx_sub_sp(fx_neg_sp(half_b), sqrtd), a);
        let root2 = fx_div_sp(fx_add_sp(fx_neg_sp(half_b), sqrtd), a);
        if t_min < root1 && root1 <= t_max {
            Some(hit_rec_at(s, ray, root1))
        } else if t_min < root2 && root2 <= t_max {
            Some(hit_rec_at(s, ray, root2))
        } else {
            None
        }
    }
}

/// The model of an optional hit record.
pub open spec fn rec_opt_view(r: Option<HitRecord>) -> Option<HitRec> {
    match r {
        Some(h) => Some(h@),
        None => None,
    }
}

impl Sphere {
    pub fn new(center: Vector3, radius: i64, material: Material) -> (s: Sphere)
        ensures
            s@ == (SphereS { center: center@, radius: radius as int, material: material }),
    {
        Sphere { center, radius, material }
    }

    pub fn hit(&self, ray: &Ray, t_min: i64, t_max: i64) -> (r: Option<HitRecord>)
        requires
            self.radius != 0,
        ensures
            rec_opt_view(r) == sphere_hit_sp(self@, ray@, t_min as int, t_max as int),
            r matches Some(h) ==> v3_dot(ray@.direction, h@.normal) <= 0,
            r matches Some(h) ==> h.material == self.material,
    {
        let oc = ray.origin.sub(self.center);
        let a = ray.direction.length_squared();
        let half_b = oc.dot(ray.direction);
        let c = fx_sub(oc.length_squared(), fx_mul(self.radius, self.radius));

        let discriminant = fx_sub(fx_mul(half_b, half_b), fx_mul(a, c));
        if a == 0 || discriminant < 0 {
            return None;
        }

        let sqrtd = fx_sqrt(discriminant);
        let mut root = fx_div(fx_sub(fx_neg(half_b), sqrtd), a);
        if !(t_min < root && root <= t_max) {
            root = fx_div(fx_add(fx_neg(half_b), sqrtd), a);
            if !(t_min < root && root <= t_max) {
                return None;
            }
        }

        let t = root;
        let p = ray.at(t);
        let outward = p.sub(self.center).div(self.radius);

        let mut rec = HitRecord {
            t,
            normal: outward,
            p,
            front_face: false,
            material: self.material,
        };
        rec.set_face_normal(ray, outward);
        proof {
            assert(v3_ok(outward@));
            lemma_face_normal_opposes(ray@.direction, outward@);
        }
        Some(rec)
    }
}

} // verus!
