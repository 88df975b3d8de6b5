//! Hit records: what an intersection reports to the integrator.
//!
//! The stored normal always opposes the incoming ray: the raw outward
//! normal is flipped when the ray starts inside the surface, and
//! `front_face` records which case occurred.

use vstd::prelude::*;
use crate::materials::Material;
use crate::ray::Ray;
use crate::vec3::{lemma_v3_dot_neg, v3_dot, v3_neg, v3_ok, Vector3, V3};

verus! {

/// The model of a hit record.
pub ghost struct HitRec {
    pub p: V3,
    pub normal: V3,
    pub t: int,
    pub front_face: bool,
    pub material: Material,
}

#[derive(Clone, Copy)]
pub struct HitRecord {
    pub p: Vector3,
    pub normal: Vector3,
    pub t: i64,
    pub front_face: bool,
    pub material: Material,
}

impl View for HitRecord {
    type V = HitRec;

    open spec fn view(&self) -> HitRec {
        HitRec {
            p: self.p@,
            normal: self.normal@,
            t: self.t as int,
            front_face: self.front_face,
            material: self.material,
        }
    }
}

/// Whether the ray meets the surface from outside.
pub open spec fn is_front_face(dir: V3, outward: V3) -> bool {
    v3_dot(dir, outward) < 0
}

/// The stored normal: the outward normal, flipped against the ray.
pub open spec fn face_normal_sp(dir: V3, outward: V3) -> V3 {
    if is_front_face(dir, outward) {
        outward
    } else {
        v3_neg(outward)
    }
}

/// The stored normal never points along the incoming ray: its dot product
/// with the ray direction is never positive, and is strictly negative
/// whenever the ray is not exactly grazing the surface.
pub proof fn lemma_face_normal_opposes(dir: V3, outward: V3)
    requires
        v3_ok(outward),
    ensures
        v3_dot(dir, face_normal_sp(dir, outward)) <= 0,
        v3_dot(dir, outward) != 0 ==> v3_dot(dir, face_normal_sp(dir, outward)) < 0,
{
    if !is_front_face(dir, outward) {
        lemma_v3_dot_neg(dir, outward);
    }
}

impl HitRecord {
    pub fn set_face_normal(&mut self, ray: &Ray, outward_normal: Vector3)
        ensures
            final(self).front_face == is_front_face(ray@.direction, outward_normal@),
            final(self).normal@ == face_normal_sp(ray@.direction, outward_normal@),
            final(self).p == old(self).p,
            final(self).t == old(self).t,
            final(self).material == old(self).material,
    {
        self.front_face = ray.direction.dot(outward_normal) < 0;
        self.normal = if self.front_face {
            outward_normal
        } else {
            outward_normal.neg()
        };
    }
}

} // verus!
