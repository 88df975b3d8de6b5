//! The scene: a collection of spheres answering intersection queries with
//! the nearest hit.

use vstd::prelude::*;
use crate::fixed::{
    fx_add_sp, fx_div_sp, fx_mul_sp, fx_neg_sp, fx_sqrt_sp, fx_sub_sp, lemma_tdiv_mono, ONE,
};
use crate::hittable::{HitRec, HitRecord};
use crate::ray::{Ray, RayS};
use crate::sphere::{rec_opt_view, sphere_hit_sp, Sphere, SphereS};
use crate::vec3::{lemma_len_sq_nonneg, v3_dot, v3_len_sq, v3_sub};

verus! {

pub struct HittableList {
    pub objects: Vec<Sphere>,
}

/// The scene query: scan the members in order, each tested only below the
/// closest parameter found so far, so the final answer is the nearest hit.
pub open spec fn scene_hit_sp(objs: Seq<Sphere>, ray: RayS, t_min: int, t_max: int) -> Option<
    HitRec,
>
    decreases objs.len(),
{
    if objs.len() == 0 {
        None
    } else {
        let prev = scene_hit_sp(objs.drop_last(), ray, t_min, t_max);
        let closest = match prev {
            Some(g) => g.t,
            None => t_max,
        };
        match sphere_hit_sp(objs.last()@, ray, t_min, closest) {
            Some(h) => Some(h),
            None => prev,
        }
    }
}

/// A reported parameter always lies in the queried interval.
pub proof fn lemma_sphere_hit_t_range(s: SphereS, ray: RayS, t_min: int, t_max: int)
    ensures
        sphere_hit_sp(s, ray, t_min, t_max) matches Some(h) ==> t_min < h.t <= t_max,
{
}

/// Shrinking the upper bound of the interval filters the unbounded answer:
/// the same hit when it is close enough, and no hit otherwise.
pub proof fn lemma_sphere_hit_shrink(s: SphereS, ray: RayS, t_min: int, b: int, t_max: int)
    requires
        b <= t_max,
    ensures
        sphere_hit_sp(s, ray, t_min, b) == (
        if sphere_hit_sp(s, ray, t_min, t_max) matches Some(h) && h.t <= b {
            sphere_hit_sp(s, ray, t_min, t_max)
        } else {
            None::<HitRec>
        }),
{
    let a = v3_len_sq(ray.direction);
    lemma_len_sq_nonneg(ray.direction);
    let oc = v3_sub(ray.origin, s.center);
    let half_b = v3_dot(oc, ray.direction);
    let c = fx_sub_sp(v3_len_sq(oc), fx_mul_sp(s.radius, s.radius));
    let discriminant = fx_sub_sp(fx_mul_sp(half_b, half_b), fx_mul_sp(a, c));
    if !(a == 0 || discriminant < 0) {
        let sqrtd = fx_sqrt_sp(discriminant);
        assert(sqrtd >= 0);
        let n1 = fx_sub_sp(fx_neg_sp(half_b), sqrtd);
        let n2 = fx_add_sp(fx_neg_sp(half_b), sqrtd);
        assert(n1 <= n2);
        lemma_tdiv_mono(n1 * (ONE as int), n2 * (ONE as int), a);
        assert(fx_div_sp(n1, a) <= fx_div_sp(n2, a));
    }
}

/// The nearest-hit law: the scene answers nothing exactly when every member
/// answers nothing; otherwise it answers a member's own unbounded hit, and
/// no member reports a strictly closer parameter.
#[verifier::rlimit(100)]
#[verifier::spinoff_prover]
pub proof fn lemma_scene_hit_nearest(objs: Seq<Sphere>, ray: RayS, t_min: int, t_max: int)
    ensures
        scene_hit_sp(objs, ray, t_min, t_max) is None <==> (forall|i: int|
            0 <= i < objs.len() ==> (#[trigger] sphere_hit_sp(objs[i]@, ray, t_min, t_max))
                is None),
        scene_hit_sp(objs, ray, t_min, t_max) matches Some(h) ==> t_min < h.t <= t_max,
        scene_hit_sp(objs, ray, t_min, t_max) matches Some(h) ==> (exists|i: int|
            0 <= i < objs.len() && (#[trigger] sphere_hit_sp(objs[i]@, ray, t_min, t_max))
                == Some(h)),
        scene_hit_sp(objs, ray, t_min, t_max) matches Some(h) ==> (forall|i: int|
            0 <= i < objs.len() ==> (match #[trigger] sphere_hit_sp(objs[i]@, ray, t_min, t_max) {
                Some(g) => h.t <= g.t,
                None => true,
            })),
    decreases objs.len(),
{
    if objs.len() == 0 {
    } else {
        let n = objs.len() as int;
        let pre = objs.drop_last();
        lemma_scene_hit_nearest(pre, ray, t_min, t_max);
        let prev = scene_hit_sp(pre, ray, t_min, t_max);
        let closest: int = match prev {
            Some(g) => g.t,
            None => t_max,
        };
        lemma_sphere_hit_shrink(objs.last()@, ray, t_min, closest, t_max);
        lemma_sphere_hit_t_range(objs.last()@, ray, t_min, t_max);
        let full = sphere_hit_sp(objs.last()@, ray, t_min, t_max);
        let cut = sphere_hit_sp(objs.last()@, ray, t_min, closest);
        assert(forall|i: int| 0 <= i < n - 1 ==> pre[i] == objs[i]);
        assert(objs.last() == objs[n - 1]);
        let result = scene_hit_sp(objs, ray, t_min, t_max);
        assert(result == (match cut {
            Some(h) => Some(h),
            None => prev,
        }));
        match cut {
            Some(h) => {
                assert(full == Some(h) && h.t <= closest);
                assert(sphere_hit_sp(objs[n - 1]@, ray, t_min, t_max) == Some(h));
                assert forall|i: int| 0 <= i < n implies (match #[trigger] sphere_hit_sp(
                    objs[i]@,
                    ray,
                    t_min,
                    t_max,
                ) {
                    Some(g) => h.t <= g.t,
                    None => true,
                }) by {
                    if i < n - 1 {
                        assert(pre[i] == objs[i]);
                        if prev is None {
                            assert(sphere_hit_sp(pre[i]@, ray, t_min, t_max) is None);
                        }
                    }
                }
            },
            None => {
                assert(result == prev);
                match prev {
                    Some(g) => {
                        let wi = choose|i: int|
                            0 <= i < n - 1 && (#[trigger] sphere_hit_sp(pre[i]@, ray, t_min, t_max))
                                == Some(g);
                        assert(sphere_hit_sp(objs[wi]@, ray, t_min, t_max) == Some(g));
                        assert forall|i: int| 0 <= i < n implies (match #[trigger] sphere_hit_sp(
                            objs[i]@,
                            ray,
                            t_min,
                            t_max,
                        ) {
                            Some(gg) => g.t <= gg.t,
                            None => true,
                        }) by {
                            if i < n - 1 {
                                assert(pre[i] == objs[i]);
                            }
                        }
                    },
                    None => {
                        assert forall|i: int|
                            0 <= i < n implies (#[trigger] sphere_hit_sp(
                            objs[i]@,
                            ray,
                            t_min,
                            t_max,
                        )) is None by {
                            if i < n - 1 {
                                assert(pre[i] == objs[i]);
                            }
                        }
                    },
                }
            },
        }
    }
}

impl HittableList {
    pub fn new() -> (r: HittableList)
        ensures
            r.objects@ == Seq::<Sphere>::empty(),
    {
        HittableList { objects: Vec::new() }
    }

    /// Consumes the list, dropping its members.
    pub fn clear(self) {
    }

    pub fn add(&mut self, object: Sphere)
        ensures
            final(self).objects@ == old(self).objects@.push(object),
    {
        self.objects.push(object);
    }

    /// Every member has a usable radius and well-formed material data.
    pub open spec fn wf(self) -> bool {
        forall|i: int|
            0 <= i < self.objects@.len() ==> ((#[trigger] self.objects@[i]).radius != 0
                && self.objects@[i].material.wf())
    }

    pub fn hit(&self, ray: &Ray, t_min: i64, t_max: i64) -> (r: Option<HitRecord>)
        requires
            self.wf(),
        ensures
            rec_opt_view(r) == scene_hit_sp(self.objects@, ray@, t_min as int, t_max as int),
            r matches Some(h) ==> v3_dot(ray@.direction, h@.normal) <= 0,
            r matches Some(h) ==> h.material.wf(),
    {
        let mut temp_record: Option<HitRecord> = None;
        let mut closest_so_far: i64 = t_max;
        let n = self.objects.len();
        let mut i: usize = 0;
        while i < n
            invariant
                i <= n,
                n == self.objects@.len(),
                self.wf(),
                rec_opt_view(temp_record) == scene_hit_sp(
                    self.objects@.take(i as int),
                    ray@,
                    t_min as int,
                    t_max as int,
                ),
                closest_so_far as int == (match rec_opt_view(temp_record) {
                    Some(h) => h.t,
                    None => t_max as int,
                }),
                temp_record matches Some(h) ==> v3_dot(ray@.direction, h@.normal) <= 0,
                temp_record matches Some(h) ==> h.material.wf(),
            decreases n - i,
        {
            let obj = self.objects[i];
            let candidate = obj.hit(ray, t_min, closest_so_far);
            proof {
                assert(self.objects@.take(i as int + 1).drop_last() =~= self.objects@.take(
                    i as int,
                ));
                assert(self.objects@.take(i as int + 1).last() == self.objects@[i as int]);
            }
            if let Some(h) = candidate {
                closest_so_far = h.t;
                temp_record = Some(h);
            }
            i += 1;
        }
        proof {
            assert(self.objects@.take(n as int) =~= self.objects@);
        }
        temp_record
    }
}

} // verus!
