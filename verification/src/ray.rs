//! Rays: an origin and a direction, not necessarily unit length.

use vstd::prelude::*;
use crate::vec3::{v3_add, v3_scale, Vector3, V3};

verus! {

/// The model of a ray.
pub ghost struct RayS {
    pub origin: V3,
    pub direction: V3,
}

#[derive(Clone, Copy)]
pub struct Ray {
    pub origin: Vector3,
    pub direction: Vector3,
}

impl View for Ray {
    type V = RayS;

    open spec fn view(&self) -> RayS {
        RayS { origin: self.origin@, direction: self.direction@ }
    }
}

/// The point a parameter along the ray reaches.
pub open spec fn ray_at_sp(r: RayS, t: int) -> V3 {
    v3_add(r.origin, v3_scale(t, r.direction))
}

impl Ray {
    pub fn new(origin: Vector3, direction: Vector3) -> (r: Ray)
        ensures
            r@ == (RayS { origin: origin@, direction: direction@ }),
    {
        Ray { origin, direction }
    }

    pub fn at(&self, t: i64) -> (p: Vector3)
        ensures
            p@ == ray_at_sp(self@, t as int),
    {
        self.origin.add(self.direction.scale(t))
    }
}

} // verus!
