//! The camera: maps image-plane coordinates to world-space rays.

use vstd::prelude::*;
use crate::fixed::{fx_div, fx_div_sp, fx_mul, fx_mul_sp, fx_neg, fx_neg_sp, ONE, TWO};
use crate::ray::{Ray, RayS};
use crate::vec3::{v3_add, v3_scale, v3_sub, Vector3, V3};

verus! {

/// The model of a camera frame.
pub ghost struct CameraS {
    pub origin: V3,
    pub lower_left_corner: V3,
    pub horizontal: V3,
    pub vertical: V3,
}

pub struct Camera {
    pub origin: Vector3,
    pub lower_left_corner: Vector3,
    pub horizontal: Vector3,
    pub vertical: Vector3,
}

impl View for Camera {
    type V = CameraS;

    open spec fn view(&self) -> CameraS {
        CameraS {
            origin: self.origin@,
            lower_left_corner: self.lower_left_corner@,
            horizontal: self.horizontal@,
            vertical: self.vertical@,
        }
    }
}

/// The ray through image-plane coordinates `(u, v)`, both fixed-point
/// fractions of the frame.
pub open spec fn camera_ray_sp(c: CameraS, u: int, v: int) -> RayS {
    RayS {
        origin: c.origin,
        direction: v3_sub(
            v3_add(v3_add(c.lower_left_corner, v3_scale(u, c.horizontal)), v3_scale(v, c.vertical)),
            c.origin,
        ),
    }
}

/// The default frame: a viewport two units tall with a 16:9 aspect ratio,
/// one unit in front of the origin.
pub open spec fn camera_default_sp() -> CameraS {
    let aspect_ratio = fx_div_sp(1048576, 589824);
    let viewport_height = TWO as int;
    let viewport_width = fx_mul_sp(aspect_ratio, viewport_height);
    let focal_length = ONE as int;
    CameraS {
        origin: V3 { x: 0, y: 0, z: 0 },
        horizontal: V3 { x: viewport_width, y: 0, z: 0 },
        vertical: V3 { x: 0, y: viewport_height, z: 0 },
        lower_left_corner: V3 {
            x: fx_neg_sp(fx_div_sp(viewport_width, TWO as int)),
            y: fx_neg_sp(fx_div_sp(viewport_height, TWO as int)),
            z: fx_neg_sp(focal_length),
        },
    }
}

impl Camera {
    pub fn get_ray(&self, u: i64, v: i64) -> (r: Ray)
        ensures
            r@ == camera_ray_sp(self@, u as int, v as int),
    {
        Ray {
            origin: self.origin,
            direction: self.lower_left_corner.add(self.horizontal.scale(u)).add(
                self.vertical.scale(v),
            ).sub(self.origin),
        }
    }
}

impl std::default::Default for Camera {
    fn default() -> (c: Camera)
        ensures
            c@ == camera_default_sp(),
    {
        let aspect_ratio = fx_div(1048576, 589824);
        let viewport_height = TWO;
        let viewport_width = fx_mul(aspect_ratio, viewport_height);
        let focal_length = ONE;
        Camera {
            origin: Vector3::new(0, 0, 0),
            horizontal: Vector3::new(viewport_width, 0, 0),
            vertical: Vector3::new(0, viewport_height, 0),
            lower_left_corner: Vector3::new(
                fx_neg(fx_div(viewport_width, TWO)),
                fx_neg(fx_div(viewport_height, TWO)),
                fx_neg(focal_length),
            ),
        }
    }
}

} // verus!
