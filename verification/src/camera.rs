//! The pinhole camera: maps normalized viewport coordinates to rays.
//!
//! The camera is derived once, at construction, from a 16:9 aspect ratio,
//! a viewport height of two units and a focal length of one unit; there is
//! no runtime reconfiguration.

use vstd::prelude::*;

use crate::fixed::{fx_div, fx_mul, Fix, SCALE};
use crate::point3::Point3;
use crate::ray::Ray;
use crate::vec3::{v_add, v_scale, v_sub, Vec3};

verus! {

/// The viewport width in raw units: the aspect ratio times the viewport
/// height of two units.
pub open spec fn viewport_width_raw() -> int {
    fx_mul(fx_div(16 * SCALE, 9 * SCALE), 2 * SCALE)
}

/// A pinhole camera: an origin, the viewport basis vectors, and the lower
/// left viewport corner.
#[derive(Clone, Copy, Debug, PartialEq, Eq, Structural)]
pub struct Camera {
    pub origin: Point3,
    pub lower_left_corner: Point3,
    pub horizontal: Vec3,
    pub vertical: Vec3,
}

impl Camera {
    /// Build the camera at the origin: horizontal spans the viewport
    /// width, vertical spans two units of height, and the lower left
    /// corner sits one focal length in front of the origin.
    pub fn new() -> (c: Camera)
        ensures
            c.origin@ == (0int, 0int, 0int),
            c.horizontal@ == (viewport_width_raw(), 0int, 0int),
            c.vertical@ == (0int, 2 * SCALE, 0int),
            c.lower_left_corner@ == v_sub(
                v_sub(
                    v_sub((0int, 0int, 0int), v_div2(c.horizontal@)),
                    v_div2(c.vertical@),
                ),
                (0int, 0int, SCALE as int),
            ),
    {
        let zero = Fix { raw: 0 };
        let two = Fix { raw: 2 * SCALE };
        let aspect_ratio = Fix { raw: 16 * SCALE }.div(Fix { raw: 9 * SCALE });
        let viewport_height = two;
        let viewport_width = aspect_ratio.mul(viewport_height);
        let focal_length = Fix { raw: SCALE };

        let origin = Point3::new(zero, zero, zero);
        let horizontal = Vec3 { x: viewport_width, y: zero, z: zero };
        let vertical = Vec3 { x: zero, y: viewport_height, z: zero };

        let corner = origin
            .to_vec()
            .sub(horizontal.div_scalar(two))
            .sub(vertical.div_scalar(two))
            .sub(Vec3 { x: zero, y: zero, z: focal_length });
        Camera {
            origin,
            horizontal,
            vertical,
            lower_left_corner: Point3 { position: corner },
        }
    }

    /// The ray from the camera origin toward the viewport position
    /// `(u, v)`, with `u` and `v` normalized viewport coordinates.
    pub fn get_ray(&self, u: Fix, v: Fix) -> (r: Ray)
        ensures
            r.origin == self.origin,
            r.direction@ == camera_ray_dir(*self, u@, v@),
    {
        Ray::new(
            self.origin,
            self.lower_left_corner
                .to_vec()
                .add(self.horizontal.scale(u))
                .add(self.vertical.scale(v))
                .sub(self.origin.to_vec()),
        )
    }
}

/// The direction a camera sends through viewport position `(u, v)`: from
/// the origin toward `lower_left + u·horizontal + v·vertical`.
pub open spec fn camera_ray_dir(cam: Camera, u: int, v: int) -> crate::vec3::V3 {
    v_sub(
        v_add(
            v_add(cam.lower_left_corner@, v_scale(cam.horizontal@, u)),
            v_scale(cam.vertical@, v),
        ),
        cam.origin@,
    )
}

/// Halving a vector: each component divided by two units.
pub open spec fn v_div2(u: crate::vec3::V3) -> crate::vec3::V3 {
    crate::vec3::v_div(u, 2 * SCALE)
}

} // verus!
