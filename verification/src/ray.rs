//! Parametric rays: an origin and a direction.

use vstd::prelude::*;

use crate::fixed::Fix;
use crate::point3::Point3;
use crate::vec3::{v_add, v_scale, Vec3, V3};

verus! {

/// The point a ray reaches at parameter `t`: `origin + t·direction`.
pub open spec fn ray_at(origin: V3, direction: V3, t: int) -> V3 {
    v_add(origin, v_scale(direction, t))
}

/// A ray, evaluated as `origin + t·direction`.
#[derive(Clone, Copy, Debug, PartialEq, Eq, Structural)]
pub struct Ray {
    pub origin: Point3,
    pub direction: Vec3,
}

impl Ray {
    /// Build a ray from an origin and a direction.
    pub fn new(origin: Point3, direction: Vec3) -> (r: Ray)
        ensures
            r.origin == origin,
            r.direction == direction,
    {
        Ray { origin, direction }
    }

    /// The ray's origin.
    pub fn origin(&self) -> (r: Point3)
        ensures
            r == self.origin,
    {
        self.origin
    }

    /// The ray's direction.
    pub fn direction(&self) -> (r: Vec3)
        ensures
            r == self.direction,
    {
        self.direction
    }

    /// The point at parameter `t`.
    pub fn at(&self, t: Fix) -> (r: Point3)
        ensures
            r@ == ray_at(self.origin@, self.direction@, t@),
    {
        self.origin.add_vec(self.direction.scale(t))
    }
}

} // verus!
