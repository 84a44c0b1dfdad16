//! Positions in 3-space.
//!
//! A `Point3` is structurally a vector but semantically a position; the two
//! are never interchanged implicitly, only through the explicit conversions
//! here.

use vstd::prelude::*;

use crate::fixed::Fix;
use crate::vec3::{v_add, v_sub, Vec3, V3};

verus! {

/// A position, held as its offset from the origin.
#[derive(Clone, Copy, Debug, PartialEq, Eq, Structural)]
pub struct Point3 {
    pub position: Vec3,
}

impl View for Point3 {
    type V = V3;

    open spec fn view(&self) -> V3 {
        self.position@
    }
}

impl Point3 {
    /// Build a point from its coordinates.
    pub fn new(x: Fix, y: Fix, z: Fix) -> (r: Point3)
        ensures
            r@ == (x@, y@, z@),
    {
        Point3 { position: Vec3 { x, y, z } }
    }

    /// The first coordinate.
    pub fn x(&self) -> (r: Fix)
        ensures
            r@ == self@.0,
    {
        self.position.x
    }

    /// The second coordinate.
    pub fn y(&self) -> (r: Fix)
        ensures
            r@ == self@.1,
    {
        self.position.y
    }

    /// The third coordinate.
    pub fn z(&self) -> (r: Fix)
        ensures
            r@ == self@.2,
    {
        self.position.z
    }

    /// The offset vector of this point from the origin.
    pub fn to_vec(self) -> (r: Vec3)
        ensures
            r@ == self@,
    {
        self.position
    }

    /// Translate a point by a vector.
    pub fn add_vec(self, v: Vec3) -> (r: Point3)
        ensures
            r@ == v_add(self@, v@),
    {
        Point3 { position: self.position.add(v) }
    }

    /// The vector from `other` to `self`.
    pub fn sub_point(self, other: Point3) -> (r: Vec3)
        ensures
            r@ == v_sub(self@, other@),
    {
        self.position.sub(other.position)
    }
}

} // verus!
