//! Diffuse (Lambertian) materials.

use vstd::prelude::*;

use crate::colour::Colour;
use crate::hittable::Hit;
use crate::material::Scatter;
use crate::ray::Ray;
use crate::vec3::{v_add, Vec3};

verus! {

/// A diffuse material: scatters toward the normal perturbed by a random
/// unit vector, always, attenuated by its albedo.
#[derive(Clone, Copy, Debug, PartialEq, Eq, Structural)]
pub struct Lambertian {
    pub albedo: Colour,
}

impl Lambertian {
    /// Well-formedness: the albedo's channels are nonnegative intensities.
    pub open spec fn wf(self) -> bool {
        &&& self.albedo@.0 >= 0
        &&& self.albedo@.1 >= 0
        &&& self.albedo@.2 >= 0
    }

    /// Build a diffuse material from an albedo with nonnegative channels.
    pub fn new(albedo: &Colour) -> (l: Lambertian)
        requires
            albedo@.0 >= 0,
            albedo@.1 >= 0,
            albedo@.2 >= 0,
        ensures
            l.albedo == *albedo,
            l.wf(),
    {
        Lambertian { albedo: *albedo }
    }

    /// Scatter at a hit, given the random unit vector drawn for this
    /// bounce: the direction is `normal + sample`, or the normal itself
    /// when that sum degenerates to zero.  A diffuse surface never absorbs.
    pub fn scatter(&self, _ray_in: &Ray, hit: &Hit, sample: Vec3) -> (res: Option<Scatter>)
        ensures
            res is Some,
            res matches Some(s) ==> {
                &&& s.scattered.origin == hit.p
                &&& s.scattered.direction@ == if v_add(hit.normal@, sample@) == (
                    0int,
                    0int,
                    0int,
                ) {
                    hit.normal@
                } else {
                    v_add(hit.normal@, sample@)
                }
                &&& s.attenuation == self.albedo
            },
    {
        let mut scatter_direction = hit.normal.add(sample);

        // Catch the degenerate direction: the random vector canceled the
        // normal exactly.
        if scatter_direction.near_zero() {
            scatter_direction = hit.normal;
        }

        Some(Scatter { scattered: Ray::new(hit.p, scatter_direction), attenuation: self.albedo })
    }
}

} // verus!
