//! Reflective (metal) materials.

use vstd::prelude::*;

use crate::colour::Colour;
use crate::fixed::{fx_clamp, Fix, SCALE};
use crate::hittable::Hit;
use crate::material::Scatter;
use crate::ray::Ray;
use crate::vec3::{v_add, v_dot, v_len2, v_reflect, v_scale, v_unit, Vec3, V3};

verus! {

/// The direction a metal scatters toward: the mirror reflection of the
/// normalized incoming direction, perturbed by `fuzz` times a sample from
/// the unit ball.
pub open spec fn metal_scatter_dir(ray_dir: V3, normal: V3, fuzz: int, sample: V3) -> V3
    recommends
        v_len2(ray_dir) > 0,
{
    v_add(v_reflect(v_unit(ray_dir), normal), v_scale(sample, fuzz))
}

/// A metal without fuzz is a perfect mirror: whatever ball sample was
/// drawn, the scatter direction is exactly the reflection of the
/// normalized incoming direction.
pub proof fn lemma_fuzzless_metal_is_mirror(ray_dir: V3, normal: V3, sample: V3)
    requires
        v_len2(ray_dir) > 0,
    ensures
        metal_scatter_dir(ray_dir, normal, 0, sample) == v_reflect(v_unit(ray_dir), normal),
{
    crate::fixed::lemma_tdiv_exact(0int, SCALE as int);
    assert(sample.0 * 0 == 0 && sample.1 * 0 == 0 && sample.2 * 0 == 0) by (nonlinear_arith);
    assert(v_scale(sample, 0) == ((0int, 0int, 0int)));
}

/// A reflective material: mirrors rays about the normal, roughened by a
/// fuzz radius, absorbing rays the perturbation would push below the
/// surface.
#[derive(Clone, Copy, Debug, PartialEq, Eq, Structural)]
pub struct Metal {
    pub albedo: Colour,
    pub fuzz: Fix,
}

impl Metal {
    /// Well-formedness: nonnegative albedo channels and fuzz in `[0, 1]`.
    pub open spec fn wf(self) -> bool {
        &&& self.albedo@.0 >= 0
        &&& self.albedo@.1 >= 0
        &&& self.albedo@.2 >= 0
        &&& 0 <= self.fuzz@ <= SCALE
    }

    /// Build a metal from an albedo with nonnegative channels; the fuzz
    /// radius is clamped into `[0, 1]` at construction.
    pub fn new(albedo: &Colour, fuzz: Fix) -> (m: Metal)
        requires
            albedo@.0 >= 0,
            albedo@.1 >= 0,
            albedo@.2 >= 0,
        ensures
            m.albedo == *albedo,
            m.fuzz@ == fx_clamp(fuzz@, 0, SCALE as int),
            m.wf(),
    {
        Metal { albedo: *albedo, fuzz: fuzz.clamp(Fix { raw: 0 }, Fix { raw: SCALE }) }
    }

    /// Scatter at a hit, given the random in-ball sample drawn for this
    /// bounce.  The ray is absorbed exactly when the perturbed reflection
    /// does not point away from the surface.
    pub fn scatter(&self, ray_in: &Ray, hit: &Hit, sample: Vec3) -> (res: Option<Scatter>)
        requires
            v_len2(ray_in.direction@) > 0,
        ensures
            (res is None) == (v_dot(
                metal_scatter_dir(ray_in.direction@, hit.normal@, self.fuzz@, sample@),
                hit.normal@,
            ) <= 0),
            res matches Some(s) ==> {
                &&& s.scattered.origin == hit.p
                &&& s.scattered.direction@ == metal_scatter_dir(
                    ray_in.direction@,
                    hit.normal@,
                    self.fuzz@,
                    sample@,
                )
                &&& s.attenuation == self.albedo
            },
    {
        let reflected = ray_in.direction().unit_vector().reflect(&hit.normal);
        let scattered = Ray::new(hit.p, reflected.add(sample.scale(self.fuzz)));

        if scattered.direction().dot(hit.normal).raw <= 0 {
            return None;
        }

        Some(Scatter { scattered, attenuation: self.albedo })
    }
}

} // verus!
