//! The scattering model: how a surface re-emits an incoming ray.
//!
//! Materials form a closed sum type.  Each variant's own `scatter` takes
//! the random sample it needs as an explicit argument and is specified
//! exactly; the dispatching `scatter` here draws the sample from the
//! generator and states what holds of every outcome.

use vstd::prelude::*;

use crate::colour::Colour;
use crate::fixed::{Fix, SCALE};
use crate::hittable::Hit;
use crate::lambertian::Lambertian;
use crate::metal::Metal;
use crate::point3::Point3;
use crate::ray::Ray;
use crate::vec3::{v_dot, v_len2, Vec3, V3};

verus! {

/// A material's decision to re-emit a ray: the outgoing ray and the
/// per-channel attenuation.
#[derive(Clone, Copy, Debug, PartialEq, Eq, Structural)]
pub struct Scatter {
    pub scattered: Ray,
    pub attenuation: Colour,
}

impl Scatter {
    /// A blank scatter: a degenerate ray at the origin with black
    /// attenuation, useful as an initial value.
    pub fn new() -> (s: Scatter)
        ensures
            s.scattered.origin@ == (0int, 0int, 0int),
            s.scattered.direction@ == (0int, 0int, 0int),
            s.attenuation@ == (0int, 0int, 0int),
    {
        let zero = Fix { raw: 0 };
        Scatter {
            scattered: Ray::new(
                Point3::new(zero, zero, zero),
                Vec3 { x: zero, y: zero, z: zero },
            ),
            attenuation: Colour::new(zero, zero, zero),
        }
    }
}

/// A material: the closed family of scattering behaviours.
#[derive(Clone, Copy, Debug, PartialEq, Eq, Structural)]
pub enum Material {
    Lambertian(Lambertian),
    Metal(Metal),
}

impl Material {
    /// Well-formedness: albedo channels are nonnegative intensities, and a
    /// metal's fuzz lies in `[0, 1]`.
    pub open spec fn wf(self) -> bool {
        match self {
            Material::Lambertian(l) => l.wf(),
            Material::Metal(m) => m.wf(),
        }
    }

    /// The material's albedo.
    pub open spec fn albedo_v(self) -> V3 {
        match self {
            Material::Lambertian(l) => l.albedo@,
            Material::Metal(m) => m.albedo@,
        }
    }

    /// Whether the albedo is a genuine reflected fraction: every channel at
    /// most one unit.
    pub open spec fn albedo_in_unit(self) -> bool {
        &&& self.albedo_v().0 <= SCALE
        &&& self.albedo_v().1 <= SCALE
        &&& self.albedo_v().2 <= SCALE
    }

    /// Scatter an incoming ray at a hit, drawing whatever random sample the
    /// variant needs.  A diffuse surface always scatters; whatever the
    /// drawn sample was, a returned scatter starts at the contact point,
    /// carries the material's albedo, and for a metal points away from the
    /// surface.
    pub fn scatter(&self, ray_in: &Ray, hit: &Hit, rng: &mut rand::rngs::StdRng) -> (res: Option<
        Scatter,
    >)
        requires
            v_len2(ray_in.direction@) > 0,
        ensures
            self is Lambertian ==> res is Some,
            res matches Some(s) ==> {
                &&& s.scattered.origin == hit.p
                &&& s.attenuation@ == self.albedo_v()
                &&& (self is Metal ==> v_dot(s.scattered.direction@, hit.normal@) > 0)
                &&& match self {
                    Material::Metal(m) => m.fuzz@ == 0 ==> s.scattered.direction@
                        == crate::vec3::v_reflect(
                        crate::vec3::v_unit(ray_in.direction@),
                        hit.normal@,
                    ),
                    Material::Lambertian(_) => true,
                }
            },
    {
        match self {
            Material::Lambertian(l) => {
                let sample = Vec3::random_unit_vector(rng);
                l.scatter(ray_in, hit, sample)
            },
            Material::Metal(m) => {
                let sample = Vec3::random_in_unit_sphere(rng);
                proof {
                    if m.fuzz@ == 0 {
                        crate::metal::lemma_fuzzless_metal_is_mirror(
                            ray_in.direction@,
                            hit.normal@,
                            sample@,
                        );
                    }
                }
                m.scatter(ray_in, hit, sample)
            },
        }
    }
}

} // verus!
