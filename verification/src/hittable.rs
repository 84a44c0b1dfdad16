//! Hit records and the closed family of surfaces.
//!
//! A `Hit` is the transient result of a successful intersection test.  The
//! surfaces form a closed sum type, dispatched by `match`: the family is
//! small and fixed, so no open-ended dispatch is needed.

use vstd::prelude::*;

use crate::colour::Colour;
use crate::fixed::Fix;
use crate::material::Material;
use crate::point3::Point3;
use crate::ray::Ray;
use crate::sphere::{sphere_hit_t, Sphere};
use crate::vec3::{v_dot, v_neg, Vec3, V3};

verus! {

/// The result of a ray/surface intersection: the contact point, the normal
/// oriented against the incoming ray, the ray parameter, which side was
/// struck, and the material at the contact point.
#[derive(Clone, Copy, Debug, PartialEq, Eq, Structural)]
pub struct Hit {
    pub p: Point3,
    pub normal: Vec3,
    pub t: Fix,
    pub front_face: bool,
    pub material: Material,
}

impl Hit {
    /// A blank record: all coordinates zero, back face, a black diffuse
    /// material.  Useful as an initial value before a real hit fills it.
    pub fn new() -> (h: Hit)
        ensures
            h.p@ == (0int, 0int, 0int),
            h.normal@ == (0int, 0int, 0int),
            h.t@ == 0,
            !h.front_face,
    {
        let zero = Fix { raw: 0 };
        Hit {
            p: Point3::new(zero, zero, zero),
            normal: Vec3 { x: zero, y: zero, z: zero },
            t: zero,
            front_face: false,
            material: Material::Lambertian(
                crate::lambertian::Lambertian { albedo: Colour::new(zero, zero, zero) },
            ),
        }
    }

    /// Orient a surface's outward normal against the incoming ray: the
    /// stored normal always faces the ray, and `front_face` records whether
    /// the ray arrived from outside.
    pub fn set_face_normal(&mut self, r: &Ray, outward_normal: &Vec3)
        ensures
            final(self).front_face == (v_dot(r.direction@, outward_normal@) < 0),
            final(self).normal@ == if final(self).front_face {
                outward_normal@
            } else {
                v_neg(outward_normal@)
            },
            final(self).p == old(self).p,
            final(self).t == old(self).t,
            final(self).material == old(self).material,
    {
        let d = r.direction().dot(*outward_normal);
        self.front_face = d.raw < 0;
        self.normal = if self.front_face {
            *outward_normal
        } else {
            outward_normal.neg()
        };
    }
}

/// Narrowing the upper parameter bound is harmless for any surface: a hit
/// found under the narrow bound is the very hit found under the wide one,
/// and a miss under the narrow bound means any wide hit lies beyond it.
pub proof fn lemma_hittable_hit_narrow(
    obj: Hittable,
    orig: V3,
    dir: V3,
    t_min: int,
    bound: int,
    t_max: int,
)
    requires
        bound <= t_max,
    ensures
        match obj.hit_t(orig, dir, t_min, bound) {
            Some(t) => obj.hit_t(orig, dir, t_min, t_max) == Some(t),
            None => match obj.hit_t(orig, dir, t_min, t_max) {
                None => true,
                Some(t2) => t2 > bound,
            },
        },
{
    match obj {
        Hittable::Sphere(s) => {
            crate::sphere::lemma_sphere_hit_narrow(
                s.center@,
                s.radius@,
                orig,
                dir,
                t_min,
                bound,
                t_max,
            );
        },
    }
}

/// A surface that a ray can strike: the closed family of shapes.
#[derive(Clone, Copy, Debug, PartialEq, Eq, Structural)]
pub enum Hittable {
    Sphere(Sphere),
}

impl Hittable {
    /// Well-formedness: the underlying shape is well-formed.
    pub open spec fn wf(self) -> bool {
        match self {
            Hittable::Sphere(s) => s.wf(),
        }
    }

    /// The material bound to this surface.
    pub open spec fn material_of(self) -> Material {
        match self {
            Hittable::Sphere(s) => s.material,
        }
    }

    /// The ray parameter at which a ray strikes this surface within
    /// `[t_min, t_max]`, if it does.
    pub open spec fn hit_t(self, orig: V3, dir: V3, t_min: int, t_max: int) -> Option<int> {
        match self {
            Hittable::Sphere(s) => sphere_hit_t(s.center@, s.radius@, orig, dir, t_min, t_max),
        }
    }

    /// The record a hit at parameter `t` carries: fields determined by the
    /// surface, the ray, and `t`.
    pub open spec fn record_matches(self, r: Ray, h: Hit) -> bool {
        match self {
            Hittable::Sphere(s) => s.record_matches(r, h),
        }
    }

    /// Intersect a ray with this surface over the parameter window
    /// `[t_min, t_max]`; the nearest valid parameter wins.
    pub fn hit(&self, r: &Ray, t_min: Fix, t_max: Fix) -> (res: Option<Hit>)
        requires
            self.wf(),
        ensures
            match res {
                None => self.hit_t(r.origin@, r.direction@, t_min@, t_max@) is None,
                Some(h) => {
                    &&& self.hit_t(r.origin@, r.direction@, t_min@, t_max@) == Some(h.t@)
                    &&& self.record_matches(*r, h)
                    &&& crate::vec3::v_len2(r.direction@) > 0
                },
            },
    {
        match self {
            Hittable::Sphere(s) => s.hit(r, t_min, t_max),
        }
    }
}

} // verus!
