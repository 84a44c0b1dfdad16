//! Spheres and their analytic ray intersection.
//!
//! Intersection solves the quadratic `a·t² + 2·half_b·t + c = 0` with
//! `a = |direction|²`, `half_b = dot(origin − center, direction)`,
//! `c = |origin − center|² − r²`.  A negative discriminant means no hit;
//! otherwise the nearer root is taken, and the farther one only if the
//! nearer lies outside the valid window.  The whole computation, square
//! root included, is pinned down exactly by `sphere_hit_t`.

use vstd::prelude::*;

use crate::fixed::{fx_add, fx_div, fx_mul, fx_neg, fx_sqrt, fx_sub, is_sqrt, Fix, SCALE};
use crate::hittable::Hit;
use crate::material::Material;
use crate::point3::Point3;
use crate::ray::{ray_at, Ray};
use crate::vec3::{v_div, v_dot, v_len2, v_neg, v_sub, V3};

verus! {

/// The quadratic's leading coefficient: the squared length of the ray
/// direction.
pub open spec fn sphere_a(dir: V3) -> int {
    v_len2(dir)
}

/// Half the quadratic's middle coefficient.
pub open spec fn sphere_half_b(center: V3, orig: V3, dir: V3) -> int {
    v_dot(v_sub(orig, center), dir)
}

/// The quadratic's constant coefficient.
pub open spec fn sphere_c(center: V3, radius: int, orig: V3) -> int {
    fx_sub(v_len2(v_sub(orig, center)), fx_mul(radius, radius))
}

/// The discriminant `half_b² − a·c`.
pub open spec fn sphere_disc(center: V3, radius: int, orig: V3, dir: V3) -> int {
    fx_sub(
        fx_mul(sphere_half_b(center, orig, dir), sphere_half_b(center, orig, dir)),
        fx_mul(sphere_a(dir), sphere_c(center, radius, orig)),
    )
}

/// The accepted root of the intersection quadratic within `[t_min, t_max]`,
/// if any: the nearer root first, the farther as fallback.  A degenerate
/// direction (squared length zero at this resolution) never hits.
pub open spec fn sphere_hit_t(
    center: V3,
    radius: int,
    orig: V3,
    dir: V3,
    t_min: int,
    t_max: int,
) -> Option<int> {
    let a = sphere_a(dir);
    let half_b = sphere_half_b(center, orig, dir);
    let disc = sphere_disc(center, radius, orig, dir);
    if a == 0 || disc < 0 {
        None
    } else {
        let sq = fx_sqrt(disc);
        let root0 = fx_div(fx_sub(fx_neg(half_b), sq), a);
        if t_min <= root0 <= t_max {
            Some(root0)
        } else {
            let root1 = fx_div(fx_add(fx_neg(half_b), sq), a);
            if t_min <= root1 <= t_max {
                Some(root1)
            } else {
                None
            }
        }
    }
}

/// The outward normal of a sphere at a surface point: the offset from the
/// center, divided by the radius.
pub open spec fn sphere_outward_normal(center: V3, radius: int, p: V3) -> V3
    recommends
        radius != 0,
{
    v_div(v_sub(p, center), radius)
}

/// The two roots of the intersection quadratic are ordered: the root built
/// from subtracting the discriminant's square root never exceeds the one
/// built from adding it.
proof fn lemma_sphere_roots_ordered(center: V3, radius: int, orig: V3, dir: V3)
    requires
        sphere_a(dir) > 0,
        sphere_disc(center, radius, orig, dir) >= 0,
    ensures
        fx_div(
            fx_sub(
                fx_neg(sphere_half_b(center, orig, dir)),
                fx_sqrt(sphere_disc(center, radius, orig, dir)),
            ),
            sphere_a(dir),
        ) <= fx_div(
            fx_add(
                fx_neg(sphere_half_b(center, orig, dir)),
                fx_sqrt(sphere_disc(center, radius, orig, dir)),
            ),
            sphere_a(dir),
        ),
{
    let nb = fx_neg(sphere_half_b(center, orig, dir));
    let sq = fx_sqrt(sphere_disc(center, radius, orig, dir));
    crate::vec3::lemma_fx_sqrt_exists(sphere_disc(center, radius, orig, dir));
    assert(sq >= 0);
    crate::fixed::lemma_fx_div_monotone(fx_sub(nb, sq), fx_add(nb, sq), sphere_a(dir));
}

/// Narrowing the upper parameter bound is harmless: a hit found under the
/// narrow bound is the very hit found under the wide one, and a miss under
/// the narrow bound means any hit under the wide one lies beyond it.
pub proof fn lemma_sphere_hit_narrow(
    center: V3,
    radius: int,
    orig: V3,
    dir: V3,
    t_min: int,
    bound: int,
    t_max: int,
)
    requires
        bound <= t_max,
    ensures
        match sphere_hit_t(center, radius, orig, dir, t_min, bound) {
            Some(t) => sphere_hit_t(center, radius, orig, dir, t_min, t_max) == Some(t),
            None => match sphere_hit_t(center, radius, orig, dir, t_min, t_max) {
                None => true,
                Some(t2) => t2 > bound,
            },
        },
{
    let a = sphere_a(dir);
    let disc = sphere_disc(center, radius, orig, dir);
    if a != 0 && disc >= 0 {
        crate::vec3::lemma_v_len2_nonneg(dir);
        lemma_sphere_roots_ordered(center, radius, orig, dir);
    }
}

/// A ray aimed straight through a sphere's center strikes it at the entry
/// point: at parameter `distance to center − radius`.  The contact point
/// lies on the near wall and its outward normal faces the incoming ray, so
/// the record any such hit carries is a front face bearing the outward
/// normal itself.  Stated here for an axis-aligned unit-direction ray and
/// whole-unit distances, where the fixed-point arithmetic is exact.
pub proof fn lemma_ray_through_center_hits(k: int, m: int)
    requires
        0 < m < k <= 10000,
    ensures
        sphere_hit_t(
            (0int, 0int, (-k) * SCALE),
            m * SCALE,
            (0int, 0int, 0int),
            (0int, 0int, -(SCALE as int)),
            crate::render::T_MIN_RAW as int,
            crate::fixed::MAX_RAW as int,
        ) == Some((k - m) * (SCALE as int)),
        ray_at((0int, 0int, 0int), (0int, 0int, -(SCALE as int)), (k - m) * (SCALE as int)) == ((
            0int,
            0int,
            (-(k - m)) * (SCALE as int),
        )),
        sphere_outward_normal(
            (0int, 0int, (-k) * SCALE),
            m * SCALE,
            (0int, 0int, (-(k - m)) * (SCALE as int)),
        ) == ((0int, 0int, SCALE as int)),
        v_dot((0int, 0int, -(SCALE as int)), (0int, 0int, SCALE as int)) < 0,
{
    let s = SCALE as int;
    let center = (0int, 0int, (-k) * s);
    let orig = (0int, 0int, 0int);
    let dir = (0int, 0int, -s);
    let oc = v_sub(orig, center);
    assert(0 - (-k) * s == k * s) by (nonlinear_arith);
    assert(oc == ((0int, 0int, k * s)));

    // Every product in play is a product of whole units, hence exact.
    assert(k * k * s <= 10000 * 10000 * s && m * m * s <= 10000 * 10000 * s && 0 <= m * m * s
        && 0 <= k * k * s && (k * k - m * m) * s == k * k * s - m * m * s && k * (-1) == -k && (-1)
        * (-1) * s == s && (-k) * s == -(k * s) && 1 * (k * k - m * m) * s == (k * k - m * m) * s)
        by (nonlinear_arith)
        requires
            0 < m < k <= 10000,
            s == SCALE,
    ;
    crate::fixed::lemma_fx_mul_int(0, 0);
    crate::fixed::lemma_fx_mul_int(-1, -1);
    crate::fixed::lemma_fx_mul_int(0, -1);
    crate::fixed::lemma_fx_mul_int(k, -1);
    crate::fixed::lemma_fx_mul_int(k, k);
    crate::fixed::lemma_fx_mul_int(m, m);
    crate::fixed::lemma_fx_mul_int(1, k * k - m * m);

    let a = sphere_a(dir);
    assert(a == s);
    let half_b = sphere_half_b(center, orig, dir);
    assert(half_b == (-k) * s);
    let cc = sphere_c(center, m * s, orig);
    assert(v_len2(oc) == k * k * s);
    assert(cc == (k * k - m * m) * s);
    let disc = sphere_disc(center, m * s, orig, dir);
    assert(fx_mul(half_b, half_b) == k * k * s) by {
        assert((-k) * (-k) == k * k) by (nonlinear_arith);
        crate::fixed::lemma_fx_mul_int(-k, -k);
    }
    assert(disc == m * m * s);

    // The discriminant's square root is exact: `m` whole units.
    assert((m * s) * (m * s) == (m * m * s) * s && (m * s) * (m * s) < (m * s + 1) * (m * s + 1))
        by (nonlinear_arith)
        requires
            0 < m <= 10000,
            s == SCALE,
    ;
    assert(is_sqrt((m * m * s) * s, m * s));
    crate::fixed::lemma_fx_sqrt_of(m * m * s, m * s);

    // The near root is `(k − m)` whole units, inside the valid window.
    assert(fx_neg(half_b) == k * s) by {
        assert(-((-k) * s) == k * s) by (nonlinear_arith);
    }
    assert(fx_sub(k * s, m * s) == (k - m) * s) by {
        assert(k * s - m * s == (k - m) * s && 0 <= (k - m) * s <= 10000 * s) by (nonlinear_arith)
            requires
                0 < m < k <= 10000,
                s == SCALE,
        ;
    }
    assert(((k - m) * s) * s == ((k - m) * s) * s);
    crate::fixed::lemma_tdiv_exact((k - m) * s, s);
    assert(fx_div((k - m) * s, s) == (k - m) * s) by {
        assert(((k - m) * s) * s == ((k - m) * s) * s && -(crate::fixed::MAX_RAW as int) <= (k - m)
            * s <= crate::fixed::MAX_RAW as int) by (nonlinear_arith)
            requires
                0 < m < k <= 10000,
                s == SCALE,
        ;
    }
    assert((crate::render::T_MIN_RAW as int) <= (k - m) * s <= crate::fixed::MAX_RAW as int)
        by (nonlinear_arith)
        requires
            0 < m < k <= 10000,
            s == SCALE,
    ;

    // The contact point sits on the near wall, its outward normal faces
    // the ray, so the hit is a front face.
    let t_hit = (k - m) * s;
    assert(0 * t_hit == 0 && (-1) * (k - m) * s == (-(k - m)) * s && 0 == 0 * s && -s == (-1) * s
        && s == 1 * s && (-(k - m)) * s - (-k) * s == m * s && (m * s) * s == s * (m * s) && (-1)
        * 1 * s == -s) by (nonlinear_arith)
        requires
            0 < m < k <= 10000,
            s == SCALE,
            t_hit == (k - m) * s,
    ;
    crate::fixed::lemma_fx_mul_int(0, k - m);
    crate::fixed::lemma_fx_mul_int(-1, k - m);
    assert(ray_at(orig, dir, t_hit) == ((0int, 0int, (-(k - m)) * s)));
    crate::fixed::lemma_tdiv_exact(0int, m * s);
    crate::fixed::lemma_tdiv_exact(s, m * s);
    assert(sphere_outward_normal(center, m * s, (0int, 0int, (-(k - m)) * s)) == ((
        0int,
        0int,
        s,
    )));
    crate::fixed::lemma_fx_mul_int(-1, 1);
    assert(v_dot(dir, (0int, 0int, s)) == -s);
}

/// A sphere: a center, a positive radius, and the material of its surface.
#[derive(Clone, Copy, Debug, PartialEq, Eq, Structural)]
pub struct Sphere {
    pub center: Point3,
    pub radius: Fix,
    pub material: Material,
}

impl Sphere {
    /// Well-formedness: the radius is positive (the outward normal divides
    /// by it) and the material is well-formed.
    pub open spec fn wf(self) -> bool {
        &&& self.radius@ > 0
        &&& self.material.wf()
    }

    /// The record a hit of this sphere carries, given its parameter: the
    /// contact point on the ray, the outward normal oriented against the
    /// ray, and this sphere's material.
    pub open spec fn record_matches(self, r: Ray, h: Hit) -> bool {
        let outward = sphere_outward_normal(self.center@, self.radius@, h.p@);
        &&& h.p@ == ray_at(r.origin@, r.direction@, h.t@)
        &&& h.front_face == (v_dot(r.direction@, outward) < 0)
        &&& h.normal@ == if h.front_face {
            outward
        } else {
            v_neg(outward)
        }
        &&& h.material == self.material
    }

    /// Build a sphere.  A nonpositive radius is a construction error ruled
    /// out by precondition, and the material must be well-formed.
    pub fn new(center: Point3, radius: Fix, material: Material) -> (s: Sphere)
        requires
            radius@ > 0,
            material.wf(),
        ensures
            s.center == center,
            s.radius == radius,
            s.material == material,
            s.wf(),
    {
        Sphere { center, radius, material }
    }

    /// Intersect a ray with this sphere over `[t_min, t_max]`.  The result
    /// is exactly the root `sphere_hit_t` selects, and on a hit the record's
    /// fields are determined by that root.
    pub fn hit(&self, r: &Ray, t_min: Fix, t_max: Fix) -> (res: Option<Hit>)
        requires
            self.wf(),
        ensures
            match res {
                None => sphere_hit_t(
                    self.center@,
                    self.radius@,
                    r.origin@,
                    r.direction@,
                    t_min@,
                    t_max@,
                ) is None,
                Some(h) => {
                    &&& sphere_hit_t(
                        self.center@,
                        self.radius@,
                        r.origin@,
                        r.direction@,
                        t_min@,
                        t_max@,
                    ) == Some(h.t@)
                    &&& self.record_matches(*r, h)
                    &&& v_len2(r.direction@) > 0
                },
            },
    {
        let oc = r.origin().sub_point(self.center);

        // Coefficients of the quadratic equation.
        let a = r.direction().length_squared();
        if a.raw == 0 {
            return None;
        }
        let half_b = oc.dot(r.direction());
        let c = oc.length_squared().sub(self.radius.mul(self.radius));

        let discriminant = half_b.mul(half_b).sub(a.mul(c));
        if discriminant.raw < 0 {
            return None;
        }

        let sqrt_d = discriminant.sqrt();

        // Find the nearest root that lies in the acceptable range.
        let mut root = half_b.neg().sub(sqrt_d).div(a);
        if root.raw < t_min.raw || root.raw > t_max.raw {
            root = half_b.neg().add(sqrt_d).div(a);
            if root.raw < t_min.raw || root.raw > t_max.raw {
                return None;
            }
        }

        let p = r.at(root);
        let outward_normal = p.sub_point(self.center).div_scalar(self.radius);
        let zero = Fix { raw: 0 };
        let mut hit = Hit {
            p,
            t: root,
            normal: crate::vec3::Vec3 { x: zero, y: zero, z: zero },
            front_face: false,
            material: self.material,
        };
        hit.set_face_normal(r, &outward_normal);
        Some(hit)
    }
}

} // verus!
