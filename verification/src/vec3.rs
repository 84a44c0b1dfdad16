//! Three-component vectors over fixed-point scalars.
//!
//! The mathematical model of a vector is the triple of its raw components;
//! every operation's contract states the resulting triple exactly through
//! the `v_*` spec functions, which compose the fixed-point scalar model.

use vstd::prelude::*;

use crate::fixed::{
    fx_add, fx_mul, fx_neg, fx_sqrt, fx_sub, is_sqrt, lemma_fx_mul_square_nonneg,
    lemma_fx_sqrt_of, fx_div, Fix, SCALE,
};

verus! {

/// The model of a vector: its three raw components.
pub type V3 = (int, int, int);

/// A vector of three fixed-point components.
#[derive(Clone, Copy, Debug, PartialEq, Eq, Structural)]
pub struct Vec3 {
    pub x: Fix,
    pub y: Fix,
    pub z: Fix,
}

impl View for Vec3 {
    type V = V3;

    open spec fn view(&self) -> V3 {
        (self.x@, self.y@, self.z@)
    }
}

/// Component-wise sum.
pub open spec fn v_add(u: V3, v: V3) -> V3 {
    (fx_add(u.0, v.0), fx_add(u.1, v.1), fx_add(u.2, v.2))
}

/// Component-wise difference.
pub open spec fn v_sub(u: V3, v: V3) -> V3 {
    (fx_sub(u.0, v.0), fx_sub(u.1, v.1), fx_sub(u.2, v.2))
}

/// Component-wise negation.
pub open spec fn v_neg(u: V3) -> V3 {
    (fx_neg(u.0), fx_neg(u.1), fx_neg(u.2))
}

/// Component-wise (Hadamard) product.
pub open spec fn v_mul(u: V3, v: V3) -> V3 {
    (fx_mul(u.0, v.0), fx_mul(u.1, v.1), fx_mul(u.2, v.2))
}

/// Scalar multiple.
pub open spec fn v_scale(u: V3, c: int) -> V3 {
    (fx_mul(u.0, c), fx_mul(u.1, c), fx_mul(u.2, c))
}

/// Scalar quotient.
pub open spec fn v_div(u: V3, c: int) -> V3
    recommends
        c != 0,
{
    (fx_div(u.0, c), fx_div(u.1, c), fx_div(u.2, c))
}

/// Dot product, summed left to right.
pub open spec fn v_dot(u: V3, v: V3) -> int {
    fx_add(fx_add(fx_mul(u.0, v.0), fx_mul(u.1, v.1)), fx_mul(u.2, v.2))
}

/// Cross product.
pub open spec fn v_cross(u: V3, v: V3) -> V3 {
    (
        fx_sub(fx_mul(u.1, v.2), fx_mul(u.2, v.1)),
        fx_sub(fx_mul(u.2, v.0), fx_mul(u.0, v.2)),
        fx_sub(fx_mul(u.0, v.1), fx_mul(u.1, v.0)),
    )
}

/// Squared length: the dot product of a vector with itself.
pub open spec fn v_len2(u: V3) -> int {
    v_dot(u, u)
}

/// Length: the fixed-point square root of the squared length.
pub open spec fn v_len(u: V3) -> int
    recommends
        v_len2(u) >= 0,
{
    fx_sqrt(v_len2(u))
}

/// Normalization: the vector divided by its length.
pub open spec fn v_unit(u: V3) -> V3
    recommends
        v_len(u) > 0,
{
    v_div(u, v_len(u))
}

/// Reflection about a normal: `v - 2·dot(v,n)·n`.
pub open spec fn v_reflect(v: V3, n: V3) -> V3 {
    v_sub(v, v_scale(n, fx_mul(2 * SCALE, v_dot(v, n))))
}

/// A squared length is never negative.
pub proof fn lemma_v_len2_nonneg(u: V3)
    ensures
        v_len2(u) >= 0,
{
    lemma_fx_mul_square_nonneg(u.0);
    lemma_fx_mul_square_nonneg(u.1);
    lemma_fx_mul_square_nonneg(u.2);
}

/// A positive squared length has a positive square root.
pub proof fn lemma_v_len_pos(u: V3)
    requires
        v_len2(u) > 0,
    ensures
        v_len(u) > 0,
{
    let x = v_len2(u) * (SCALE as int);
    assert(v_len2(u) * (SCALE as int) >= SCALE) by (nonlinear_arith)
        requires
            v_len2(u) >= 1,
    ;
    let r = v_len(u);
    lemma_v_len2_nonneg(u);
    lemma_fx_sqrt_exists(v_len2(u));
    assert(is_sqrt(x, r));
    assert(r > 0) by (nonlinear_arith)
        requires
            is_sqrt(x, r),
            x >= 1,
    ;
}

/// `fx_sqrt` of a nonnegative argument is a genuine floor square root.
pub proof fn lemma_fx_sqrt_exists(a: int)
    requires
        a >= 0,
    ensures
        is_sqrt(a * (SCALE as int), fx_sqrt(a)),
{
    let x = a * (SCALE as int);
    assert(a * (SCALE as int) >= 0) by (nonlinear_arith)
        requires
            a >= 0,
    ;
    lemma_is_sqrt_exists(x);
    let w = choose|w: int| #[trigger] is_sqrt(x, w);
    lemma_fx_sqrt_of(a, w);
}

/// Every nonnegative integer has a floor square root.
pub proof fn lemma_is_sqrt_exists(x: int)
    requires
        x >= 0,
    ensures
        exists|r: int| #[trigger] is_sqrt(x, r),
    decreases x,
{
    if x == 0 {
        assert(is_sqrt(0, 0));
    } else {
        lemma_is_sqrt_exists(x - 1);
        let r = choose|r: int| #[trigger] is_sqrt(x - 1, r);
        if x < (r + 1) * (r + 1) {
            assert(is_sqrt(x, r));
        } else {
            assert(x == (r + 1) * (r + 1));
            assert((r + 1) * (r + 1) < (r + 2) * (r + 2)) by (nonlinear_arith)
                requires
                    r >= 0,
            ;
            assert(is_sqrt(x, r + 1));
        }
    }
}

impl Vec3 {
    /// Build a vector from its components.
    pub fn new(x: Fix, y: Fix, z: Fix) -> (r: Vec3)
        ensures
            r@ == (x@, y@, z@),
    {
        Vec3 { x, y, z }
    }

    /// The component at a channel index; any index past the third channel is
    /// ruled out by precondition, as the design treats it as a programming
    /// error.
    pub fn index(&self, i: usize) -> (r: Fix)
        requires
            i < 3,
        ensures
            i == 0 ==> r@ == self@.0,
            i == 1 ==> r@ == self@.1,
            i == 2 ==> r@ == self@.2,
    {
        if i == 0 {
            self.x
        } else if i == 1 {
            self.y
        } else {
            self.z
        }
    }

    /// Replace the component at a channel index.
    pub fn set(&mut self, i: usize, value: Fix)
        requires
            i < 3,
        ensures
            i == 0 ==> final(self)@ == (value@, old(self)@.1, old(self)@.2),
            i == 1 ==> final(self)@ == (old(self)@.0, value@, old(self)@.2),
            i == 2 ==> final(self)@ == (old(self)@.0, old(self)@.1, value@),
    {
        if i == 0 {
            self.x = value;
        } else if i == 1 {
            self.y = value;
        } else {
            self.z = value;
        }
    }

    /// Component-wise sum.
    pub fn add(self, other: Vec3) -> (r: Vec3)
        ensures
            r@ == v_add(self@, other@),
    {
        Vec3 { x: self.x.add(other.x), y: self.y.add(other.y), z: self.z.add(other.z) }
    }

    /// Component-wise difference.
    pub fn sub(self, other: Vec3) -> (r: Vec3)
        ensures
            r@ == v_sub(self@, other@),
    {
        Vec3 { x: self.x.sub(other.x), y: self.y.sub(other.y), z: self.z.sub(other.z) }
    }

    /// Component-wise negation.
    pub fn neg(self) -> (r: Vec3)
        ensures
            r@ == v_neg(self@),
    {
        Vec3 { x: self.x.neg(), y: self.y.neg(), z: self.z.neg() }
    }

    /// Component-wise product.
    pub fn mul(self, other: Vec3) -> (r: Vec3)
        ensures
            r@ == v_mul(self@, other@),
    {
        Vec3 { x: self.x.mul(other.x), y: self.y.mul(other.y), z: self.z.mul(other.z) }
    }

    /// Scalar multiple.
    pub fn scale(self, c: Fix) -> (r: Vec3)
        ensures
            r@ == v_scale(self@, c@),
    {
        Vec3 { x: self.x.mul(c), y: self.y.mul(c), z: self.z.mul(c) }
    }

    /// Scalar quotient.
    pub fn div_scalar(self, c: Fix) -> (r: Vec3)
        requires
            c@ != 0,
        ensures
            r@ == v_div(self@, c@),
    {
        Vec3 { x: self.x.div(c), y: self.y.div(c), z: self.z.div(c) }
    }

    /// Squared length.
    pub fn length_squared(&self) -> (r: Fix)
        ensures
            r@ == v_len2(self@),
            r@ >= 0,
    {
        proof {
            lemma_v_len2_nonneg(self@);
        }
        self.x.mul(self.x).add(self.y.mul(self.y)).add(self.z.mul(self.z))
    }

    /// Length: the square root of the squared length.
    pub fn length(&self) -> (r: Fix)
        ensures
            r@ == v_len(self@),
            is_sqrt(v_len2(self@) * (SCALE as int), r@),
            r@ >= 0,
    {
        self.length_squared().sqrt()
    }

    /// Normalize to (approximately) unit length.  Normalizing a vector of
    /// zero length is a precondition violation, as the design demands.
    pub fn unit_vector(&self) -> (r: Vec3)
        requires
            v_len2(self@) > 0,
        ensures
            r@ == v_unit(self@),
    {
        proof {
            lemma_v_len_pos(self@);
        }
        let len = self.length();
        self.div_scalar(len)
    }

    /// Dot product.
    pub fn dot(&self, other: Vec3) -> (r: Fix)
        ensures
            r@ == v_dot(self@, other@),
    {
        self.x.mul(other.x).add(self.y.mul(other.y)).add(self.z.mul(other.z))
    }

    /// Cross product.
    pub fn cross(&self, other: Vec3) -> (r: Vec3)
        ensures
            r@ == v_cross(self@, other@),
    {
        Vec3 {
            x: self.y.mul(other.z).sub(self.z.mul(other.y)),
            y: self.z.mul(other.x).sub(self.x.mul(other.z)),
            z: self.x.mul(other.y).sub(self.y.mul(other.x)),
        }
    }

    /// Whether every component is below the degeneracy threshold in
    /// magnitude; at this resolution that is exactly the zero vector.
    pub fn near_zero(&self) -> (r: bool)
        ensures
            r == (self@ == (0int, 0int, 0int)),
    {
        self.x.raw == 0 && self.y.raw == 0 && self.z.raw == 0
    }

    /// Reflection about a normal.
    pub fn reflect(&self, normal: &Vec3) -> (r: Vec3)
        ensures
            r@ == v_reflect(self@, normal@),
    {
        let d = self.dot(*normal);
        let two_d = Fix { raw: 2 * SCALE }.mul(d);
        self.sub(normal.scale(two_d))
    }

    /// A vector with each component drawn uniformly from `[0, 1)`.
    pub fn random(rng: &mut rand::rngs::StdRng) -> (r: Vec3)
        ensures
            0 <= r@.0 < SCALE,
            0 <= r@.1 < SCALE,
            0 <= r@.2 < SCALE,
    {
        let x = crate::rng::random_fraction(rng);
        let y = crate::rng::random_fraction(rng);
        let z = crate::rng::random_fraction(rng);
        Vec3 { x, y, z }
    }

    /// A vector with each component drawn uniformly from `[min, max)`
    /// (degenerating to `min` when the interval is empty).
    pub fn random_in_range(min: Fix, max: Fix, rng: &mut rand::rngs::StdRng) -> (r: Vec3)
        requires
            crate::fixed::MIN_RAW <= min@ <= max@,
        ensures
            min@ <= r@.0 && min@ <= r@.1 && min@ <= r@.2,
            min@ < max@ ==> r@.0 < max@ && r@.1 < max@ && r@.2 < max@,
            min@ == max@ ==> r@ == (min@, min@, min@),
    {
        let diff = max.sub(min);
        let fx = crate::rng::random_fraction(rng);
        let fy = crate::rng::random_fraction(rng);
        let fz = crate::rng::random_fraction(rng);
        proof {
            lemma_fx_mul_fraction(diff@, fx@);
            lemma_fx_mul_fraction(diff@, fy@);
            lemma_fx_mul_fraction(diff@, fz@);
            assert(0 <= diff@ <= max@ - min@);
            crate::fixed::lemma_tdiv_exact(0int, SCALE as int);
            assert(diff@ == 0 ==> fx_mul(diff@, fx@) == 0 && fx_mul(diff@, fy@) == 0 && fx_mul(
                diff@,
                fz@,
            ) == 0);
        }
        Vec3 {
            x: min.add(diff.mul(fx)),
            y: min.add(diff.mul(fy)),
            z: min.add(diff.mul(fz)),
        }
    }

    /// Rejection-sample the cube `[-1, 1)^3` until the draw lies strictly
    /// inside the unit ball.  A draw of the zero vector is rejected too,
    /// since it could not be normalized.  The expected number of attempts
    /// is small; if an improbable run of rejections exhausts the attempt
    /// budget, a fixed interior point is returned so that the result is in
    /// the ball in every case.
    pub fn random_in_unit_sphere(rng: &mut rand::rngs::StdRng) -> (r: Vec3)
        ensures
            0 < v_len2(r@) < SCALE,
    {
        let minus_one = Fix { raw: -SCALE };
        let one = Fix { raw: SCALE };
        let mut attempts: u32 = 0;
        while attempts < 64
            invariant
                attempts <= 64,
                minus_one@ == -SCALE,
                one@ == SCALE,
            decreases 64 - attempts,
        {
            let p = Vec3::random_in_range(minus_one, one, rng);
            let ls = p.length_squared();
            if 0 < ls.raw && ls.raw < SCALE {
                return p;
            }
            attempts = attempts + 1;
        }
        let fallback = Vec3 { x: Fix { raw: 32768 }, y: Fix { raw: 0 }, z: Fix { raw: 0 } };
        proof {
            crate::fixed::lemma_tdiv_exact(16384, SCALE as int);
            crate::fixed::lemma_tdiv_exact(0int, SCALE as int);
            assert(32768 * 32768 == 16384 * (SCALE as int));
            assert(fx_mul(32768, 32768) == 16384);
            assert(fx_mul(0, 0) == 0);
            assert(v_len2(fallback@) == 16384);
        }
        fallback
    }

    /// A random vector of (approximately) unit length: a draw from the unit
    /// ball, normalized.
    pub fn random_unit_vector(rng: &mut rand::rngs::StdRng) -> (r: Vec3)
        ensures
            exists|p: V3| (0 < v_len2(p) < SCALE) && r@ == v_unit(p),
    {
        let p = Vec3::random_in_unit_sphere(rng);
        let u = p.unit_vector();
        proof {
            assert((0 < v_len2(p@) < SCALE) && u@ == v_unit(p@));
        }
        u
    }
}

/// The length of a vector is exactly the fixed-point square root of the
/// dot product of the vector with itself.
pub proof fn lemma_length_is_sqrt_of_dot(u: V3)
    ensures
        v_len(u) == fx_sqrt(v_dot(u, u)),
{
}

/// Normalizing keeps (approximately) unit length; on an axis-aligned
/// vector whose component is a whole multiple of 256 raw units the
/// arithmetic is exact, and the normalized vector has length exactly one.
pub proof fn lemma_unit_vector_axis_exact(m: int)
    requires
        0 < m <= 0x7f_ffff,
    ensures
        v_unit((256 * m, 0, 0)) == ((SCALE as int, 0int, 0int)),
        v_len(v_unit((256 * m, 0, 0))) == SCALE,
{
    let c = 256 * m;
    let u = (c, 0int, 0int);
    assert(c * c == (m * m) * (SCALE as int)) by (nonlinear_arith)
        requires
            c == 256 * m,
    ;
    crate::fixed::lemma_tdiv_exact(m * m, SCALE as int);
    assert(m * m <= 0x7f_ffff * 0x7f_ffff) by (nonlinear_arith)
        requires
            0 < m <= 0x7f_ffff,
    ;
    assert(m * m > 0) by (nonlinear_arith)
        requires
            m > 0,
    ;
    crate::fixed::lemma_tdiv_exact(0int, SCALE as int);
    assert(fx_mul(c, c) == m * m);
    assert(fx_mul(0, 0) == 0);
    assert(v_len2(u) == m * m);
    // The scaled squared length is a perfect square of `c`.
    assert((m * m) * (SCALE as int) == c * c) by (nonlinear_arith)
        requires
            c == 256 * m,
    ;
    assert(c * c < (c + 1) * (c + 1)) by (nonlinear_arith)
        requires
            c > 0,
    ;
    assert(is_sqrt((m * m) * (SCALE as int), c));
    lemma_fx_sqrt_of(m * m, c);
    assert(v_len(u) == c);
    // Dividing the vector by its own length gives exactly one unit.
    assert(c * (SCALE as int) == (SCALE as int) * c) by (nonlinear_arith);
    crate::fixed::lemma_tdiv_exact(SCALE as int, c);
    assert(fx_div(c, c) == SCALE);
    assert(0 * c == 0) by (nonlinear_arith);
    crate::fixed::lemma_tdiv_exact(0int, c);
    assert(fx_div(0, c) == 0);
    assert(v_unit(u) == ((SCALE as int, 0int, 0int)));
    // The unit vector's own length is exactly one.
    crate::fixed::lemma_tdiv_exact(SCALE as int, SCALE as int);
    assert((SCALE as int) * (SCALE as int) == (SCALE as int) * (SCALE as int));
    assert(fx_mul(SCALE as int, SCALE as int) == SCALE);
    assert(v_len2((SCALE as int, 0int, 0int)) == SCALE);
    assert((SCALE as int) * (SCALE as int) < ((SCALE as int) + 1) * ((SCALE as int) + 1))
        by (nonlinear_arith);
    assert(is_sqrt((SCALE as int) * (SCALE as int), SCALE as int));
    lemma_fx_sqrt_of(SCALE as int, SCALE as int);
}

/// The cross product is orthogonal to both of its factors: for vectors
/// whose components are whole units of bounded magnitude the fixed-point
/// arithmetic is exact, and both dot products vanish identically.
pub proof fn lemma_cross_orthogonal(a: int, b: int, c: int, d: int, e: int, f: int)
    requires
        -10000 <= a <= 10000,
        -10000 <= b <= 10000,
        -10000 <= c <= 10000,
        -10000 <= d <= 10000,
        -10000 <= e <= 10000,
        -10000 <= f <= 10000,
    ensures
        v_dot(
            v_cross(
                (a * SCALE, b * SCALE, c * SCALE),
                (d * SCALE, e * SCALE, f * SCALE),
            ),
            (a * SCALE, b * SCALE, c * SCALE),
        ) == 0,
        v_dot(
            v_cross(
                (a * SCALE, b * SCALE, c * SCALE),
                (d * SCALE, e * SCALE, f * SCALE),
            ),
            (d * SCALE, e * SCALE, f * SCALE),
        ) == 0,
{
    let s = SCALE as int;
    let u = (a * s, b * s, c * s);
    let v = (d * s, e * s, f * s);
    let g = b * f - c * e;
    let h = c * d - a * f;
    let i = a * e - b * d;
    assert(-200_000_000 <= g <= 200_000_000 && -200_000_000 <= h <= 200_000_000
        && -200_000_000 <= i <= 200_000_000) by (nonlinear_arith)
        requires
            g == b * f - c * e,
            h == c * d - a * f,
            i == a * e - b * d,
            -10000 <= a <= 10000,
            -10000 <= b <= 10000,
            -10000 <= c <= 10000,
            -10000 <= d <= 10000,
            -10000 <= e <= 10000,
            -10000 <= f <= 10000,
    ;
    lemma_cross_entry(b, f, c, e);
    lemma_cross_entry(c, d, a, f);
    lemma_cross_entry(a, e, b, d);
    assert(v_cross(u, v) == ((g * s, h * s, i * s)));
    lemma_dot_int(g, h, i, a, b, c);
    lemma_dot_int(g, h, i, d, e, f);
    assert(g * a + h * b + i * c == 0) by (nonlinear_arith)
        requires
            g == b * f - c * e,
            h == c * d - a * f,
            i == a * e - b * d,
    ;
    assert(g * d + h * e + i * f == 0) by (nonlinear_arith)
        requires
            g == b * f - c * e,
            h == c * d - a * f,
            i == a * e - b * d,
    ;
}

/// One entry of an integer-valued cross product is exact.
proof fn lemma_cross_entry(p: int, q: int, x: int, y: int)
    requires
        -10000 <= p <= 10000,
        -10000 <= q <= 10000,
        -10000 <= x <= 10000,
        -10000 <= y <= 10000,
    ensures
        fx_sub(
            fx_mul(p * (SCALE as int), q * (SCALE as int)),
            fx_mul(x * (SCALE as int), y * (SCALE as int)),
        ) == (p * q - x * y) * (SCALE as int),
{
    let s = SCALE as int;
    assert(-100_000_000 <= p * q <= 100_000_000 && -100_000_000 <= x * y <= 100_000_000)
        by (nonlinear_arith)
        requires
            -10000 <= p <= 10000,
            -10000 <= q <= 10000,
            -10000 <= x <= 10000,
            -10000 <= y <= 10000,
    ;
    assert(-(crate::fixed::MAX_RAW as int) <= p * q * s <= crate::fixed::MAX_RAW as int
        && -(crate::fixed::MAX_RAW as int) <= x * y * s <= crate::fixed::MAX_RAW as int
        && (p * q - x * y) * s == p * q * s - x * y * s) by (nonlinear_arith)
        requires
            -100_000_000 <= p * q <= 100_000_000,
            -100_000_000 <= x * y <= 100_000_000,
            s == SCALE,
    ;
    crate::fixed::lemma_fx_mul_int(p, q);
    crate::fixed::lemma_fx_mul_int(x, y);
}

/// The dot product of integer-valued vectors of bounded magnitude is
/// exact.
proof fn lemma_dot_int(g: int, h: int, i: int, x: int, y: int, z: int)
    requires
        -200_000_000 <= g <= 200_000_000,
        -200_000_000 <= h <= 200_000_000,
        -200_000_000 <= i <= 200_000_000,
        -10000 <= x <= 10000,
        -10000 <= y <= 10000,
        -10000 <= z <= 10000,
    ensures
        v_dot(
            (g * SCALE, h * SCALE, i * SCALE),
            (x * SCALE, y * SCALE, z * SCALE),
        ) == (g * x + h * y + i * z) * SCALE,
{
    let s = SCALE as int;
    assert(-2_000_000_000_000 <= g * x <= 2_000_000_000_000 && -2_000_000_000_000 <= h * y
        <= 2_000_000_000_000 && -2_000_000_000_000 <= i * z <= 2_000_000_000_000)
        by (nonlinear_arith)
        requires
            -200_000_000 <= g <= 200_000_000,
            -200_000_000 <= h <= 200_000_000,
            -200_000_000 <= i <= 200_000_000,
            -10000 <= x <= 10000,
            -10000 <= y <= 10000,
            -10000 <= z <= 10000,
    ;
    assert(-(crate::fixed::MAX_RAW as int) <= g * x * s <= crate::fixed::MAX_RAW as int
        && -(crate::fixed::MAX_RAW as int) <= h * y * s <= crate::fixed::MAX_RAW as int
        && -(crate::fixed::MAX_RAW as int) <= i * z * s <= crate::fixed::MAX_RAW as int
        && (g * x + h * y) * s == g * x * s + h * y * s && (g * x + h * y + i * z) * s == (g * x
        + h * y) * s + i * z * s) by (nonlinear_arith)
        requires
            -2_000_000_000_000 <= g * x <= 2_000_000_000_000,
            -2_000_000_000_000 <= h * y <= 2_000_000_000_000,
            -2_000_000_000_000 <= i * z <= 2_000_000_000_000,
            s == SCALE,
    ;
    crate::fixed::lemma_fx_mul_int(g, x);
    crate::fixed::lemma_fx_mul_int(h, y);
    crate::fixed::lemma_fx_mul_int(i, z);
}

/// The fixed-point product of a nonnegative scalar and a fraction below one
/// stays within `[0, scalar)`.
pub proof fn lemma_fx_mul_fraction(a: int, frac: int)
    requires
        0 <= a,
        0 <= frac < SCALE,
    ensures
        0 <= fx_mul(a, frac),
        a > 0 ==> fx_mul(a, frac) < a,
{
    assert(a * frac >= 0) by (nonlinear_arith)
        requires
            a >= 0,
            frac >= 0,
    ;
    crate::fixed::lemma_tdiv_nonneg(a * frac, SCALE as int);
    if a > 0 {
        assert(a * frac < (SCALE as int) * a) by (nonlinear_arith)
            requires
                a > 0,
                0 <= frac < SCALE,
        ;
        vstd::arithmetic::div_mod::lemma_multiply_divide_lt(a * frac, SCALE as int, a);
    }
}

} // verus!
