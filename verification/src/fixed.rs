//! Fixed-point scalars: the numeric ground of the tracer.
//!
//! A `Fix` holds a signed 64-bit raw value interpreted with `SCALE` raw units
//! per whole unit.  Arithmetic truncates toward zero (as the division of the
//! underlying machine does) and saturates at `MAX_RAW` / `MIN_RAW` instead of
//! overflowing.  The spec functions `fx_add`, `fx_sub`, `fx_neg`, `fx_mul`,
//! `fx_div` and `fx_sqrt` state that behaviour exactly over mathematical
//! integers, and every executable operation is proved equal to them.

use vstd::prelude::*;

verus! {

/// Raw units per whole unit: 16 fractional bits.
pub const SCALE: i64 = 65536;

/// Largest raw value; arithmetic saturates here rather than overflowing.
pub const MAX_RAW: i64 = i64::MAX;

/// Smallest raw value; symmetric to `MAX_RAW` so negation never overflows.
pub const MIN_RAW: i64 = -i64::MAX;

/// A fixed-point scalar. Any raw value is a valid `Fix`.
#[derive(Clone, Copy, Debug, PartialEq, Eq, Structural)]
pub struct Fix {
    pub raw: i64,
}

impl View for Fix {
    type V = int;

    open spec fn view(&self) -> int {
        self.raw as int
    }
}

/// Saturate a mathematical integer into the raw range.
pub open spec fn clip(x: int) -> int {
    if x > MAX_RAW {
        MAX_RAW as int
    } else if x < MIN_RAW {
        MIN_RAW as int
    } else {
        x
    }
}

/// Division truncating toward zero, as machine division does.
pub open spec fn tdiv(p: int, d: int) -> int
    recommends
        d != 0,
{
    if (p >= 0) == (d >= 0) {
        (vstd::math::abs(p) as int) / (vstd::math::abs(d) as int)
    } else {
        -((vstd::math::abs(p) as int) / (vstd::math::abs(d) as int))
    }
}

/// Saturating addition of raw values.
pub open spec fn fx_add(a: int, b: int) -> int {
    clip(a + b)
}

/// Saturating subtraction of raw values.
pub open spec fn fx_sub(a: int, b: int) -> int {
    clip(a - b)
}

/// Saturating negation of a raw value.
pub open spec fn fx_neg(a: int) -> int {
    clip(-a)
}

/// Fixed-point product: the wide product rescaled, truncated toward zero,
/// then saturated.
pub open spec fn fx_mul(a: int, b: int) -> int {
    clip(tdiv(a * b, SCALE as int))
}

/// Fixed-point quotient: the scaled dividend divided truncating toward zero,
/// then saturated.
pub open spec fn fx_div(a: int, b: int) -> int
    recommends
        b != 0,
{
    clip(tdiv(a * (SCALE as int), b))
}

/// `r` is the integer square root (rounded down) of `x`.
pub open spec fn is_sqrt(x: int, r: int) -> bool {
    0 <= r && r * r <= x && x < (r + 1) * (r + 1)
}

/// The integer square root of a nonnegative raw value scaled up, so that the
/// result is again a raw value: the fixed-point square root.
pub open spec fn fx_sqrt(a: int) -> int
    recommends
        a >= 0,
{
    choose|r: int| #[trigger] is_sqrt(a * (SCALE as int), r)
}

/// Clamp a raw value into `[lo, hi]`.
pub open spec fn fx_clamp(x: int, lo: int, hi: int) -> int
    recommends
        lo <= hi,
{
    if x < lo {
        lo
    } else if x > hi {
        hi
    } else {
        x
    }
}

/// Saturate a wide intermediate into the raw range.
fn clip64(x: i128) -> (r: i64)
    ensures
        r as int == clip(x as int),
{
    if x > MAX_RAW as i128 {
        MAX_RAW
    } else if x < MIN_RAW as i128 {
        MIN_RAW
    } else {
        x as i64
    }
}

/// Divide wide intermediates truncating toward zero.  The computation goes
/// through magnitudes, exactly as the `tdiv` model states it.
fn tdiv128(p: i128, d: i128) -> (q: i128)
    requires
        d != 0,
        i128::MIN < p,
        i128::MIN < d,
    ensures
        q as int == tdiv(p as int, d as int),
{
    let pm: u128 = if p >= 0 {
        p as u128
    } else {
        (-p) as u128
    };
    let dm: u128 = if d >= 0 {
        d as u128
    } else {
        (-d) as u128
    };
    let qm: u128 = pm / dm;
    assert(pm as int == vstd::math::abs(p as int));
    assert(dm as int == vstd::math::abs(d as int));
    assert(qm <= pm) by {
        vstd::arithmetic::div_mod::lemma_div_is_ordered_by_denominator(pm as int, 1, dm as int);
    }
    if (p >= 0) == (d >= 0) {
        qm as i128
    } else {
        -(qm as i128)
    }
}

impl Fix {
    /// The zero scalar.
    pub fn zero() -> (r: Fix)
        ensures
            r@ == 0,
    {
        Fix { raw: 0 }
    }

    /// One whole unit.
    pub fn one() -> (r: Fix)
        ensures
            r@ == SCALE,
    {
        Fix { raw: SCALE }
    }

    /// A whole number of units, saturated into range.
    pub fn from_int(n: i64) -> (r: Fix)
        ensures
            r@ == clip(n * (SCALE as int)),
    {
        proof {
            assert(i128::MIN < (n as int) * (SCALE as int) < i128::MAX) by (nonlinear_arith)
                requires
                    -0x8000_0000_0000_0000 <= n as int <= 0x7fff_ffff_ffff_ffff,
            ;
        }
        Fix { raw: clip64((n as i128) * (SCALE as i128)) }
    }

    /// Saturating addition.
    pub fn add(self, other: Fix) -> (r: Fix)
        ensures
            r@ == fx_add(self@, other@),
    {
        Fix { raw: clip64((self.raw as i128) + (other.raw as i128)) }
    }

    /// Saturating subtraction.
    pub fn sub(self, other: Fix) -> (r: Fix)
        ensures
            r@ == fx_sub(self@, other@),
    {
        Fix { raw: clip64((self.raw as i128) - (other.raw as i128)) }
    }

    /// Saturating negation.
    pub fn neg(self) -> (r: Fix)
        ensures
            r@ == fx_neg(self@),
    {
        Fix { raw: clip64(-(self.raw as i128)) }
    }

    /// Fixed-point multiplication: truncating toward zero, saturating.
    pub fn mul(self, other: Fix) -> (r: Fix)
        ensures
            r@ == fx_mul(self@, other@),
    {
        proof {
            let a = self.raw as int;
            let b = other.raw as int;
            assert(i128::MIN < a * b < i128::MAX) by (nonlinear_arith)
                requires
                    -0x8000_0000_0000_0000 <= a <= 0x7fff_ffff_ffff_ffff,
                    -0x8000_0000_0000_0000 <= b <= 0x7fff_ffff_ffff_ffff,
            ;
        }
        let p: i128 = (self.raw as i128) * (other.raw as i128);
        Fix { raw: clip64(tdiv128(p, SCALE as i128)) }
    }

    /// Fixed-point division: truncating toward zero, saturating.
    /// Division by zero is a precondition violation, never a run-time fault.
    pub fn div(self, other: Fix) -> (r: Fix)
        requires
            other@ != 0,
        ensures
            r@ == fx_div(self@, other@),
    {
        proof {
            let a = self.raw as int;
            assert(i128::MIN < a * (SCALE as int) < i128::MAX) by (nonlinear_arith)
                requires
                    -0x8000_0000_0000_0000 <= a <= 0x7fff_ffff_ffff_ffff,
            ;
        }
        let p: i128 = (self.raw as i128) * (SCALE as i128);
        Fix { raw: clip64(tdiv128(p, other.raw as i128)) }
    }

    /// Fixed-point square root of a nonnegative scalar, rounded down.
    pub fn sqrt(self) -> (r: Fix)
        requires
            self@ >= 0,
        ensures
            is_sqrt(self@ * (SCALE as int), r@),
            r@ == fx_sqrt(self@),
            r@ >= 0,
    {
        let x: u128 = (self.raw as u128) * (SCALE as u128);
        let mut lo: u128 = 0;
        let mut hi: u128 = 0x200_0000_0000;
        proof {
            assert((x as int) < hi * hi) by (nonlinear_arith)
                requires
                    0 <= x as int <= 0x7fff_ffff_ffff_ffff * 0x1_0000,
                    hi == 0x200_0000_0000,
            ;
        }
        while hi - lo > 1
            invariant
                lo * lo <= x as int,
                (x as int) < hi * hi,
                lo < hi <= 0x200_0000_0000,
            decreases hi - lo,
        {
            let mid: u128 = lo + (hi - lo) / 2;
            proof {
                assert(mid * mid < u128::MAX) by (nonlinear_arith)
                    requires
                        0 <= mid as int <= 0x200_0000_0000,
                ;
            }
            if mid * mid <= x {
                lo = mid;
            } else {
                hi = mid;
            }
        }
        proof {
            assert(lo < 0x100_0000_0000) by (nonlinear_arith)
                requires
                    lo * lo <= x as int,
                    0 <= x as int <= 0x7fff_ffff_ffff_ffff * 0x1_0000,
            ;
            assert(is_sqrt(x as int, lo as int));
            lemma_fx_sqrt_of(self@, lo as int);
        }
        Fix { raw: lo as i64 }
    }

    /// Clamp into the closed interval `[lo, hi]`.
    pub fn clamp(self, lo: Fix, hi: Fix) -> (r: Fix)
        requires
            lo@ <= hi@,
        ensures
            r@ == fx_clamp(self@, lo@, hi@),
    {
        if self.raw < lo.raw {
            lo
        } else if self.raw > hi.raw {
            hi
        } else {
            self
        }
    }
}

/// Floor square roots are unique: two raw values that both satisfy `is_sqrt`
/// of the same argument are equal.
pub proof fn lemma_is_sqrt_unique(x: int, r1: int, r2: int)
    requires
        is_sqrt(x, r1),
        is_sqrt(x, r2),
    ensures
        r1 == r2,
{
    assert(r1 == r2) by (nonlinear_arith)
        requires
            0 <= r1,
            0 <= r2,
            r1 * r1 <= x,
            x < (r1 + 1) * (r1 + 1),
            r2 * r2 <= x,
            x < (r2 + 1) * (r2 + 1),
    ;
}

/// A witness for `is_sqrt` pins down `fx_sqrt`.
pub proof fn lemma_fx_sqrt_of(a: int, r: int)
    requires
        a >= 0,
        is_sqrt(a * (SCALE as int), r),
    ensures
        fx_sqrt(a) == r,
{
    assert(is_sqrt(a * (SCALE as int), r));
    let w = choose|w: int| #[trigger] is_sqrt(a * (SCALE as int), w);
    lemma_is_sqrt_unique(a * (SCALE as int), w, r);
}

/// Division truncating toward zero gives back an exact multiple: there is no
/// rounding when the dividend is a multiple of the divisor.
pub proof fn lemma_tdiv_exact(k: int, d: int)
    requires
        d > 0,
    ensures
        tdiv(k * d, d) == k,
{
    if k >= 0 {
        assert(k * d >= 0 && vstd::math::abs(k * d) == k * d && k * d == d * k)
            by (nonlinear_arith)
            requires
                k >= 0,
                d > 0,
        ;
        vstd::arithmetic::div_mod::lemma_div_multiples_vanish(k, d);
    } else {
        assert(k * d < 0 && vstd::math::abs(k * d) == (-k) * d && (-k) * d == d * (-k))
            by (nonlinear_arith)
            requires
                k < 0,
                d > 0,
        ;
        vstd::arithmetic::div_mod::lemma_div_multiples_vanish(-k, d);
    }
}

/// Truncating division of a nonnegative dividend by a positive divisor is
/// ordinary flooring division, and stays nonnegative and no larger than the
/// dividend.
pub proof fn lemma_tdiv_nonneg(p: int, d: int)
    requires
        p >= 0,
        d > 0,
    ensures
        tdiv(p, d) == p / d,
        0 <= tdiv(p, d) <= p,
{
    vstd::arithmetic::div_mod::lemma_div_pos_is_pos(p, d);
    vstd::arithmetic::div_mod::lemma_div_is_ordered_by_denominator(p, 1, d);
}

/// Truncating division is monotone in the dividend.
pub proof fn lemma_tdiv_monotone(p1: int, p2: int, d: int)
    requires
        p1 <= p2,
        d > 0,
    ensures
        tdiv(p1, d) <= tdiv(p2, d),
{
    if p1 >= 0 {
        vstd::arithmetic::div_mod::lemma_div_is_ordered(p1, p2, d);
    } else if p2 < 0 {
        vstd::arithmetic::div_mod::lemma_div_is_ordered(-p2, -p1, d);
    } else {
        vstd::arithmetic::div_mod::lemma_div_pos_is_pos(p2, d);
        vstd::arithmetic::div_mod::lemma_div_pos_is_pos(-p1, d);
    }
}

/// Fixed-point division is monotone in the dividend, for a positive
/// divisor.
pub proof fn lemma_fx_div_monotone(n1: int, n2: int, d: int)
    requires
        n1 <= n2,
        d > 0,
    ensures
        fx_div(n1, d) <= fx_div(n2, d),
{
    lemma_tdiv_monotone(n1 * (SCALE as int), n2 * (SCALE as int), d);
}

/// Products of integer-valued scalars are exact: multiplying `x` and `y`
/// whole units neither truncates nor saturates while the result stays in
/// range.
pub proof fn lemma_fx_mul_int(x: int, y: int)
    requires
        -(MAX_RAW as int) <= x * y * (SCALE as int) <= MAX_RAW as int,
    ensures
        fx_mul(x * (SCALE as int), y * (SCALE as int)) == x * y * (SCALE as int),
{
    assert((x * (SCALE as int)) * (y * (SCALE as int)) == (x * y * (SCALE as int)) * (
    SCALE as int)) by (nonlinear_arith);
    lemma_tdiv_exact(x * y * (SCALE as int), SCALE as int);
}

/// A fixed-point square is never negative.
pub proof fn lemma_fx_mul_square_nonneg(a: int)
    ensures
        fx_mul(a, a) >= 0,
{
    assert(a * a >= 0) by (nonlinear_arith);
    lemma_tdiv_nonneg(a * a, SCALE as int);
}

/// The fixed-point product of nonnegative scalars is nonnegative.
pub proof fn lemma_fx_mul_nonneg(a: int, b: int)
    requires
        a >= 0,
        b >= 0,
    ensures
        fx_mul(a, b) >= 0,
{
    assert(a * b >= 0) by (nonlinear_arith)
        requires
            a >= 0,
            b >= 0,
    ;
    lemma_tdiv_nonneg(a * b, SCALE as int);
}

/// Multiplying by a factor of at most one unit is decreasing: the
/// fixed-point product stays within `[0, b]`.
pub proof fn lemma_fx_mul_le(a: int, b: int)
    requires
        0 <= a <= SCALE,
        0 <= b,
    ensures
        0 <= fx_mul(a, b) <= b,
{
    assert(0 <= a * b <= (SCALE as int) * b && b * (SCALE as int) == (SCALE as int) * b)
        by (nonlinear_arith)
        requires
            0 <= a <= SCALE,
            0 <= b,
    ;
    lemma_tdiv_nonneg(a * b, SCALE as int);
    lemma_tdiv_monotone(a * b, (SCALE as int) * b, SCALE as int);
    lemma_tdiv_exact(b, SCALE as int);
}

} // verus!
