//! Colours: channel intensities accumulated in linear light, encoded to
//! discrete RGB values only at the very end.
//!
//! During accumulation a channel may take any nonnegative intensity; at
//! pixel encoding it is averaged over the samples, gamma-corrected with a
//! square root, clamped to just below one whole unit, and scaled to an
//! integer in `[0, 255]` — clamping before scaling, so a full intensity of
//! exactly one yields 255 and never 256.

use vstd::prelude::*;

use crate::fixed::{
    clip, fx_clamp, fx_div, fx_mul, fx_sqrt, lemma_fx_mul_nonneg, lemma_tdiv_nonneg, Fix, SCALE,
};
use crate::vec3::{v_add, v_mul, v_scale, Vec3, V3};

verus! {

/// The largest raw channel value a pixel may encode: just below one unit,
/// so that scaling by 256 can never reach 256.
pub const ALMOST_ONE_RAW: i64 = 65470;

/// The averaging factor for a sample count: one unit divided by the count.
pub open spec fn scale_of(samples: int) -> int {
    fx_div(SCALE as int, clip(samples * (SCALE as int)))
}

/// One channel after averaging and gamma correction (square root).
pub open spec fn gamma_channel(c: int, samples: int) -> int
    recommends
        c >= 0,
        samples > 0,
{
    fx_sqrt(fx_mul(c, scale_of(samples)))
}

/// One channel encoded to a discrete value: clamped into
/// `[0, ALMOST_ONE_RAW]` first, then scaled by 256 and truncated.
pub open spec fn encode_channel(c: int) -> int {
    fx_clamp(c, 0, ALMOST_ONE_RAW as int) / 256
}

/// A channel of exactly one unit is clamped to just below one before it is
/// scaled, so it encodes to 255 and never 256.
pub proof fn lemma_full_intensity_encodes_255()
    ensures
        encode_channel(SCALE as int) == 255,
{
    assert(fx_clamp(SCALE as int, 0, ALMOST_ONE_RAW as int) == ALMOST_ONE_RAW);
    vstd::arithmetic::div_mod::lemma_fundamental_div_mod_converse(
        ALMOST_ONE_RAW as int,
        256,
        255,
        190,
    );
}

/// An encoded channel always fits the discrete range `[0, 255]`.
pub proof fn lemma_encode_channel_in_range(c: int)
    ensures
        0 <= encode_channel(c) <= 255,
{
    let clamped = fx_clamp(c, 0, ALMOST_ONE_RAW as int);
    vstd::arithmetic::div_mod::lemma_div_pos_is_pos(clamped, 256);
    vstd::arithmetic::div_mod::lemma_div_is_ordered(clamped, ALMOST_ONE_RAW as int, 256);
    vstd::arithmetic::div_mod::lemma_fundamental_div_mod_converse(
        ALMOST_ONE_RAW as int,
        256,
        255,
        190,
    );
}

/// Relies on the standard library's `String::push`: appends exactly the
/// one character to the end of the string.
pub assume_specification[ String::push ](s: &mut String, c: char)
    ensures
        final(s)@ == old(s)@.push(c),
;

/// The character for one decimal digit.
pub open spec fn digit_char(d: int) -> char
    recommends
        0 <= d <= 9,
{
    if d == 0 {
        '0'
    } else if d == 1 {
        '1'
    } else if d == 2 {
        '2'
    } else if d == 3 {
        '3'
    } else if d == 4 {
        '4'
    } else if d == 5 {
        '5'
    } else if d == 6 {
        '6'
    } else if d == 7 {
        '7'
    } else if d == 8 {
        '8'
    } else {
        '9'
    }
}

/// The decimal representation of a pixel channel value, without leading
/// zeroes.
pub open spec fn dec_rep(n: int) -> Seq<char>
    recommends
        0 <= n <= 999,
{
    if n < 10 {
        seq![digit_char(n)]
    } else if n < 100 {
        seq![digit_char(n / 10), digit_char(n % 10)]
    } else {
        seq![digit_char(n / 100), digit_char((n / 10) % 10), digit_char(n % 10)]
    }
}

/// One decimal digit as a character.
fn digit_to_char(d: u8) -> (c: char)
    requires
        d <= 9,
    ensures
        c == digit_char(d as int),
{
    if d == 0 {
        '0'
    } else if d == 1 {
        '1'
    } else if d == 2 {
        '2'
    } else if d == 3 {
        '3'
    } else if d == 4 {
        '4'
    } else if d == 5 {
        '5'
    } else if d == 6 {
        '6'
    } else if d == 7 {
        '7'
    } else if d == 8 {
        '8'
    } else {
        '9'
    }
}

/// Append a channel value's decimal representation to a string.
fn push_decimal(s: &mut String, n: u8)
    ensures
        final(s)@ == old(s)@ + dec_rep(n as int),
{
    if n >= 100 {
        s.push(digit_to_char(n / 100));
        s.push(digit_to_char((n / 10) % 10));
        s.push(digit_to_char(n % 10));
        proof {
            assert(s@ =~= old(s)@ + dec_rep(n as int));
        }
    } else if n >= 10 {
        s.push(digit_to_char(n / 10));
        s.push(digit_to_char(n % 10));
        proof {
            assert(s@ =~= old(s)@ + dec_rep(n as int));
        }
    } else {
        s.push(digit_to_char(n));
        proof {
            assert(s@ =~= old(s)@ + dec_rep(n as int));
        }
    }
}

/// A colour: three channel intensities.
#[derive(Clone, Copy, Debug, PartialEq, Eq, Structural)]
pub struct Colour {
    pub channels: Vec3,
}

impl View for Colour {
    type V = V3;

    open spec fn view(&self) -> V3 {
        self.channels@
    }
}

impl Colour {
    /// Build a colour from its red, green and blue intensities.
    pub fn new(r: Fix, g: Fix, b: Fix) -> (c: Colour)
        ensures
            c@ == (r@, g@, b@),
    {
        Colour { channels: Vec3 { x: r, y: g, z: b } }
    }

    /// The red channel.
    pub fn r(&self) -> (v: Fix)
        ensures
            v@ == self@.0,
    {
        self.channels.x
    }

    /// The green channel.
    pub fn g(&self) -> (v: Fix)
        ensures
            v@ == self@.1,
    {
        self.channels.y
    }

    /// The blue channel.
    pub fn b(&self) -> (v: Fix)
        ensures
            v@ == self@.2,
    {
        self.channels.z
    }

    /// Channel-wise sum, for accumulating sample contributions.
    pub fn add(self, other: Colour) -> (c: Colour)
        ensures
            c@ == v_add(self@, other@),
    {
        Colour { channels: self.channels.add(other.channels) }
    }

    /// Channel-wise product, for attenuating a colour by an albedo.
    pub fn mul(self, other: Colour) -> (c: Colour)
        ensures
            c@ == v_mul(self@, other@),
    {
        Colour { channels: self.channels.mul(other.channels) }
    }

    /// Scale every channel by one factor.
    pub fn scale(self, f: Fix) -> (c: Colour)
        ensures
            c@ == v_scale(self@, f@),
    {
        Colour { channels: self.channels.scale(f) }
    }

    /// Average the accumulated intensities over the sample count and apply
    /// gamma correction (square root per channel).
    pub fn gamma_corrected(&self, samples_per_pixel: i64) -> (c: Colour)
        requires
            samples_per_pixel > 0,
            self@.0 >= 0,
            self@.1 >= 0,
            self@.2 >= 0,
        ensures
            c@.0 == gamma_channel(self@.0, samples_per_pixel as int),
            c@.1 == gamma_channel(self@.1, samples_per_pixel as int),
            c@.2 == gamma_channel(self@.2, samples_per_pixel as int),
            c@.0 >= 0,
            c@.1 >= 0,
            c@.2 >= 0,
    {
        let n = Fix::from_int(samples_per_pixel);
        proof {
            assert(samples_per_pixel * (SCALE as int) >= SCALE) by (nonlinear_arith)
                requires
                    samples_per_pixel >= 1,
            ;
            lemma_tdiv_nonneg(SCALE as int * (SCALE as int), clip(
                samples_per_pixel * (SCALE as int),
            ));
            lemma_fx_mul_nonneg(self@.0, scale_of(samples_per_pixel as int));
            lemma_fx_mul_nonneg(self@.1, scale_of(samples_per_pixel as int));
            lemma_fx_mul_nonneg(self@.2, scale_of(samples_per_pixel as int));
        }
        let factor = Fix::one().div(n);
        Colour {
            channels: Vec3 {
                x: self.channels.x.mul(factor).sqrt(),
                y: self.channels.y.mul(factor).sqrt(),
                z: self.channels.z.mul(factor).sqrt(),
            },
        }
    }

    /// Encode to one discrete RGB triple: clamp each channel into
    /// `[0, ALMOST_ONE_RAW]`, scale by 256, truncate.
    pub fn pixel_triple(&self) -> (p: (u8, u8, u8))
        ensures
            p.0 == encode_channel(self@.0),
            p.1 == encode_channel(self@.1),
            p.2 == encode_channel(self@.2),
    {
        let zero = Fix::zero();
        let top = Fix { raw: ALMOST_ONE_RAW };
        let r = self.channels.x.clamp(zero, top);
        let g = self.channels.y.clamp(zero, top);
        let b = self.channels.z.clamp(zero, top);
        ((r.raw as u32 / 256) as u8, (g.raw as u32 / 256) as u8, (b.raw as u32 / 256) as u8)
    }

    /// The pixel line an output sink receives: the three encoded channel
    /// values in decimal, separated by single spaces, ending in a newline.
    pub fn pixel_string(&self) -> (s: String)
        ensures
            s@ == dec_rep(encode_channel(self@.0)) + seq![' '] + dec_rep(encode_channel(self@.1))
                + seq![' '] + dec_rep(encode_channel(self@.2)) + seq!['\n'],
    {
        let (r, g, b) = self.pixel_triple();
        let mut s = String::new();
        push_decimal(&mut s, r);
        s.push(' ');
        push_decimal(&mut s, g);
        s.push(' ');
        push_decimal(&mut s, b);
        s.push('\n');
        proof {
            assert(s@ =~= dec_rep(encode_channel(self@.0)) + seq![' '] + dec_rep(
                encode_channel(self@.1),
            ) + seq![' '] + dec_rep(encode_channel(self@.2)) + seq!['\n']);
        }
        s
    }
}

} // verus!
