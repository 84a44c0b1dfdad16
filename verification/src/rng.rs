//! Randomness, threaded explicitly as a generator value.
//!
//! The tracer never reaches for a process-wide generator: every sampling
//! routine takes `&mut rand::rngs::StdRng`, so a caller that seeds the
//! generator gets a reproducible render.  Nothing is promised of the drawn
//! bits themselves; every function that consumes a draw states what holds
//! of its result whatever the bits were.

use vstd::prelude::*;

use rand::RngCore;

use crate::fixed::{Fix, SCALE};

verus! {

/// Relies on rand's `StdRng` being an ordinary value type; the generator is
/// opaque here and only the wrapper below ever touches it.
#[verifier::external_type_specification]
#[verifier::external_body]
pub struct ExStdRng(rand::rngs::StdRng);

/// Relies on rand's `RngCore::next_u64` for `StdRng`: draws the next 64
/// pseudo-random bits.  Nothing is promised of the value.
#[verifier::external_body]
pub(crate) fn rng_next_u64(rng: &mut rand::rngs::StdRng) -> u64 {
    rng.next_u64()
}

/// Draw a fixed-point fraction uniform over the raw values of `[0, 1)`.
pub(crate) fn random_fraction(rng: &mut rand::rngs::StdRng) -> (f: Fix)
    ensures
        0 <= f@ < SCALE,
{
    let bits = rng_next_u64(rng);
    let low = bits % (SCALE as u64);
    Fix { raw: low as i64 }
}

} // verus!
