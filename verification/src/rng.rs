//! Source of randomness for the sampling helpers.
//!
//! All randomness of the renderer flows through one process-wide
//! uniform generator, drawn 16 bits at a time so that a draw covers
//! exactly the fixed-point grid of the unit interval.

use vstd::prelude::*;

verus! {

use crate::fx::{SCALE, s_add, s_mul, s_sub};

/// Relies on rand::random::<u16>: a uniform random 16-bit value from
/// the thread-local generator.  Nothing is promised of the outcome.
#[verifier::external_body]
fn random_u16() -> u16 {
    rand::random::<u16>()
}

/// A uniform random scalar in `[0, 1)`, one fixed-point unit apart.
pub fn random_scalar() -> (r: i64)
    ensures
        0 <= r < SCALE,
{
    let d = random_u16();
    d as i64
}

/// A random scalar `min + (max - min) * u` for a uniform `u` in `[0, 1)`.
pub fn random_scalar_between(min: i64, max: i64) -> (r: i64)
    ensures
        exists|u: int|
            0 <= u < SCALE && r as int == s_add(
                min as int,
                s_mul(s_sub(max as int, min as int), u),
            ),
{
    let u = random_scalar();
    let d = crate::fx::fx_sub(max, min);
    let s = crate::fx::fx_mul(d, u);
    let r = crate::fx::fx_add(min, s);
    proof {
        assert(r as int == s_add(min as int, s_mul(s_sub(max as int, min as int), u as int)));
    }
    r
}

} // verus!
