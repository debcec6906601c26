//! A closed scalar range, used for valid hit distances and for color
//! clamping.  The empty sentinel puts the saturation bound, which
//! stands in for infinity, on the wrong side of zero.

use vstd::prelude::*;

verus! {

use crate::fx::FX_MAX;

/// A scalar range from `min` to `max`.
#[derive(Clone, Copy, Debug, PartialEq, Eq, Structural)]
pub struct Interval {
    pub min: i64,
    pub max: i64,
}

/// Specification twin of `Interval::surrounds`.
pub open spec fn s_surrounds(x: Interval, y: int) -> bool {
    x.min < y && y < x.max
}

/// Specification twin of `Interval::clamp`.
pub open spec fn s_clamp(x: Interval, y: int) -> int {
    if y < x.min {
        x.min as int
    } else if y > x.max {
        x.max as int
    } else {
        y
    }
}

impl Interval {
    /// Build an interval from its two bounds.
    pub fn new(min: i64, max: i64) -> (r: Interval)
        ensures
            r == (Interval { min, max }),
    {
        Interval { min, max }
    }

    /// Whether `y` lies strictly inside the interval.
    pub fn surrounds(x: &Interval, y: i64) -> (r: bool)
        ensures
            r == s_surrounds(*x, y as int),
    {
        x.min < y && y < x.max
    }

    /// `y` forced into the interval.
    pub fn clamp(x: &Interval, y: i64) -> (r: i64)
        ensures
            r as int == s_clamp(*x, y as int),
    {
        if y < x.min {
            return x.min;
        }
        if y > x.max {
            return x.max;
        }
        y
    }
}

impl Default for Interval {
    /// The empty interval, which surrounds nothing.
    fn default() -> (r: Interval)
        ensures
            r == (Interval { min: FX_MAX, max: (-FX_MAX) as i64 }),
    {
        Interval { min: FX_MAX, max: -FX_MAX }
    }
}

} // verus!
