//! Ranges of scalars: the window of ray parameters in which a hit counts,
//! and the range to which a colour channel is held.

use crate::scalar::{Scalar, INFINITY_BITS, NEG_INFINITY_BITS};
use vstd::prelude::*;

verus! {

/// A range from `min` to `max`. A range with `min` above `max` is accepted
/// and holds nothing.
#[derive(Clone, Copy, Debug, PartialEq, Eq, Structural)]
pub struct Interval {
    pub min: Scalar,
    pub max: Scalar,
}

impl Default for Interval {
    /// The empty range, from positive to negative infinity.
    fn default() -> (r: Interval)
        ensures
            r.min.bits == INFINITY_BITS,
            r.max.bits == NEG_INFINITY_BITS,
    {
        Interval { min: Scalar::from_bits(INFINITY_BITS), max: Scalar::from_bits(NEG_INFINITY_BITS) }
    }
}

impl Interval {
    /// Whether `x` lies in the range, the bounds included.
    pub open spec fn contains_spec(&self, x: Scalar) -> bool {
        self.min.le(x) && x.le(self.max)
    }

    /// Whether `x` lies in the range, the bounds excluded.
    pub open spec fn surrounds_spec(&self, x: Scalar) -> bool {
        self.min.lt(x) && x.lt(self.max)
    }

    /// `x` brought into the range: `min` when `x` is below it, `max` when
    /// `x` is above it, and `x` itself otherwise, a NaN included.
    pub open spec fn clamp_spec(&self, x: Scalar) -> Scalar {
        if x.lt(self.min) {
            self.min
        } else if x.gt(self.max) {
            self.max
        } else {
            x
        }
    }

    /// Whether `x` lies in the range, the bounds included.
    #[verifier::when_used_as_spec(contains_spec)]
    pub fn contains(&self, x: Scalar) -> (r: bool)
        ensures
            r == self.contains_spec(x),
    {
        self.min.le(x) && x.le(self.max)
    }

    /// Whether `x` lies in the range, the bounds excluded.
    #[verifier::when_used_as_spec(surrounds_spec)]
    pub fn surrounds(&self, x: Scalar) -> (r: bool)
        ensures
            r == self.surrounds_spec(x),
    {
        self.min.lt(x) && x.lt(self.max)
    }

    /// `x` brought into the range. Where the range holds anything and `x`
    /// is no NaN, the result lies in the range.
    #[verifier::when_used_as_spec(clamp_spec)]
    pub fn clamp(&self, x: Scalar) -> (r: Scalar)
        ensures
            r == self.clamp_spec(x),
            self.min.le(self.max) && !x.is_nan() ==> self.contains(r),
    {
        if x.lt(self.min) {
            return self.min;
        }
        if x.gt(self.max) {
            return self.max;
        }
        x
    }

    /// A range with `min` above `max` holds no scalar, with its bounds or
    /// without them.
    pub proof fn lemma_malformed_holds_nothing(&self, x: Scalar)
        requires
            self.max.lt(self.min),
        ensures
            !self.contains(x),
            !self.surrounds(x),
    {
    }
}

/// The range from `min` to `max`.
pub fn new(min: Scalar, max: Scalar) -> (r: Interval)
    ensures
        r.min == min,
        r.max == max,
{
    Interval { min, max }
}

} // verus!
