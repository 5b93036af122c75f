//! Closed ranges of numbers: the valid stretch of a ray, the range of a
//! colour channel.

use vstd::prelude::*;
use crate::scalar::Scalar;
use crate::scalar::INFINITY_BITS;
use crate::scalar::SIGN_BIT;

verus! {

/// The closed range from `min` to `max`. Nothing forces `min <= max`; a
/// range without it contains nothing.
#[derive(Clone, Copy, Debug, PartialEq, Eq, Structural)]
pub struct Interval {
    pub min: Scalar,
    pub max: Scalar,
}

impl Interval {
    /// `min <= x <= max`, as the numbers compare.
    pub open spec fn holds(self, x: Scalar) -> bool {
        self.min.at_most(x) && x.at_most(self.max)
    }

    /// `x` moved to the nearer bound when it lies outside, `min` tried first.
    pub open spec fn saturated(self, x: Scalar) -> Scalar {
        if x.below(self.min) {
            self.min
        } else if self.max.below(x) {
            self.max
        } else {
            x
        }
    }

    /// Whether the bounds are numbers with `min <= max`.
    pub open spec fn proper(self) -> bool {
        self.min.at_most(self.max)
    }

    pub fn new(i: Scalar, j: Scalar) -> (r: Interval)
        ensures
            r == (Interval { min: i, max: j }),
    {
        Interval { min: i, max: j }
    }

    /// The range from positive to negative infinity, which holds nothing.
    pub fn empty() -> (r: Interval)
        ensures
            r.min.bits == INFINITY_BITS,
            r.max.bits == INFINITY_BITS + SIGN_BIT,
            forall|x: Scalar| !r.holds(x),
    {
        let r = Interval {
            min: Scalar { bits: INFINITY_BITS },
            max: Scalar { bits: INFINITY_BITS + SIGN_BIT },
        };
        assert forall|x: Scalar| !r.holds(x) by {
            if r.holds(x) {
                assert(r.min.ordinal() <= x.ordinal() <= r.max.ordinal());
            }
        }
        r
    }

    /// The range from negative to positive infinity, which holds every number.
    pub fn universe() -> (r: Interval)
        ensures
            r.min.bits == INFINITY_BITS + SIGN_BIT,
            r.max.bits == INFINITY_BITS,
            forall|x: Scalar| r.holds(x) <==> !x.nan(),
    {
        Interval {
            min: Scalar { bits: INFINITY_BITS + SIGN_BIT },
            max: Scalar { bits: INFINITY_BITS },
        }
    }

    /// Whether `x` lies in the range, the bounds included.
    pub fn contains(&self, x: Scalar) -> (r: bool)
        ensures
            r == self.holds(x),
    {
        self.min.le(x) && x.le(self.max)
    }

    /// `x`, or the bound that it lies beyond.
    pub fn clamp(&self, x: Scalar) -> (r: Scalar)
        ensures
            r == self.saturated(x),
    {
        if x.lt(self.min) {
            self.min
        } else if x.gt(self.max) {
            self.max
        } else {
            x
        }
    }

    /// Clamping twice is clamping once, unless the bounds are numbers in the
    /// wrong order.
    pub proof fn clamp_is_idempotent(self, x: Scalar)
        requires
            !self.max.below(self.min),
        ensures
            self.saturated(self.saturated(x)) == self.saturated(x),
    {
    }

    /// In a proper range, a number is clamped into the range.
    pub proof fn clamp_stays_inside(self, x: Scalar)
        requires
            self.proper(),
            !x.nan(),
        ensures
            self.holds(self.saturated(x)),
    {
    }

    /// Clamping leaves alone exactly what neither bound overrules: inside a
    /// proper range, every number is its own clamp.
    pub proof fn clamp_fixes_members(self, x: Scalar)
        requires
            self.holds(x),
        ensures
            self.saturated(x) == x,
    {
    }
}

} // verus!
