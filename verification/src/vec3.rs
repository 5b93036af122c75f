//! Three-component vectors, used alike for directions, points and colours.

use vstd::prelude::*;
use crate::scalar::Scalar;
use crate::scalar::ONE_BITS;

verus! {

/// The bit pattern of the bound, about `1e-8`, under which a component
/// counts as vanished.
pub const NEAR_ZERO_BITS: u32 = 0x322b_cc77;

/// Three binary32 components.
#[derive(Clone, Copy, Debug, PartialEq, Eq, Structural)]
pub struct Vec3 {
    pub x: Scalar,
    pub y: Scalar,
    pub z: Scalar,
}

pub type Vector = Vec3;

pub type Point = Vec3;

pub type Color = Vec3;

/// The colour with no light in it: three positive zeros.
pub open spec fn spec_black() -> Color {
    Vec3 { x: Scalar { bits: 0 }, y: Scalar { bits: 0 }, z: Scalar { bits: 0 } }
}

/// The colour that lets all light through: three ones.
pub open spec fn spec_white() -> Color {
    Vec3 {
        x: Scalar { bits: ONE_BITS },
        y: Scalar { bits: ONE_BITS },
        z: Scalar { bits: ONE_BITS },
    }
}

#[verifier::when_used_as_spec(spec_black)]
pub fn black() -> (c: Color)
    ensures
        c == spec_black(),
{
    Vec3 { x: Scalar { bits: 0 }, y: Scalar { bits: 0 }, z: Scalar { bits: 0 } }
}

#[verifier::when_used_as_spec(spec_white)]
pub fn white() -> (c: Color)
    ensures
        c == spec_white(),
{
    Vec3 {
        x: Scalar { bits: ONE_BITS },
        y: Scalar { bits: ONE_BITS },
        z: Scalar { bits: ONE_BITS },
    }
}

impl Vec3 {
    /// The vector with every component negated.
    pub open spec fn negated(self) -> Vec3 {
        Vec3 { x: self.x.negated(), y: self.y.negated(), z: self.z.negated() }
    }

    /// Whether every component is, in magnitude, below the bound of
    /// [`NEAR_ZERO_BITS`]. A NaN component is not.
    pub open spec fn vanishes(self) -> bool {
        let bound = Scalar { bits: NEAR_ZERO_BITS };
        self.x.absolute().below(bound) && self.y.absolute().below(bound)
            && self.z.absolute().below(bound)
    }

    pub fn new(x: Scalar, y: Scalar, z: Scalar) -> (v: Vec3)
        ensures
            v == (Vec3 { x, y, z }),
    {
        Vec3 { x, y, z }
    }

    /// `-self`, component by component.
    pub fn neg(self) -> (v: Vec3)
        ensures
            v == self.negated(),
    {
        Vec3 { x: self.x.neg(), y: self.y.neg(), z: self.z.neg() }
    }

    /// Tells a direction too short to aim a ray along.
    pub fn near_zero(&self) -> (r: bool)
        ensures
            r == self.vanishes(),
    {
        let s = Scalar { bits: NEAR_ZERO_BITS };
        self.x.abs().lt(s) && self.y.abs().lt(s) && self.z.abs().lt(s)
    }
}

/// The test of rejection sampling in the unit ball or disk: a sample is kept
/// unless its squared length is at least one.
pub fn inside_unit_sphere(norm_squared: Scalar) -> (keep: bool)
    ensures
        keep == !(Scalar { bits: ONE_BITS }).at_most(norm_squared),
{
    !norm_squared.ge(Scalar { bits: ONE_BITS })
}

} // verus!
