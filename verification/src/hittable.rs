//! What a ray meets: the two crossings with a surface, the one that counts,
//! and the record of a hit.

use vstd::prelude::*;
use crate::interval::Interval;
use crate::material::Material;
use crate::scalar::Scalar;
use crate::vec3::Point;
use crate::vec3::Vector;

verus! {

/// Where a ray meets a surface.
#[derive(Clone, Copy, Debug, PartialEq, Eq, Structural)]
pub struct HitRecord {
    /// The point that was hit.
    pub p: Point,
    /// The unit normal there, turned against the incoming ray.
    pub normal: Vector,
    /// The material of the surface.
    pub mat: Material,
    /// The ray parameter of the hit.
    pub t: Scalar,
    /// Whether the ray came from outside the surface.
    pub front_face: bool,
}

impl HitRecord {
    /// Orients the normal against the incoming ray. `facing` is the dot
    /// product of the ray's direction with `outward_normal`: below zero, the
    /// ray struck the outer side, and the outward normal is kept; otherwise it
    /// is negated.
    pub fn set_face_normal(&mut self, facing: Scalar, outward_normal: Vector)
        ensures
            final(self).front_face == facing.below(Scalar { bits: 0 }),
            final(self).normal == if facing.below(Scalar { bits: 0 }) {
                outward_normal
            } else {
                outward_normal.negated()
            },
            final(self).p == old(self).p,
            final(self).mat == old(self).mat,
            final(self).t == old(self).t,
    {
        self.front_face = facing.lt(Scalar { bits: 0 });
        self.normal = if self.front_face {
            outward_normal
        } else {
            outward_normal.neg()
        };
    }
}

/// The solutions of the quadratic that a ray and a sphere pose: its
/// discriminant and the ray parameters of the two crossings.
#[derive(Clone, Copy, Debug, PartialEq, Eq, Structural)]
pub struct Roots {
    pub discriminant: Scalar,
    /// The crossing on the ray's way in.
    pub near: Scalar,
    /// The crossing on the ray's way out.
    pub far: Scalar,
}

impl Roots {
    /// The crossing that counts within `ray_t`: none under a negative
    /// discriminant; else the near one if the range holds it; else the far
    /// one if the range holds it; else none.
    pub open spec fn chosen(self, ray_t: Interval) -> Option<Scalar> {
        if self.discriminant.below(Scalar { bits: 0 }) {
            None
        } else if ray_t.holds(self.near) {
            Some(self.near)
        } else if ray_t.holds(self.far) {
            Some(self.far)
        } else {
            None
        }
    }

    /// Whether the far crossing is not before the near one.
    pub open spec fn ordered(self) -> bool {
        !self.far.below(self.near)
    }

    pub fn new(discriminant: Scalar, near: Scalar, far: Scalar) -> (r: Roots)
        ensures
            r == (Roots { discriminant, near, far }),
    {
        Roots { discriminant, near, far }
    }

    /// The ray parameter at which the surface is hit within `ray_t`, if it is.
    pub fn hit(&self, ray_t: Interval) -> (t: Option<Scalar>)
        ensures
            t == self.chosen(ray_t),
    {
        if self.discriminant.lt(Scalar { bits: 0 }) {
            return None;
        }
        let mut root = self.near;
        if !ray_t.contains(root) {
            root = self.far;
            if !ray_t.contains(root) {
                return None;
            }
        }
        Some(root)
    }

    /// A ray that passes the surface by, which a negative discriminant
    /// tells, hits it in no range.
    pub proof fn passing_by_is_a_miss(self, ray_t: Interval)
        requires
            self.discriminant.below(Scalar { bits: 0 }),
        ensures
            self.chosen(ray_t) is None,
    {
    }

    /// A hit lies in the range it was sought in, and is one of the two
    /// crossings.
    pub proof fn hit_is_a_crossing_in_range(self, ray_t: Interval)
        ensures
            match self.chosen(ray_t) {
                Some(t) => ray_t.holds(t) && (t == self.near || t == self.far),
                None => true,
            },
    {
    }

    /// Lowering the upper bound of the range to a number `bound` does not
    /// change which crossing is found, it only drops the hits beyond `bound`.
    pub proof fn narrowing_only_drops(self, ray_t: Interval, bound: Scalar)
        requires
            self.ordered(),
            bound.at_most(ray_t.max),
        ensures
            self.chosen(Interval { min: ray_t.min, max: bound }) == match self.chosen(ray_t) {
                Some(t) => if t.at_most(bound) {
                    Some(t)
                } else {
                    None
                },
                None => None,
            },
    {
    }
}

} // verus!
