//! Rays: a start and a direction.

use vstd::prelude::*;
use crate::vec3::Point;
use crate::vec3::Vector;

verus! {

/// The half-line from `origin` along `dir`.
#[derive(Clone, Copy, Debug, PartialEq, Eq, Structural)]
pub struct Ray {
    pub origin: Point,
    pub dir: Vector,
}

impl Ray {
    pub fn new(origin: Point, dir: Vector) -> (r: Ray)
        ensures
            r == (Ray { origin, dir }),
    {
        Ray { origin, dir }
    }
}

} // verus!
