//! The sphere, the one shape of a scene.

use vstd::prelude::*;
use crate::hittable::HitRecord;
use crate::material::Material;
use crate::scalar::Scalar;
use crate::vec3::Point;
use crate::vec3::Vector;

verus! {

/// A sphere of one material.
#[derive(Clone, Copy, Debug, PartialEq, Eq, Structural)]
pub struct Sphere {
    pub ctr: Point,
    pub r: Scalar,
    pub mat: Material,
}

impl Sphere {
    pub fn new(ctr: Point, r: Scalar, mat: Material) -> (s: Sphere)
        ensures
            s == (Sphere { ctr, r, mat }),
    {
        Sphere { ctr, r, mat }
    }

    /// The record of a hit at the ray parameter `root`. `p` is the point of
    /// the ray there, `outward_normal` leads from the centre to `p` and has
    /// unit length, and `facing` is its dot product with the ray's
    /// direction. The record carries the sphere's material, and its normal
    /// is turned against the ray.
    pub fn record(&self, root: Scalar, p: Point, outward_normal: Vector, facing: Scalar) -> (rec:
        HitRecord)
        ensures
            rec == (HitRecord {
                p,
                t: root,
                mat: self.mat,
                front_face: facing.below(Scalar { bits: 0 }),
                normal: if facing.below(Scalar { bits: 0 }) {
                    outward_normal
                } else {
                    outward_normal.negated()
                },
            }),
    {
        let mut rec = HitRecord {
            p,
            t: root,
            mat: self.mat,
            normal: outward_normal,
            front_face: false,
        };
        rec.set_face_normal(facing, outward_normal);
        rec
    }
}

} // verus!
