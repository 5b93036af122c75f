//! Surfaces and what they decide when light meets them.

use vstd::prelude::*;
use crate::hittable::HitRecord;
use crate::ray::Ray;
use crate::scalar::Scalar;
use crate::scalar::ONE_BITS;
use crate::vec3::white;
use crate::vec3::Color;
use crate::vec3::Vector;

verus! {

/// A diffuse surface.
#[derive(Clone, Copy, Debug, PartialEq, Eq, Structural)]
pub struct Lambertian {
    albedo: Color,
}

/// A mirror, blurred by `fuzz`, which is never above one.
#[derive(Clone, Copy, Debug, PartialEq, Eq, Structural)]
pub struct Metal {
    albedo: Color,
    fuzz: Scalar,
}

/// A clear medium of refractive index `ir`.
#[derive(Clone, Copy, Debug, PartialEq, Eq, Structural)]
pub struct Dielectric {
    ir: Scalar,
}

/// The surfaces that there are.
#[derive(Clone, Copy, Debug, PartialEq, Eq, Structural)]
pub enum Material {
    Lambertian(Lambertian),
    Metal(Metal),
    Dielectric(Dielectric),
}

/// What the optics of a clear surface give for one ray.
#[derive(Clone, Copy, Debug, PartialEq, Eq, Structural)]
pub struct Bend {
    /// The refraction ratio times the sine of the angle of incidence: above
    /// one, no refracted ray exists.
    pub steepness: Scalar,
    /// The share of light that is reflected at this angle.
    pub reflectance: Scalar,
    /// A uniform draw from `[0, 1)`.
    pub draw: Scalar,
    /// The direction of the reflected ray.
    pub reflected: Vector,
    /// The direction of the refracted ray.
    pub refracted: Vector,
}

impl Lambertian {
    pub closed spec fn spec_albedo(self) -> Color {
        self.albedo
    }

    pub fn new(color: Color) -> (m: Lambertian)
        ensures
            m.spec_albedo() == color,
    {
        Lambertian { albedo: color }
    }

    #[verifier::when_used_as_spec(spec_albedo)]
    pub fn albedo(self) -> (c: Color)
        ensures
            c == self.spec_albedo(),
    {
        self.albedo
    }

    /// Scatters along `scatter_dir`, the normal plus a random unit vector,
    /// or along the bare normal where that sum nearly vanishes. A diffuse
    /// surface never absorbs.
    pub fn scatter(&self, rec: &HitRecord, scatter_dir: Vector) -> (r: Option<(Color, Ray)>)
        ensures
            r == Some(
                (
                    self.spec_albedo(),
                    Ray {
                        origin: rec.p,
                        dir: if scatter_dir.vanishes() {
                            rec.normal
                        } else {
                            scatter_dir
                        },
                    },
                ),
            ),
    {
        let mut dir = scatter_dir;
        if dir.near_zero() {
            dir = rec.normal;
        }
        let scattered = Ray::new(rec.p, dir);
        Some((self.albedo, scattered))
    }
}

impl Metal {
    pub closed spec fn spec_albedo(self) -> Color {
        self.albedo
    }

    pub closed spec fn spec_fuzz(self) -> Scalar {
        self.fuzz
    }

    #[verifier::type_invariant]
    spec fn fuzz_is_capped(self) -> bool {
        self.fuzz.at_most(Scalar { bits: ONE_BITS })
    }

    /// A metal of the given colour. A `fuzz` that is not at most one, NaN
    /// included, becomes one.
    pub fn new(color: Color, fuzz: Scalar) -> (m: Metal)
        ensures
            m.spec_albedo() == color,
            m.spec_fuzz() == if fuzz.at_most(Scalar { bits: ONE_BITS }) {
                fuzz
            } else {
                Scalar { bits: ONE_BITS }
            },
    {
        if fuzz.le(Scalar { bits: ONE_BITS }) {
            Metal { albedo: color, fuzz }
        } else {
            Metal { albedo: color, fuzz: Scalar { bits: ONE_BITS } }
        }
    }

    #[verifier::when_used_as_spec(spec_albedo)]
    pub fn albedo(self) -> (c: Color)
        ensures
            c == self.spec_albedo(),
    {
        self.albedo
    }

    /// The blur, a number that is at most one.
    pub fn fuzz(self) -> (f: Scalar)
        ensures
            f == self.spec_fuzz(),
            f.at_most(Scalar { bits: ONE_BITS }),
    {
        proof {
            use_type_invariant(self);
        }
        self.fuzz
    }

    /// Scatters along `scattered_dir`, the blurred reflection, unless it
    /// points into the surface: `facing` is its dot product with the normal,
    /// and the ray is absorbed unless that is above zero.
    pub fn scatter(&self, rec: &HitRecord, scattered_dir: Vector, facing: Scalar) -> (r: Option<
        (Color, Ray),
    >)
        ensures
            r == if (Scalar { bits: 0 }).below(facing) {
                Some((self.spec_albedo(), Ray { origin: rec.p, dir: scattered_dir }))
            } else {
                None
            },
    {
        let scattered = Ray::new(rec.p, scattered_dir);
        if facing.gt(Scalar { bits: 0 }) {
            Some((self.albedo, scattered))
        } else {
            None
        }
    }
}

impl Bend {
    /// Whether the ray is reflected: always where no refracted ray exists,
    /// and else where the reflectance exceeds the draw.
    pub open spec fn reflects(self) -> bool {
        (Scalar { bits: ONE_BITS }).below(self.steepness) || self.draw.below(self.reflectance)
    }
}

impl Dielectric {
    pub closed spec fn spec_ir(self) -> Scalar {
        self.ir
    }

    pub fn new(ir: Scalar) -> (m: Dielectric)
        ensures
            m.spec_ir() == ir,
    {
        Dielectric { ir }
    }

    #[verifier::when_used_as_spec(spec_ir)]
    pub fn ir(self) -> (r: Scalar)
        ensures
            r == self.spec_ir(),
    {
        self.ir
    }

    /// The ratio of the refractive indices that a ray crosses: `reciprocal`,
    /// which is one over the index, on the way in, and the index itself on the
    /// way out.
    pub fn refraction_ratio(&self, front_face: bool, reciprocal: Scalar) -> (r: Scalar)
        ensures
            r == if front_face {
                reciprocal
            } else {
                self.spec_ir()
            },
    {
        if front_face {
            reciprocal
        } else {
            self.ir
        }
    }

    /// Reflects or refracts, and lets all light through either way.
    pub fn scatter(&self, rec: &HitRecord, bend: &Bend) -> (r: Option<(Color, Ray)>)
        ensures
            r == Some(
                (
                    white(),
                    Ray {
                        origin: rec.p,
                        dir: if bend.reflects() {
                            bend.reflected
                        } else {
                            bend.refracted
                        },
                    },
                ),
            ),
    {
        let cannot_refract = bend.steepness.gt(Scalar { bits: ONE_BITS });
        let direction = if cannot_refract || bend.reflectance.gt(bend.draw) {
            bend.reflected
        } else {
            bend.refracted
        };
        Some((white(), Ray::new(rec.p, direction)))
    }
}

} // verus!
