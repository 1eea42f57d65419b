//! Materials: what a surface does to a ray that meets it.

use crate::color::Color;
use crate::hit_record::HitRecord;
use crate::ray::Ray;
use crate::scalar::{Scalar, ONE};
use crate::vec3::Vec3;
use vstd::prelude::*;

verus! {

/// A diffuse surface of the given albedo.
#[derive(Clone, Copy, Debug, PartialEq, Eq, Structural)]
pub struct Lambertian(pub Color);

/// A mirroring surface: `fuzz` blurs the reflection.
#[derive(Clone, Copy, Debug, PartialEq, Eq, Structural)]
pub struct Metal {
    pub albedo: Color,
    pub fuzz: Scalar,
}

/// A transparent surface with the refractive index `ir`.
#[derive(Clone, Copy, Debug, PartialEq, Eq, Structural)]
pub struct Dielectric {
    pub ir: Scalar,
}

/// The material of a surface.
#[derive(Clone, Copy, Debug, PartialEq, Eq, Structural)]
pub enum Material {
    Lambertian(Lambertian),
    Metal(Metal),
    Dielectric(Dielectric),
}

/// What the optics of a transparent surface give for one ray: the product
/// of the refraction ratio and the sine of the angle of incidence, the
/// reflectance at that angle, a uniform draw from 0 to 1, and the two
/// directions in which the ray may go on.
#[derive(Clone, Copy, Debug, PartialEq, Eq, Structural)]
pub struct Refraction {
    pub sine_ratio: Scalar,
    pub reflectance: Scalar,
    pub draw: Scalar,
    pub reflected: Vec3,
    pub refracted: Vec3,
}

impl Refraction {
    /// Whether the ray is mirrored: always when no refracted ray exists
    /// (`sine_ratio` above 1), and else when the reflectance is above the
    /// draw.
    pub open spec fn reflects(&self) -> bool {
        self.sine_ratio.gt(Scalar { bits: ONE }) || self.reflectance.gt(self.draw)
    }
}

impl Lambertian {
    /// The direction in which a diffuse surface sends a ray on:
    /// `candidate`, the sum of the normal and a random unit vector, unless
    /// that is close to zero; then the normal itself.
    pub open spec fn direction(rec: &HitRecord, candidate: Vec3) -> Vec3 {
        if candidate.near_zero() {
            rec.normal
        } else {
            candidate
        }
    }

    /// Scatters a ray that met the surface at `rec`. `candidate` is the sum
    /// of the normal and a random unit vector. The ray always goes on, from
    /// the point of the hit, and is attenuated by the albedo.
    pub fn scatter(
        &self,
        rec: &HitRecord,
        candidate: Vec3,
        attenuation: &mut Color,
        scattered: &mut Ray,
    ) -> (r: bool)
        ensures
            r,
            *final(attenuation) == self.0,
            final(scattered).origin == rec.p,
            final(scattered).direction == Self::direction(rec, candidate),
    {
        let mut scatter_direction = candidate;
        if scatter_direction.near_zero() {
            scatter_direction = rec.normal;
        }
        *scattered = Ray { origin: rec.p, direction: scatter_direction };
        *attenuation = self.0;
        true
    }
}

impl Metal {
    /// Scatters a ray that met the surface at `rec`. `fuzzed` is the
    /// mirrored direction of the ray, moved by `fuzz` times a random unit
    /// vector. The ray always goes on, from the point of the hit, and is
    /// attenuated by the albedo.
    pub fn scatter(
        &self,
        rec: &HitRecord,
        fuzzed: Vec3,
        attenuation: &mut Color,
        scattered: &mut Ray,
    ) -> (r: bool)
        ensures
            r,
            *final(attenuation) == self.albedo,
            final(scattered).origin == rec.p,
            final(scattered).direction == fuzzed,
    {
        *scattered = Ray { origin: rec.p, direction: fuzzed };
        *attenuation = self.albedo;
        true
    }
}

impl Dielectric {
    /// The ratio of the refractive indices on the two sides of the
    /// surface, in the order in which the ray passes them: `inverse`, which
    /// is 1 divided by `ir`, for a ray from outside, and `ir` for one from
    /// inside.
    pub fn refraction_ratio(&self, rec: &HitRecord, inverse: Scalar) -> (r: Scalar)
        ensures
            r == if rec.front_face {
                inverse
            } else {
                self.ir
            },
    {
        if rec.front_face {
            inverse
        } else {
            self.ir
        }
    }

    /// The cosine of the angle of incidence: the smaller of `dot` and 1,
    /// where `dot` is the dot product of the reversed unit direction of the
    /// ray with the normal; 1 where `dot` is a NaN.
    pub fn cos_theta(dot: Scalar) -> (r: Scalar)
        ensures
            r == if dot.lt(Scalar { bits: ONE }) {
                dot
            } else {
                Scalar { bits: ONE }
            },
    {
        if dot.lt(Scalar::from_bits(ONE)) {
            dot
        } else {
            Scalar::from_bits(ONE)
        }
    }

    /// Scatters a ray that met the surface at `rec`. The ray always goes
    /// on from the point of the hit, with nothing absorbed: mirrored where
    /// `optics.reflects()`, and refracted otherwise.
    pub fn scatter(
        &self,
        rec: &HitRecord,
        optics: &Refraction,
        attenuation: &mut Color,
        scattered: &mut Ray,
    ) -> (r: bool)
        ensures
            r,
            *final(attenuation) == Vec3(Scalar { bits: ONE }, Scalar { bits: ONE }, Scalar { bits: ONE }),
            final(scattered).origin == rec.p,
            final(scattered).direction == if optics.reflects() {
                optics.reflected
            } else {
                optics.refracted
            },
    {
        let one = Scalar::from_bits(ONE);
        *attenuation = Vec3(one, one, one);
        let cannot_refract = optics.sine_ratio.gt(one);
        let direction = if cannot_refract || optics.reflectance.gt(optics.draw) {
            optics.reflected
        } else {
            optics.refracted
        };
        *scattered = Ray { origin: rec.p, direction };
        true
    }
}

/// A diffuse material of the given albedo.
pub fn make_lambertian(albedo: Color) -> (r: Lambertian)
    ensures
        r == Lambertian(albedo),
{
    Lambertian(albedo)
}

/// A metal of the given albedo and fuzz.
pub fn make_metal(albedo: Color, fuzz: Scalar) -> (r: Metal)
    ensures
        r == (Metal { albedo, fuzz }),
{
    Metal { albedo, fuzz }
}

/// A transparent material of the given refractive index.
pub fn make_dielectric(ir: Scalar) -> (r: Dielectric)
    ensures
        r == (Dielectric { ir }),
{
    Dielectric { ir }
}

} // verus!
