//! What is known of the point at which a ray meets a surface.

use crate::material::{Lambertian, Material};
use crate::scalar::{Scalar, ZERO};
use crate::vec3::{Point3, Vec3};
use vstd::prelude::*;

verus! {

/// A ray meeting a surface: the point `p` at the parameter `t`, the unit
/// normal turned against the ray, whether the ray came from outside
/// (`front_face`), and the material of the surface.
#[derive(Clone, Copy, Debug, PartialEq, Eq, Structural)]
pub struct HitRecord {
    pub p: Point3,
    pub normal: Vec3,
    pub t: Scalar,
    pub front_face: bool,
    pub mat: Material,
}

impl Default for HitRecord {
    /// A record at the origin, at parameter 0, with a black diffuse
    /// material.
    fn default() -> (r: HitRecord)
        ensures
            r == HitRecord::blank(),
    {
        let zero = Scalar::from_bits(ZERO);
        HitRecord {
            p: Vec3(zero, zero, zero),
            normal: Vec3(zero, zero, zero),
            t: zero,
            front_face: false,
            mat: Material::Lambertian(Lambertian(Vec3(zero, zero, zero))),
        }
    }
}

impl HitRecord {
    /// The record that `default` gives.
    pub open spec fn blank() -> HitRecord {
        let zero = Scalar { bits: ZERO };
        HitRecord {
            p: Vec3(zero, zero, zero),
            normal: Vec3(zero, zero, zero),
            t: zero,
            front_face: false,
            mat: Material::Lambertian(Lambertian(Vec3(zero, zero, zero))),
        }
    }

    /// Whether a ray meets a surface from outside: `facing` is the dot
    /// product of the ray's direction with the outward normal, and the ray
    /// comes from outside when that is negative.
    pub open spec fn is_front(facing: Scalar) -> bool {
        facing.lt(Scalar { bits: ZERO })
    }

    /// The normal turned against the ray: the outward normal for a ray
    /// from outside, and its negation for one from inside.
    pub open spec fn against(facing: Scalar, outward_normal: Vec3) -> Vec3 {
        if Self::is_front(facing) {
            outward_normal
        } else {
            outward_normal.neg()
        }
    }

    /// Sets `front_face` and `normal` from the outward normal of the
    /// surface and from `facing`, the dot product of the ray's direction
    /// with that normal. Nothing else changes.
    pub fn set_face_normal(&mut self, facing: Scalar, outward_normal: Vec3)
        ensures
            final(self).front_face == Self::is_front(facing),
            final(self).normal == Self::against(facing, outward_normal),
            final(self).p == old(self).p,
            final(self).t == old(self).t,
            final(self).mat == old(self).mat,
    {
        self.front_face = facing.lt(Scalar::from_bits(ZERO));
        self.normal = if self.front_face {
            outward_normal
        } else {
            outward_normal.neg()
        };
    }
}

} // verus!
