//! Spheres, and the test whether a ray hits one.

use crate::hit_record::HitRecord;
use crate::hittable::{before, Hittable};
use crate::interval::Interval;
use crate::material::Material;
use crate::scalar::{Scalar, ZERO};
use crate::vec3::{Point3, Vec3};
use vstd::prelude::*;

verus! {

/// A sphere of one material. A negative radius is accepted: it turns the
/// outward normals inward, which makes the inner side of a hollow shell.
#[derive(Clone, Copy, Debug, PartialEq, Eq, Structural)]
pub struct Sphere {
    pub center: Point3,
    pub radius: Scalar,
    pub mat: Material,
}

/// A point at which the line of a ray passes through the surface of a
/// sphere: the parameter `t` of the point `p` on the ray, the outward
/// normal of the sphere there (the vector from the centre to `p`, divided
/// by the radius), and `facing`, the dot product of the ray's direction
/// with that normal.
#[derive(Clone, Copy, Debug, PartialEq, Eq, Structural)]
pub struct Crossing {
    pub t: Scalar,
    pub p: Point3,
    pub outward_normal: Vec3,
    pub facing: Scalar,
}

/// What the quadratic equation of a ray and a sphere gives: its
/// discriminant, and the crossings at its smaller root (`near`) and at
/// its larger one (`far`).
#[derive(Clone, Copy, Debug, PartialEq, Eq, Structural)]
pub struct Intersection {
    pub discriminant: Scalar,
    pub near: Crossing,
    pub far: Crossing,
}

impl Crossing {
    /// The record of a hit at this crossing, on a surface of the material
    /// `mat`.
    pub open spec fn record(self, mat: Material) -> HitRecord {
        HitRecord {
            p: self.p,
            normal: HitRecord::against(self.facing, self.outward_normal),
            t: self.t,
            front_face: HitRecord::is_front(self.facing),
            mat,
        }
    }
}

impl Intersection {
    /// Whether the near crossing does not come after the far one. This
    /// holds of the roots of a quadratic equation; where one of the two
    /// parameters is a NaN it says nothing.
    pub open spec fn ordered(&self) -> bool {
        !self.far.t.lt(self.near.t)
    }

    /// The crossing at which the ray hits within `ray_t`, the bounds
    /// excluded: none where the discriminant is negative; else the near
    /// one if its parameter lies in the range; else the far one if its
    /// parameter does.
    pub open spec fn first_in(&self, ray_t: Interval) -> Option<Crossing> {
        if self.discriminant.lt(Scalar { bits: ZERO }) {
            None
        } else if ray_t.surrounds(self.near.t) {
            Some(self.near)
        } else if ray_t.surrounds(self.far.t) {
            Some(self.far)
        } else {
            None
        }
    }
}

impl Hittable for Sphere {
    type Probe = Intersection;

    /// Every intersection fits a sphere.
    open spec fn fits(&self, x: &Intersection) -> bool {
        true
    }

    /// The near crossing does not come after the far one.
    open spec fn ordered(&self, x: &Intersection) -> bool {
        x.ordered()
    }

    /// The record of the first crossing inside `ray_t`, with the material
    /// of the sphere.
    open spec fn hit_spec(&self, x: &Intersection, ray_t: Interval) -> Option<HitRecord> {
        match x.first_in(ray_t) {
            Some(c) => Some(c.record(self.mat)),
            None => None,
        }
    }

    /// Tests whether a ray hits the sphere at a parameter inside `ray_t`,
    /// the bounds excluded. `x` holds what the quadratic equation of the
    /// ray and the sphere gives. On a hit `rec` becomes the record of the
    /// first crossing inside the range; otherwise it is left as it was.
    fn hit(&self, x: &Intersection, ray_t: Interval, rec: &mut HitRecord) -> (hit: bool) {
        if x.discriminant.lt(Scalar::from_bits(ZERO)) {
            return false;
        }
        let mut root = x.near;
        if !ray_t.surrounds(root.t) {
            root = x.far;
            if !ray_t.surrounds(root.t) {
                return false;
            }
        }
        rec.t = root.t;
        rec.p = root.p;
        rec.set_face_normal(root.facing, root.outward_normal);
        rec.mat = self.mat;
        true
    }

    proof fn lemma_hit_in_range(&self, x: &Intersection, ray_t: Interval) {
    }

    proof fn lemma_hit_before(&self, x: &Intersection, ray_t: Interval, bound: Scalar) {
    }

    proof fn lemma_hit_is_steady(&self, x: &Intersection, ray_t: Interval, bound: Scalar) {
    }
}

/// The sphere with the given centre, radius and material.
pub fn make_sphere(center: Point3, radius: Scalar, mat: Material) -> (r: Sphere)
    ensures
        r == (Sphere { center, radius, mat }),
{
    Sphere { center, radius, mat }
}

} // verus!
