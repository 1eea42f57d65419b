//! Triples of scalars: free vectors, points and linear colours.

use crate::scalar::{Scalar, ONE, ZERO};
use vstd::prelude::*;

verus! {

/// The pattern of 1e-8: a component smaller than this in magnitude counts
/// as zero.
pub const NEAR_ZERO: u64 = 0x3E45_798E_E230_8C3A;

/// Three scalars. `==` compares the patterns of the components.
#[derive(Clone, Copy, Debug, PartialEq, Eq, Structural)]
pub struct Vec3(pub Scalar, pub Scalar, pub Scalar);

/// A vector used as a position.
pub type Point3 = Vec3;

impl Vec3 {
    /// The vector with every component negated.
    pub open spec fn neg_spec(self) -> Vec3 {
        Vec3(self.0.neg(), self.1.neg(), self.2.neg())
    }

    /// Whether every component is smaller than 1e-8 in magnitude.
    pub open spec fn near_zero_spec(&self) -> bool {
        &&& self.0.abs().lt(Scalar { bits: NEAR_ZERO })
        &&& self.1.abs().lt(Scalar { bits: NEAR_ZERO })
        &&& self.2.abs().lt(Scalar { bits: NEAR_ZERO })
    }

    /// The first component.
    pub fn x(&self) -> (r: Scalar)
        ensures
            r == self.0,
    {
        self.0
    }

    /// The second component.
    pub fn y(&self) -> (r: Scalar)
        ensures
            r == self.1,
    {
        self.1
    }

    /// The third component.
    pub fn z(&self) -> (r: Scalar)
        ensures
            r == self.2,
    {
        self.2
    }

    /// The component at `index`, counted from 0.
    pub fn index(&self, index: i32) -> (r: &Scalar)
        requires
            0 <= index <= 2,
        ensures
            index == 0 ==> *r == self.0,
            index == 1 ==> *r == self.1,
            index == 2 ==> *r == self.2,
    {
        if index == 0 {
            &self.0
        } else if index == 1 {
            &self.1
        } else {
            &self.2
        }
    }

    /// The vector with every component negated.
    #[verifier::when_used_as_spec(neg_spec)]
    pub fn neg(self) -> (r: Vec3)
        ensures
            r == self.neg_spec(),
    {
        Vec3(self.0.neg(), self.1.neg(), self.2.neg())
    }

    /// Whether every component is smaller than 1e-8 in magnitude, so that
    /// the vector is of no use as a direction. A NaN component is not
    /// small.
    #[verifier::when_used_as_spec(near_zero_spec)]
    pub fn near_zero(&self) -> (r: bool)
        ensures
            r == self.near_zero_spec(),
    {
        let s = Scalar::from_bits(NEAR_ZERO);
        self.0.abs().lt(s) && self.1.abs().lt(s) && self.2.abs().lt(s)
    }
}

/// The point with the given coordinates.
pub fn make_point(x: Scalar, y: Scalar, z: Scalar) -> (r: Point3)
    ensures
        r == Vec3(x, y, z),
{
    Vec3(x, y, z)
}

/// The vector whose components are all 0.
pub fn zero_vector() -> (r: Vec3)
    ensures
        r == Vec3(Scalar { bits: ZERO }, Scalar { bits: ZERO }, Scalar { bits: ZERO }),
{
    let zero = Scalar::from_bits(ZERO);
    Vec3(zero, zero, zero)
}

/// One round of sampling a point inside the unit ball by rejection:
/// `candidate` is a point drawn from the cube from -1 to 1, and
/// `length_squared` its squared length. The candidate is taken when it lies
/// inside the ball, and another one is to be drawn when it does not.
pub fn random_in_unit_sphere(candidate: Vec3, length_squared: Scalar) -> (r: Option<Vec3>)
    ensures
        r == if length_squared.lt(Scalar { bits: ONE }) {
            Some(candidate)
        } else {
            None::<Vec3>
        },
{
    if length_squared.lt(Scalar::from_bits(ONE)) {
        Some(candidate)
    } else {
        None
    }
}

/// A unit vector turned to the side of a surface on which its normal
/// stands: `facing` is the dot product of `on_unit_sphere` with the normal,
/// and the vector is negated unless that is positive.
pub fn random_on_hemisphere(on_unit_sphere: Vec3, facing: Scalar) -> (r: Vec3)
    ensures
        r == if facing.gt(Scalar { bits: ZERO }) {
            on_unit_sphere
        } else {
            on_unit_sphere.neg()
        },
{
    if facing.gt(Scalar::from_bits(ZERO)) {
        on_unit_sphere
    } else {
        on_unit_sphere.neg()
    }
}

} // verus!
