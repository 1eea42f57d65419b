//! Surfaces that a ray can hit.

use crate::hit_record::HitRecord;
use crate::interval::Interval;
use crate::scalar::Scalar;
use vstd::prelude::*;

verus! {

/// The part of `ray_t` that lies before `bound`.
pub open spec fn before(ray_t: Interval, bound: Scalar) -> Interval {
    Interval { min: ray_t.min, max: bound }
}

/// A surface that a ray can hit. The sums and products of the test are the
/// caller's: a surface is tested with a probe, which holds what they gave
/// for one ray.
pub trait Hittable {
    /// What the arithmetic of a ray and the surface gives.
    type Probe;

    /// Whether a probe has the shape that the surface asks for.
    spec fn fits(&self, probe: &Self::Probe) -> bool;

    /// Whether what a probe holds is in order along the ray, so that a hit
    /// found in a part of a range is the hit in the whole range too.
    spec fn ordered(&self, probe: &Self::Probe) -> bool;

    /// The record of the hit of a ray within `ray_t`, the bounds excluded,
    /// if there is one.
    spec fn hit_spec(&self, probe: &Self::Probe, ray_t: Interval) -> Option<HitRecord>;

    /// Tests whether a ray hits the surface at a parameter inside `ray_t`,
    /// the bounds excluded. On a hit `rec` becomes the record of it;
    /// otherwise `rec` is left as it was.
    fn hit(&self, probe: &Self::Probe, ray_t: Interval, rec: &mut HitRecord) -> (hit: bool)
        requires
            self.fits(probe),
        ensures
            hit == self.hit_spec(probe, ray_t).is_some(),
            hit ==> *final(rec) == self.hit_spec(probe, ray_t).unwrap(),
            hit ==> ray_t.surrounds(final(rec).t),
            !hit ==> *final(rec) == *old(rec),
    ;

    /// A hit lies inside the range that was asked for.
    proof fn lemma_hit_in_range(&self, probe: &Self::Probe, ray_t: Interval)
        requires
            self.fits(probe),
        ensures
            self.hit_spec(probe, ray_t) matches Some(rec) ==> ray_t.surrounds(rec.t),
    ;

    /// A hit before `bound` is a hit without the bound too; and where the
    /// surface is hit without the bound, it is hit before `bound` and not
    /// farther, or the hit lies at `bound` or behind it.
    proof fn lemma_hit_before(&self, probe: &Self::Probe, ray_t: Interval, bound: Scalar)
        requires
            self.fits(probe),
            bound.le(ray_t.max),
        ensures
            self.hit_spec(probe, before(ray_t, bound)) is Some ==> self.hit_spec(probe, ray_t) is Some,
            self.hit_spec(probe, ray_t) matches Some(rec) ==> match self.hit_spec(
                probe,
                before(ray_t, bound),
            ) {
                Some(nearer) => nearer.t.le(rec.t),
                None => bound.le(rec.t),
            },
    ;

    /// With a probe that is in order, a hit before `bound` is the hit
    /// without the bound.
    proof fn lemma_hit_is_steady(&self, probe: &Self::Probe, ray_t: Interval, bound: Scalar)
        requires
            self.fits(probe),
            self.ordered(probe),
            bound.le(ray_t.max),
        ensures
            self.hit_spec(probe, before(ray_t, bound)) is Some ==> self.hit_spec(
                probe,
                before(ray_t, bound),
            ) == self.hit_spec(probe, ray_t),
    ;
}

} // verus!
