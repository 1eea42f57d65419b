//! Scenes: lists of surfaces, tested together for the nearest hit.

use crate::hit_record::HitRecord;
use crate::hittable::{before, Hittable};
use crate::interval::{self, Interval};
use crate::scalar::Scalar;
use crate::sphere::{Intersection, Sphere};
use vstd::prelude::*;

verus! {

/// The surfaces of a scene, in the order in which they were added.
pub struct HittableList<T: Hittable> {
    pub objects: Vec<T>,
}

/// The part of `ray_t` in which a hit is nearer than `found`: the whole
/// of it while nothing was found, and then what lies before the parameter
/// of the record found.
pub open spec fn window(ray_t: Interval, found: Option<HitRecord>) -> Interval {
    match found {
        Some(rec) => before(ray_t, rec.t),
        None => ray_t,
    }
}

/// The nearest hit among the first `n` surfaces: they are tested one after
/// the other, each within the part of `ray_t` that lies before the nearest
/// hit found so far, so that a later hit replaces an earlier one only where
/// it is strictly nearer.
pub open spec fn nearest<T: Hittable>(
    objects: Seq<T>,
    xs: Seq<T::Probe>,
    ray_t: Interval,
    n: nat,
) -> Option<HitRecord>
    decreases n,
{
    if n == 0 {
        None
    } else {
        let found = nearest(objects, xs, ray_t, (n - 1) as nat);
        match objects[n - 1].hit_spec(&xs[n - 1], window(ray_t, found)) {
            Some(rec) => Some(rec),
            None => found,
        }
    }
}

/// Whether each of the first `n` probes fits the surface that it goes
/// with.
pub open spec fn all_fit<T: Hittable>(objects: Seq<T>, xs: Seq<T::Probe>, n: nat) -> bool {
    &&& n <= objects.len()
    &&& n <= xs.len()
    &&& forall|i: int| 0 <= i < n ==> (#[trigger] objects[i]).fits(&xs[i])
}

/// Whether each of the first `n` probes is in order.
pub open spec fn all_ordered<T: Hittable>(objects: Seq<T>, xs: Seq<T::Probe>, n: nat) -> bool {
    forall|i: int| 0 <= i < n ==> (#[trigger] objects[i]).ordered(&xs[i])
}

/// The nearest hit lies inside the range that was asked for.
pub proof fn lemma_nearest_in_range<T: Hittable>(
    objects: Seq<T>,
    xs: Seq<T::Probe>,
    ray_t: Interval,
    n: nat,
)
    requires
        all_fit(objects, xs, n),
    ensures
        nearest(objects, xs, ray_t, n) matches Some(rec) ==> ray_t.surrounds(rec.t),
    decreases n,
{
    if n > 0 {
        let found = nearest(objects, xs, ray_t, (n - 1) as nat);
        lemma_nearest_in_range(objects, xs, ray_t, (n - 1) as nat);
        objects[n - 1].lemma_hit_in_range(&xs[n - 1], window(ray_t, found));
    }
}

/// No surface of the list is hit nearer than the nearest hit: where the
/// surface at `k` is hit within `ray_t`, the list is hit too, and not
/// farther.
pub proof fn lemma_nearest_is_minimal<T: Hittable>(
    objects: Seq<T>,
    xs: Seq<T::Probe>,
    ray_t: Interval,
    n: nat,
    k: int,
)
    requires
        all_fit(objects, xs, n),
        0 <= k < n,
        objects[k].hit_spec(&xs[k], ray_t) is Some,
    ensures
        nearest(objects, xs, ray_t, n) is Some,
        nearest(objects, xs, ray_t, n).unwrap().t.le(objects[k].hit_spec(&xs[k], ray_t).unwrap().t),
    decreases n,
{
    let found = nearest(objects, xs, ray_t, (n - 1) as nat);
    lemma_nearest_in_range(objects, xs, ray_t, (n - 1) as nat);
    lemma_nearest_in_range(objects, xs, ray_t, n);
    objects[k].lemma_hit_in_range(&xs[k], ray_t);
    objects[n - 1].lemma_hit_in_range(&xs[n - 1], window(ray_t, found));
    if k < n - 1 {
        lemma_nearest_is_minimal(objects, xs, ray_t, (n - 1) as nat, k);
    } else if found is Some {
        objects[k].lemma_hit_before(&xs[k], ray_t, found.unwrap().t);
    }
}

/// The nearest hit comes from one of the surfaces: the surface at the
/// index returned is hit within `ray_t`, and the list gives what that
/// surface gives before the nearest hit among those in front of it.
pub proof fn lemma_nearest_is_a_hit<T: Hittable>(
    objects: Seq<T>,
    xs: Seq<T::Probe>,
    ray_t: Interval,
    n: nat,
) -> (k: int)
    requires
        all_fit(objects, xs, n),
        nearest(objects, xs, ray_t, n) is Some,
    ensures
        0 <= k < n,
        objects[k].hit_spec(&xs[k], ray_t) is Some,
        nearest(objects, xs, ray_t, n) == objects[k].hit_spec(
            &xs[k],
            window(ray_t, nearest(objects, xs, ray_t, k as nat)),
        ),
    decreases n,
{
    let found = nearest(objects, xs, ray_t, (n - 1) as nat);
    lemma_nearest_in_range(objects, xs, ray_t, (n - 1) as nat);
    if objects[n - 1].hit_spec(&xs[n - 1], window(ray_t, found)) is Some {
        if found is Some {
            objects[n - 1].lemma_hit_before(&xs[n - 1], ray_t, found.unwrap().t);
        }
        n - 1
    } else {
        lemma_nearest_is_a_hit(objects, xs, ray_t, (n - 1) as nat)
    }
}

/// The nearest hit before `bound`, against the nearest hit without the
/// bound: the first is a hit of the second kind too; and where there is a
/// hit without the bound, there is one before `bound` and not farther, or
/// the hit lies at `bound` or behind it.
pub proof fn lemma_nearest_before<T: Hittable>(
    objects: Seq<T>,
    xs: Seq<T::Probe>,
    ray_t: Interval,
    bound: Scalar,
    n: nat,
)
    requires
        all_fit(objects, xs, n),
        bound.le(ray_t.max),
    ensures
        nearest(objects, xs, before(ray_t, bound), n) is Some ==> nearest(objects, xs, ray_t, n) is Some,
        nearest(objects, xs, ray_t, n) matches Some(rec) ==> match nearest(
            objects,
            xs,
            before(ray_t, bound),
            n,
        ) {
            Some(nearer) => nearer.t.le(rec.t),
            None => bound.le(rec.t),
        },
    decreases n,
{
    if n > 0 {
        let narrow = before(ray_t, bound);
        let found = nearest(objects, xs, ray_t, (n - 1) as nat);
        let found_narrow = nearest(objects, xs, narrow, (n - 1) as nat);
        lemma_nearest_before(objects, xs, ray_t, bound, (n - 1) as nat);
        lemma_nearest_in_range(objects, xs, ray_t, (n - 1) as nat);
        lemma_nearest_in_range(objects, xs, narrow, (n - 1) as nat);
        let wide = window(ray_t, found);
        let tight = window(narrow, found_narrow);
        assert(tight == before(wide, tight.max));
        assert(tight.max.le(wide.max));
        objects[n - 1].lemma_hit_before(&xs[n - 1], wide, tight.max);
        objects[n - 1].lemma_hit_in_range(&xs[n - 1], wide);
        objects[n - 1].lemma_hit_in_range(&xs[n - 1], tight);
    }
}

/// With probes that are in order, the nearest hit is the hit of one of the
/// surfaces as that surface gives it when tested alone: the one at the
/// index returned.
pub proof fn lemma_nearest_is_own_hit<T: Hittable>(
    objects: Seq<T>,
    xs: Seq<T::Probe>,
    ray_t: Interval,
    n: nat,
) -> (k: int)
    requires
        all_fit(objects, xs, n),
        all_ordered(objects, xs, n),
        nearest(objects, xs, ray_t, n) is Some,
    ensures
        0 <= k < n,
        nearest(objects, xs, ray_t, n) == objects[k].hit_spec(&xs[k], ray_t),
{
    let k = lemma_nearest_is_a_hit(objects, xs, ray_t, n);
    let found = nearest(objects, xs, ray_t, k as nat);
    lemma_nearest_in_range(objects, xs, ray_t, k as nat);
    if found is Some {
        objects[k].lemma_hit_is_steady(&xs[k], ray_t, found.unwrap().t);
    }
    k
}

/// With probes that are in order, the nearest hit before `bound` is the
/// nearest hit without the bound; and where nothing is hit before `bound`,
/// the nearest hit without the bound, if there is one, lies at `bound` or
/// behind it.
pub proof fn lemma_nearest_is_steady<T: Hittable>(
    objects: Seq<T>,
    xs: Seq<T::Probe>,
    ray_t: Interval,
    bound: Scalar,
    n: nat,
)
    requires
        all_fit(objects, xs, n),
        all_ordered(objects, xs, n),
        bound.le(ray_t.max),
    ensures
        nearest(objects, xs, before(ray_t, bound), n) is Some ==> nearest(
            objects,
            xs,
            before(ray_t, bound),
            n,
        ) == nearest(objects, xs, ray_t, n),
        nearest(objects, xs, before(ray_t, bound), n) is None ==> (nearest(objects, xs, ray_t, n)
            matches Some(rec) ==> bound.le(rec.t)),
    decreases n,
{
    if n > 0 {
        let narrow = before(ray_t, bound);
        let found = nearest(objects, xs, ray_t, (n - 1) as nat);
        let found_narrow = nearest(objects, xs, narrow, (n - 1) as nat);
        lemma_nearest_is_steady(objects, xs, ray_t, bound, (n - 1) as nat);
        lemma_nearest_in_range(objects, xs, ray_t, (n - 1) as nat);
        lemma_nearest_in_range(objects, xs, narrow, (n - 1) as nat);
        let wide = window(ray_t, found);
        if found_narrow is None {
            assert(window(narrow, found_narrow) == before(wide, bound));
            assert(bound.le(wide.max));
            objects[n - 1].lemma_hit_is_steady(&xs[n - 1], wide, bound);
            objects[n - 1].lemma_hit_before(&xs[n - 1], wide, bound);
            objects[n - 1].lemma_hit_in_range(&xs[n - 1], wide);
        }
    }
}

/// Of two spheres that a ray hits within `ray_t`, the list gives the
/// nearer one, in whichever order they were added; where both are hit at
/// the same parameter, it gives the one added first.
pub proof fn lemma_nearer_of_two(
    a: Sphere,
    b: Sphere,
    xa: Intersection,
    xb: Intersection,
    ray_t: Interval,
)
    requires
        xa.ordered(),
        xb.ordered(),
        a.hit_spec(&xa, ray_t) is Some,
        b.hit_spec(&xb, ray_t) is Some,
        a.hit_spec(&xa, ray_t).unwrap().t.le(b.hit_spec(&xb, ray_t).unwrap().t),
    ensures
        nearest(seq![a, b], seq![xa, xb], ray_t, 2) == a.hit_spec(&xa, ray_t),
        a.hit_spec(&xa, ray_t).unwrap().t.lt(b.hit_spec(&xb, ray_t).unwrap().t) ==> nearest(
            seq![b, a],
            seq![xb, xa],
            ray_t,
            2,
        ) == a.hit_spec(&xa, ray_t),
{
    reveal_with_fuel(nearest, 3);
}

impl<T: Hittable> HittableList<T> {
    /// Removes every surface.
    pub fn clear(&mut self)
        ensures
            final(self).objects@ == Seq::<T>::empty(),
    {
        self.objects.clear();
    }

    /// Adds a surface behind those that are there.
    pub fn add(&mut self, object: T)
        ensures
            final(self).objects@ == old(self).objects@.push(object),
    {
        self.objects.push(object)
    }
}

impl<T: Hittable> Hittable for HittableList<T> {
    type Probe = Vec<T::Probe>;

    /// One probe for each surface, in their order, each fitting its
    /// surface.
    open spec fn fits(&self, xs: &Vec<T::Probe>) -> bool {
        &&& xs@.len() == self.objects@.len()
        &&& all_fit(self.objects@, xs@, self.objects@.len())
    }

    /// Every probe is in order.
    open spec fn ordered(&self, xs: &Vec<T::Probe>) -> bool {
        all_ordered(self.objects@, xs@, self.objects@.len())
    }

    /// The nearest hit among all the surfaces.
    open spec fn hit_spec(&self, xs: &Vec<T::Probe>, ray_t: Interval) -> Option<HitRecord> {
        nearest(self.objects@, xs@, ray_t, self.objects@.len())
    }

    /// Tests whether a ray hits any surface of the list at a parameter
    /// inside `ray_t`, the bounds excluded. `xs` holds the probes of the
    /// surfaces, in their order.
    /// The list is hit exactly when one of its surfaces is. On a hit `rec`
    /// becomes the record of the nearest one, which lies inside `ray_t` and
    /// not behind the hit of any surface; with probes that are in order it
    /// is the record that one of the surfaces gives when tested alone.
    /// Otherwise `rec` is left as it was.
    fn hit(&self, xs: &Vec<T::Probe>, ray_t: Interval, rec: &mut HitRecord) -> (hit: bool)
        ensures
            hit && self.ordered(xs) ==> exists|k: int|
                0 <= k < self.objects@.len() && (#[trigger] self.objects@[k].hit_spec(
                    &xs@[k],
                    ray_t,
                )) == Some(*final(rec)),
            hit == exists|k: int|
                0 <= k < self.objects@.len() && (#[trigger] self.objects@[k].hit_spec(
                    &xs@[k],
                    ray_t,
                )) is Some,
            forall|k: int|
                0 <= k < self.objects@.len() && (#[trigger] self.objects@[k].hit_spec(
                    &xs@[k],
                    ray_t,
                )) is Some ==> final(rec).t.le(self.objects@[k].hit_spec(&xs@[k], ray_t).unwrap().t),
    {
        let mut temp_rec = HitRecord::default();
        let mut hit_anything = false;
        let mut closest_so_far = ray_t.max;
        let mut i: usize = 0;
        while i < self.objects.len()
            invariant
                i <= self.objects.len(),
                self.fits(xs),
                hit_anything == nearest(self.objects@, xs@, ray_t, i as nat).is_some(),
                hit_anything ==> temp_rec == nearest(self.objects@, xs@, ray_t, i as nat).unwrap(),
                hit_anything ==> closest_so_far == temp_rec.t,
                !hit_anything ==> closest_so_far == ray_t.max,
            decreases self.objects.len() - i,
        {
            if self.objects[i].hit(&xs[i], interval::new(ray_t.min, closest_so_far), &mut temp_rec) {
                hit_anything = true;
                closest_so_far = temp_rec.t;
            }
            i += 1;
        }
        proof {
            let n = self.objects@.len();
            lemma_nearest_in_range(self.objects@, xs@, ray_t, n);
            if hit_anything {
                let k = lemma_nearest_is_a_hit(self.objects@, xs@, ray_t, n);
                if self.ordered(xs) {
                    let own = lemma_nearest_is_own_hit(self.objects@, xs@, ray_t, n);
                }
            }
            assert forall|k: int|
                0 <= k < n && (#[trigger] self.objects@[k].hit_spec(&xs@[k], ray_t)) is Some implies {
                &&& hit_anything
                &&& temp_rec.t.le(self.objects@[k].hit_spec(&xs@[k], ray_t).unwrap().t)
            } by {
                lemma_nearest_is_minimal(self.objects@, xs@, ray_t, n, k);
            }
        }
        if hit_anything {
            *rec = temp_rec;
        }
        hit_anything
    }

    proof fn lemma_hit_in_range(&self, xs: &Vec<T::Probe>, ray_t: Interval) {
        lemma_nearest_in_range(self.objects@, xs@, ray_t, self.objects@.len());
    }

    proof fn lemma_hit_before(&self, xs: &Vec<T::Probe>, ray_t: Interval, bound: Scalar) {
        lemma_nearest_before(self.objects@, xs@, ray_t, bound, self.objects@.len());
    }

    proof fn lemma_hit_is_steady(&self, xs: &Vec<T::Probe>, ray_t: Interval, bound: Scalar) {
        lemma_nearest_is_steady(self.objects@, xs@, ray_t, bound, self.objects@.len());
    }
}

} // verus!
