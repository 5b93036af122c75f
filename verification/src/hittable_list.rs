//! The scene as one ray sees it: the crossings with every object, and the
//! search for the closest hit among them.

use vstd::prelude::*;
use crate::hittable::Roots;
use crate::interval::Interval;
use crate::scalar::Scalar;

verus! {

/// The crossings of one ray with the objects of a scene, in the scene's order.
pub struct HittableList {
    pub objects: Vec<Roots>,
}

/// The upper bound under which the next object is tested: the closest hit so
/// far, or the bound of the whole search while nothing was hit.
pub open spec fn bound_after(found: Option<(int, Scalar)>, ray_t: Interval) -> Scalar {
    match found {
        Some((_, t)) => t,
        None => ray_t.max,
    }
}

/// The outcome of testing the objects in order, each one within the range
/// that ends at the closest hit before it: the index of the object that is
/// hit first along the ray, and the ray parameter of that hit.
pub open spec fn search(objects: Seq<Roots>, ray_t: Interval) -> Option<(int, Scalar)>
    decreases objects.len(),
{
    if objects.len() == 0 {
        None
    } else {
        let before = search(objects.drop_last(), ray_t);
        let range = Interval { min: ray_t.min, max: bound_after(before, ray_t) };
        match objects.last().chosen(range) {
            Some(t) => Some((objects.len() - 1, t)),
            None => before,
        }
    }
}

/// Whether `found` is the closest of the hits that the objects have within
/// `ray_t`, each object tested on its own: no object is hit before it, and
/// none after it in the list is hit at the same distance.
pub open spec fn is_closest(objects: Seq<Roots>, ray_t: Interval, found: Option<(int, Scalar)>) -> bool {
    match found {
        None => forall|j: int| 0 <= j < objects.len() ==> (#[trigger] objects[j]).chosen(ray_t) is None,
        Some((i, t)) => {
            &&& 0 <= i < objects.len()
            &&& objects[i].chosen(ray_t) == Some(t)
            &&& forall|j: int|
                0 <= j < objects.len() ==> match (#[trigger] objects[j]).chosen(ray_t) {
                    Some(u) => t.at_most(u) && (j > i ==> t.below(u)),
                    None => true,
                }
        },
    }
}

/// Testing every object on its own over the whole range and keeping the
/// closest hit gives what the search with its shrinking range gives. Among
/// hits at equal distance the last object wins.
pub proof fn search_finds_closest(objects: Seq<Roots>, ray_t: Interval)
    requires
        forall|j: int| 0 <= j < objects.len() ==> (#[trigger] objects[j]).ordered(),
    ensures
        is_closest(objects, ray_t, search(objects, ray_t)),
    decreases objects.len(),
{
    if objects.len() > 0 {
        let earlier = objects.drop_last();
        let last = objects.last();
        let n = objects.len() - 1;
        assert forall|j: int| 0 <= j < earlier.len() implies (#[trigger] earlier[j]).ordered() by {
            assert(earlier[j] == objects[j]);
        }
        search_finds_closest(earlier, ray_t);
        let before = search(earlier, ray_t);
        let bound = bound_after(before, ray_t);
        let range = Interval { min: ray_t.min, max: bound };
        let found = search(objects, ray_t);
        assert(forall|j: int| 0 <= j < n ==> objects[j] == earlier[j]);
        match before {
            None => {
                assert(range == ray_t);
            },
            Some((i, t0)) => {
                earlier[i].hit_is_a_crossing_in_range(ray_t);
                last.narrowing_only_drops(ray_t, t0);
            },
        }
        match found {
            None => {
                assert forall|j: int| 0 <= j < objects.len() implies (#[trigger] objects[j]).chosen(
                    ray_t,
                ) is None by {
                    if j < n {
                        assert(earlier[j].chosen(ray_t) is None);
                    }
                }
            },
            Some((i, t)) => {
                assert forall|j: int| 0 <= j < objects.len() implies match (#[trigger] objects[j]).chosen(
                    ray_t,
                ) {
                    Some(u) => t.at_most(u) && (j > i ==> t.below(u)),
                    None => true,
                } by {
                    last.hit_is_a_crossing_in_range(ray_t);
                    if j < n {
                        assert(objects[j] == earlier[j]);
                    }
                }
            },
        }
    }
}

/// There is at most one closest hit, so [`is_closest`] says what the search
/// returns.
pub proof fn closest_is_unique(
    objects: Seq<Roots>,
    ray_t: Interval,
    a: Option<(int, Scalar)>,
    b: Option<(int, Scalar)>,
)
    requires
        is_closest(objects, ray_t, a),
        is_closest(objects, ray_t, b),
    ensures
        a == b,
{
    match (a, b) {
        (Some((i, t)), Some((k, u))) => {
            assert(objects[i].chosen(ray_t) == Some(t));
            assert(objects[k].chosen(ray_t) == Some(u));
        },
        (Some((i, t)), None) => {
            assert(objects[i].chosen(ray_t) == Some(t));
        },
        (None, Some((k, u))) => {
            assert(objects[k].chosen(ray_t) == Some(u));
        },
        (None, None) => {},
    }
}

impl HittableList {
    pub fn new() -> (list: HittableList)
        ensures
            list.objects@.len() == 0,
    {
        HittableList { objects: Vec::new() }
    }

    /// Adds the crossings with one more object, after those that are there.
    pub fn push(&mut self, roots: Roots)
        ensures
            final(self).objects@ == old(self).objects@.push(roots),
    {
        self.objects.push(roots);
    }

    /// The closest hit within `ray_t`: the index of the object and the ray
    /// parameter of the hit. Each object is tested within the range that ends
    /// at the closest hit before it.
    pub fn hit(&self, ray_t: Interval) -> (r: Option<(usize, Scalar)>)
        ensures
            match r {
                Some((i, t)) => search(self.objects@, ray_t) == Some((i as int, t)),
                None => search(self.objects@, ray_t) is None,
            },
    {
        let mut temp_rec: Option<(usize, Scalar)> = None;
        let mut closest_so_far = ray_t.max;
        let n: usize = self.objects.len();
        let mut k: usize = 0;
        assert(self.objects@.take(0) =~= Seq::empty());
        while k < n
            invariant
                n == self.objects@.len(),
                k <= n,
                match temp_rec {
                    Some((i, t)) => search(self.objects@.take(k as int), ray_t) == Some(
                        (i as int, t),
                    ),
                    None => search(self.objects@.take(k as int), ray_t) is None,
                },
                closest_so_far == bound_after(search(self.objects@.take(k as int), ray_t), ray_t),
            decreases n - k,
        {
            proof {
                let next = self.objects@.take(k + 1);
                assert(next.drop_last() =~= self.objects@.take(k as int));
                assert(next.last() == self.objects@[k as int]);
            }
            if let Some(t) = self.objects[k].hit(Interval::new(ray_t.min, closest_so_far)) {
                closest_so_far = t;
                temp_rec = Some((k, t));
            }
            k += 1;
        }
        assert(self.objects@.take(n as int) =~= self.objects@);
        temp_rec
    }
}

} // verus!
