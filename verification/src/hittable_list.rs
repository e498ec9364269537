//! Lists of objects, searched one after the other.

use vstd::prelude::*;
use crate::scalar::{Scalar, zero, zero_spec, one, one_spec, whole, whole_spec};
use crate::aabb::{Aabb, lemma_encloses_transitive, lemma_from_boxes_encloses};
use crate::hittable::{HitRecord, HittableObject, HittableRef};
use crate::interval::Interval;
use crate::ray::Ray;
use crate::rtweekend::random_int;
use crate::vec3::{Vec3, first_axis};
use rand::rngs::SmallRng;

verus! {

/// A number of objects, tried one after the other.
pub struct HittableList<S: Scalar> {
    pub objects: Vec<HittableRef<S>>,
    /// The box around the objects.
    pub bbox: Aabb<S>,
}

/// The window in which the next object is tried: the given one, cut at the
/// closest hit so far.
pub open spec fn narrowed_spec<S: Scalar>(ray_t: Interval<S>, closest: Option<HitRecord<S>>)
    -> Interval<S> {
    match closest {
        Some(rec) => Interval { min: ray_t.min, max: rec.t },
        None => ray_t,
    }
}

/// The later of two answers of a search: `cur` where it is a hit, and else
/// `prev`.
pub open spec fn later_spec<S: Scalar>(prev: Option<HitRecord<S>>, cur: Option<HitRecord<S>>)
    -> Option<HitRecord<S>> {
    match cur {
        Some(rec) => Some(rec),
        None => prev,
    }
}

impl<S: Scalar> HittableList<S> {
    /// The list without objects. Its box is the empty one.
    pub fn new() -> (r: Self)
        ensures
            r.objects@.len() == 0,
            r.bbox == Aabb::<S>::empty_spec(),
            r.encloses_all(),
    {
        HittableList { objects: Vec::new(), bbox: Aabb::empty() }
    }

    /// The list of one object.
    pub fn from(object: HittableRef<S>) -> (r: Self)
        ensures
            r.objects@ == seq![object],
            r.bbox == object.bounding_box_spec(),
            r.encloses_all(),
    {
        let mut list = Self::new();
        list.add(object);
        assert(list.objects@ =~= seq![object]);
        list
    }

    /// The box of a list that had the box `bbox` and `count` objects, after
    /// one more object with the box `added` has joined it.
    pub open spec fn grown_box_spec(bbox: Aabb<S>, count: nat, added: Aabb<S>) -> Aabb<S> {
        if count == 0 {
            added
        } else {
            Aabb::from_boxes_spec(bbox, added)
        }
    }

    /// The box of the list encloses the box of each of its objects.
    pub open spec fn encloses_all(&self) -> bool {
        forall|i: int|
            0 <= i < self.objects@.len() ==> self.bbox.encloses(
                (#[trigger] self.objects@[i]).bounding_box_spec(),
            )
    }

    /// Appends an object, and widens the box to hold it. The box of the
    /// first object is taken as it is.
    pub fn add(&mut self, object: HittableRef<S>)
        ensures
            final(self).objects@ == old(self).objects@.push(object),
            final(self).bbox == Self::grown_box_spec(
                old(self).bbox,
                old(self).objects@.len(),
                object.bounding_box_spec(),
            ),
            old(self).encloses_all() ==> final(self).encloses_all(),
    {
        proof {
            lemma_from_boxes_encloses(self.bbox, object.bounding_box_spec());
            if old(self).encloses_all() {
                assert forall|i: int| 0 <= i < old(self).objects@.len() implies Aabb::from_boxes_spec(
                    old(self).bbox,
                    object.bounding_box_spec(),
                ).encloses((#[trigger] old(self).objects@[i]).bounding_box_spec()) by {
                    lemma_encloses_transitive(
                        Aabb::from_boxes_spec(old(self).bbox, object.bounding_box_spec()),
                        old(self).bbox,
                        old(self).objects@[i].bounding_box_spec(),
                    );
                }
            }
        }
        let added = object.bounding_box();
        self.objects.push(object);
        let len = self.objects.len();
        if len == 1 {
            self.bbox = added;
        } else {
            self.bbox = Aabb::from_boxes(self.bbox, added);
        }
    }

    /// Removes every object.
    pub fn clear(&mut self)
        ensures
            final(self).objects@.len() == 0,
            final(self).bbox == Aabb::<S>::empty_spec(),
            final(self).encloses_all(),
    {
        self.objects.clear();
        self.bbox = Aabb::empty();
    }

    /// The closest hit among the first `n` objects, each tried in the
    /// window that the hits before it have left.
    pub open spec fn hit_upto_spec(&self, r: Ray<S>, ray_t: Interval<S>, n: nat) -> Option<
        HitRecord<S>,
    >
        decreases self, n,
    {
        if n == 0 || n > self.objects.len() {
            None
        } else {
            let prev = self.hit_upto_spec(r, ray_t, (n - 1) as nat);
            match self.objects[n - 1].hit_spec(r, narrowed_spec(ray_t, prev)) {
                Some(rec) => Some(rec),
                None => prev,
            }
        }
    }

    pub open spec fn hit_spec(&self, r: Ray<S>, ray_t: Interval<S>) -> Option<HitRecord<S>>
        decreases self, self.objects.len() + 1,
    {
        self.hit_upto_spec(r, ray_t, self.objects.len() as nat)
    }

    /// Every object of the list answers by the ray and the window alone.
    pub open spec fn is_deterministic(&self) -> bool {
        forall|i: int|
            0 <= i < self.objects.len() ==> (#[trigger] self.objects[i]).is_deterministic()
    }

    /// The answer `res` is one that the search can have reached after the
    /// first `n` objects: none before the first; then, for an answer `prev`
    /// after the objects before and an answer `cur` of the next object in the
    /// window cut at `prev`, the answer `cur` where it is a hit and else `prev`.
    pub open spec fn can_answer_upto(
        &self,
        r: Ray<S>,
        ray_t: Interval<S>,
        n: nat,
        res: Option<HitRecord<S>>,
    ) -> bool
        decreases self, n,
    {
        if n == 0 || n > self.objects.len() {
            res is None
        } else {
            exists|prev: Option<HitRecord<S>>, cur: Option<HitRecord<S>>|
                self.can_answer_upto(r, ray_t, (n - 1) as nat, prev) && self.objects[n
                    - 1].can_answer(r, narrowed_spec(ray_t, prev), cur) && res
                    == #[trigger] later_spec(prev, cur)
        }
    }

    /// The answer `res` is one that the list can give to the ray in the
    /// window.
    pub open spec fn can_answer(&self, r: Ray<S>, ray_t: Interval<S>, res: Option<HitRecord<S>>)
        -> bool
        decreases self, self.objects.len() + 1,
    {
        self.can_answer_upto(r, ray_t, self.objects.len() as nat, res)
    }

    /// The closest hit of the ray with an object of the list: each object is
    /// tried in the window from `ray_t.min` to the closest hit so far.
    pub fn hit(&self, r: &Ray<S>, ray_t: Interval<S>, rng: &mut SmallRng) -> (res: Option<
        HitRecord<S>,
    >)
        ensures
            self.can_answer(*r, ray_t, res),
            self.is_deterministic() ==> res == self.hit_spec(*r, ray_t),
            res matches Some(h) ==> ray_t.contains_spec(h.t),
        decreases self,
    {
        let mut hit_anything: Option<HitRecord<S>> = None;
        let mut closest_so_far = ray_t.max;
        let mut i: usize = 0;
        while i < self.objects.len()
            invariant
                i <= self.objects.len(),
                decreases_to!(self => self.objects),
                self.is_deterministic() ==> hit_anything == self.hit_upto_spec(
                    *r,
                    ray_t,
                    i as nat,
                ),
                self.can_answer_upto(*r, ray_t, i as nat, hit_anything),
                hit_anything matches Some(h) ==> ray_t.contains_spec(h.t),
                (Interval { min: ray_t.min, max: closest_so_far }) == narrowed_spec(
                    ray_t,
                    hit_anything,
                ),
            decreases self.objects.len() - i,
        {
            let ghost prev = hit_anything;
            let cur = self.objects[i].hit(r, Interval::new(ray_t.min, closest_so_far), rng);
            let ghost seen = cur;
            match cur {
                Some(rec) => {
                    closest_so_far = rec.t;
                    hit_anything = Some(rec);
                },
                None => {},
            }
            assert(self.can_answer_upto(*r, ray_t, i as nat, prev) && self.objects[i as int].can_answer(
                *r,
                narrowed_spec(ray_t, prev),
                seen,
            ) && hit_anything == later_spec(prev, seen));
            i += 1;
        }
        hit_anything
    }

    pub fn bounding_box(&self) -> (r: Aabb<S>)
        ensures
            r == self.bbox,
    {
        self.bbox
    }

    /// The number of objects, as far as `i64` counts.
    pub open spec fn count_spec(&self) -> i64 {
        if self.objects.len() > i64::MAX {
            i64::MAX
        } else {
            self.objects.len() as i64
        }
    }

    /// The weight of each object in the density of the list: one over their
    /// number.
    pub open spec fn weight_spec(&self) -> S {
        one_spec::<S>().over_spec(whole_spec::<S>(self.count_spec()))
    }

    /// The weighted densities of the first `n` objects, summed in turn.
    pub open spec fn pdf_sum_spec(&self, origin: Vec3<S>, direction: Vec3<S>, n: nat) -> S
        decreases self, n,
    {
        if n == 0 || n > self.objects.len() {
            zero_spec::<S>()
        } else {
            self.pdf_sum_spec(origin, direction, (n - 1) as nat).plus_spec(
                self.weight_spec().times_spec(self.objects[n - 1].pdf_value_spec(origin, direction)),
            )
        }
    }

    /// The density with which `random` picks `direction` from `origin`:
    /// the mean of the densities of the objects.
    pub open spec fn pdf_value_spec(&self, origin: Vec3<S>, direction: Vec3<S>) -> S
        decreases self, self.objects.len() + 1,
    {
        self.pdf_sum_spec(origin, direction, self.objects.len() as nat)
    }

    pub fn pdf_value(&self, origin: Vec3<S>, direction: Vec3<S>) -> (r: S)
        ensures
            r == self.pdf_value_spec(origin, direction),
        decreases self,
    {
        let len = self.objects.len() as u64;
        let count: i64 = if len > i64::MAX as u64 {
            i64::MAX
        } else {
            len as i64
        };
        let weight = one::<S>().over(whole::<S>(count));
        let mut sum = zero::<S>();
        let mut i: usize = 0;
        while i < self.objects.len()
            invariant
                i <= self.objects.len(),
                decreases_to!(self => self.objects),
                weight == self.weight_spec(),
                sum == self.pdf_sum_spec(origin, direction, i as nat),
            decreases self.objects.len() - i,
        {
            sum = sum.plus(weight.times(self.objects[i].pdf_value(origin, direction)));
            i += 1;
        }
        sum
    }

    /// A random direction from `origin` towards one of the objects, each
    /// picked with the same chance; the first axis where the list is empty.
    pub fn random(&self, origin: Vec3<S>, rng: &mut SmallRng) -> (r: Vec3<S>)
        ensures
            HittableObject::List(*self).can_sample(origin, r),
        decreases self,
    {
        let len = self.objects.len();
        if len == 0 {
            return first_axis::<S>();
        }
        let last: i32 = if (len - 1) as u64 > i32::MAX as u64 {
            i32::MAX
        } else {
            (len - 1) as i32
        };
        let index = random_int(rng, 0, last) as usize;
        proof {
            assert(decreases_to!(self => self.objects));
        }
        self.objects[index].random(origin, rng)
    }
}

} // verus!
