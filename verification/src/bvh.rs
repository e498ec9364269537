//! The bounding volume hierarchy: how it is built, and how a ray is traced
//! through it.

use vstd::prelude::*;
use crate::scalar::{Scalar, whole, whole_spec};
use crate::aabb::{Aabb, lemma_encloses_transitive, lemma_from_boxes_encloses};
use crate::hittable::{HitRecord, HittableObject, HittableRef, make_ref};
use crate::hittable_list::{HittableList, later_spec, narrowed_spec};
use crate::interval::Interval;
use crate::permute::{
    lemma_permuted_member, lemma_permuted_reflexive, lemma_permuted_transitive,
    lemma_permuted_widens, lemma_swap_permutes, permuted_within, swap_handles,
};
use crate::ray::Ray;
use crate::shared::share;
use rand::rngs::SmallRng;

verus! {

/// A node of a bounding volume hierarchy: two children, and a box around
/// everything beneath them. A child is a further node, or a primitive.
pub struct BvhNode<S: Scalar> {
    pub left: HittableRef<S>,
    pub right: HittableRef<S>,
    pub bbox: Aabb<S>,
}

/// The number of buckets into which the centroids of a node are sorted.
pub const NUM_BUCKETS: usize = 12;

/// The primitives beneath an object: those of its children where it is a
/// node of a hierarchy, else the object itself.
pub open spec fn beneath_spec<S: Scalar>(o: HittableRef<S>) -> Seq<HittableRef<S>>
    decreases o, 0nat,
{
    match *o {
        HittableObject::Bvh(node) => node.leaves_spec(),
        _ => seq![o],
    }
}

/// The primitives beneath a number of objects, in their order.
pub open spec fn flatten_spec<S: Scalar>(objects: Seq<HittableRef<S>>) -> Seq<HittableRef<S>>
    decreases objects.len(),
{
    if objects.len() == 0 {
        Seq::empty()
    } else {
        flatten_spec(objects.drop_last()) + beneath_spec(objects.last())
    }
}

/// The box around a number of objects: the boxes of the objects, joined to
/// the empty box one after the other.
pub open spec fn span_box_spec<S: Scalar>(objects: Seq<HittableRef<S>>) -> Aabb<S>
    decreases objects.len(),
{
    if objects.len() == 0 {
        Aabb::<S>::empty_spec()
    } else {
        Aabb::from_boxes_spec(
            span_box_spec(objects.drop_last()),
            objects.last().bounding_box_spec(),
        )
    }
}

/// The middle of a box on an axis.
pub open spec fn centroid_spec<S: Scalar>(bbox: Aabb<S>, axis: int) -> S {
    let side = bbox.axis_interval_spec(axis);
    S::from_ratio_spec(1, 2).times_spec(side.min.plus_spec(side.max))
}

/// The place of an object on an axis: the key of the middle of its box.
pub open spec fn place_spec<S: Scalar>(o: HittableRef<S>, axis: int) -> int {
    centroid_spec(o.bounding_box_spec(), axis).key() as int
}

pub fn centroid<S: Scalar>(bbox: &Aabb<S>, axis: usize) -> (r: S)
    ensures
        r == centroid_spec(*bbox, axis as int),
{
    let side = bbox.axis_interval(axis);
    S::from_ratio(1, 2).times(side.min.plus(side.max))
}

/// The bucket of a centroid `c` among centroids that run from `low` to
/// `high`: its share of the way, in twelfths, cut to a whole number and held
/// within the buckets.
pub open spec fn bucket_spec<S: Scalar>(c: S, low: S, high: S) -> int {
    let raw = c.minus_spec(low).over_spec(high.minus_spec(low)).times_spec(
        whole_spec::<S>(NUM_BUCKETS as i64),
    ).truncate_spec();
    if raw < 0 {
        0
    } else if raw >= NUM_BUCKETS {
        NUM_BUCKETS - 1
    } else {
        raw as int
    }
}

pub fn bucket_index<S: Scalar>(c: S, low: S, high: S) -> (r: usize)
    ensures
        r == bucket_spec(c, low, high),
        r < NUM_BUCKETS,
{
    let raw = c.minus(low).over(high.minus(low)).times(whole::<S>(NUM_BUCKETS as i64)).truncate();
    if raw < 0 {
        0
    } else if raw >= NUM_BUCKETS as i64 {
        NUM_BUCKETS - 1
    } else {
        raw as usize
    }
}

/// The bucket of an object.
pub open spec fn bucket_of_spec<S: Scalar>(o: HittableRef<S>, axis: int, low: S, high: S) -> int {
    bucket_spec(centroid_spec(o.bounding_box_spec(), axis), low, high)
}

/// A count as a scalar, as far as `i64` counts.
pub open spec fn count_scalar_spec<S: Scalar>(count: int) -> S {
    whole_spec::<S>(
        if count > i64::MAX {
            i64::MAX
        } else {
            count as i64
        },
    )
}

pub fn count_scalar<S: Scalar>(count: u128) -> (r: S)
    ensures
        r == count_scalar_spec::<S>(count as int),
{
    if count > i64::MAX as u128 {
        whole::<S>(i64::MAX)
    } else {
        whole::<S>(count as i64)
    }
}

/// The objects in the buckets up to bucket `i`.
pub open spec fn left_count_spec(counts: Seq<u64>, i: int) -> int
    decreases i + 1,
{
    if i < 0 || i >= counts.len() {
        0
    } else {
        left_count_spec(counts, i - 1) + counts[i]
    }
}

/// The objects in the buckets from bucket `i` on.
pub open spec fn right_count_spec(counts: Seq<u64>, i: int) -> int
    decreases counts.len() - i,
{
    if i < 0 || i >= counts.len() {
        0
    } else {
        right_count_spec(counts, i + 1) + counts[i]
    }
}

/// The box around the buckets up to bucket `i`, joined from the first on.
pub open spec fn left_box_spec<S: Scalar>(boxes: Seq<Aabb<S>>, i: int) -> Aabb<S>
    decreases i + 1,
{
    if i < 0 || i >= boxes.len() {
        Aabb::<S>::empty_spec()
    } else {
        Aabb::from_boxes_spec(left_box_spec(boxes, i - 1), boxes[i])
    }
}

/// The box around the buckets from bucket `i` on, joined from the last back.
pub open spec fn right_box_spec<S: Scalar>(boxes: Seq<Aabb<S>>, i: int) -> Aabb<S>
    decreases boxes.len() - i,
{
    if i < 0 || i >= boxes.len() {
        Aabb::<S>::empty_spec()
    } else {
        Aabb::from_boxes_spec(right_box_spec(boxes, i + 1), boxes[i])
    }
}

/// A split after bucket `i` leaves objects on both sides.
pub open spec fn is_split_spec(counts: Seq<u64>, i: int) -> bool {
    left_count_spec(counts, i) > 0 && right_count_spec(counts, i + 1) > 0
}

/// The cost of a split after bucket `i` by the surface area heuristic: on
/// each side the area of the box times the number of objects.
pub open spec fn cost_spec<S: Scalar>(counts: Seq<u64>, boxes: Seq<Aabb<S>>, i: int) -> S {
    left_box_spec(boxes, i).surface_area_spec().times_spec(
        count_scalar_spec::<S>(left_count_spec(counts, i)),
    ).plus_spec(
        right_box_spec(boxes, i + 1).surface_area_spec().times_spec(
            count_scalar_spec::<S>(right_count_spec(counts, i + 1)),
        ),
    )
}

/// The cheapest split among those after the buckets before bucket `n`,
/// with its cost: a split is taken where it leaves objects on both sides and
/// costs less than infinity and than every split before it.
pub open spec fn best_split_spec<S: Scalar>(counts: Seq<u64>, boxes: Seq<Aabb<S>>, n: int) -> (
    S,
    int,
)
    decreases n,
{
    if n <= 0 {
        (S::infinity_spec(), 0)
    } else {
        let prev = best_split_spec(counts, boxes, n - 1);
        if is_split_spec(counts, n - 1) && cost_spec(counts, boxes, n - 1).key() < prev.0.key() {
            (cost_spec(counts, boxes, n - 1), n - 1)
        } else {
            prev
        }
    }
}

/// The split that is taken is the cheapest: it leaves objects on both sides,
/// no split that does so costs less, and none before it costs as little. Where
/// the cost is not below infinity, no split was taken.
pub proof fn lemma_best_split_is_cheapest<S: Scalar>(
    counts: Seq<u64>,
    boxes: Seq<Aabb<S>>,
    n: int,
    j: int,
)
    requires
        0 <= j < n,
    ensures
        ({
            let best = best_split_spec(counts, boxes, n);
            &&& best.0.key() <= S::infinity_spec().key()
            &&& is_split_spec(counts, j) ==> best.0.key() <= cost_spec(counts, boxes, j).key()
            &&& best.0.key() < S::infinity_spec().key() ==> {
                &&& 0 <= best.1 < n
                &&& is_split_spec(counts, best.1)
                &&& best.0 == cost_spec(counts, boxes, best.1)
                &&& j < best.1 && is_split_spec(counts, j) ==> best.0.key() < cost_spec(
                    counts,
                    boxes,
                    j,
                ).key()
            }
        }),
    decreases n,
{
    let prev = best_split_spec(counts, boxes, n - 1);
    if n > 1 {
        if j < n - 1 {
            lemma_best_split_is_cheapest(counts, boxes, n - 1, j);
        } else {
            lemma_best_split_is_cheapest(counts, boxes, n - 1, 0);
        }
    } else {
        assert(prev == (S::infinity_spec(), 0int));
    }
}

/// No bucket holds more than `bound` objects.
pub open spec fn counts_within(counts: Seq<u64>, bound: int) -> bool {
    forall|b: int| 0 <= b < counts.len() ==> #[trigger] counts[b] <= bound
}

pub proof fn lemma_left_count_bound(counts: Seq<u64>, i: int, bound: int)
    requires
        counts_within(counts, bound),
        0 <= bound,
        -1 <= i < counts.len(),
    ensures
        0 <= left_count_spec(counts, i) <= (i + 1) * bound,
    decreases i + 1,
{
    if i >= 0 {
        lemma_left_count_bound(counts, i - 1, bound);
        assert((i + 1) * bound == i * bound + bound) by (nonlinear_arith);
    }
}

pub proof fn lemma_right_count_bound(counts: Seq<u64>, i: int, bound: int)
    requires
        counts_within(counts, bound),
        0 <= bound,
        0 <= i <= counts.len(),
    ensures
        0 <= right_count_spec(counts, i) <= (counts.len() - i) * bound,
    decreases counts.len() - i,
{
    if i < counts.len() {
        lemma_right_count_bound(counts, i + 1, bound);
        assert((counts.len() - i) * bound == (counts.len() - i - 1) * bound + bound)
            by (nonlinear_arith);
    }
}

/// The cheapest split between twelve buckets by the surface area heuristic,
/// with its cost. The cost is infinity where no split leaves objects on both
/// sides at a cost below infinity.
pub fn best_split<S: Scalar>(counts: &Vec<u64>, boxes: &Vec<Aabb<S>>) -> (r: (S, usize))
    requires
        counts@.len() == NUM_BUCKETS,
        boxes@.len() == NUM_BUCKETS,
    ensures
        r.0 == best_split_spec(counts@, boxes@, NUM_BUCKETS - 1).0,
        r.1 == best_split_spec(counts@, boxes@, NUM_BUCKETS - 1).1,
        r.1 < NUM_BUCKETS - 1,
{
    let mut right_bbox: Vec<Aabb<S>> = Vec::new();
    let mut right_count: Vec<u128> = Vec::new();
    let mut k: usize = 0;
    while k < NUM_BUCKETS
        invariant
            k <= NUM_BUCKETS,
            right_bbox@.len() == k,
            right_count@.len() == k,
        decreases NUM_BUCKETS - k,
    {
        right_bbox.push(Aabb::empty());
        right_count.push(0);
        k += 1;
    }
    proof {
        assert(counts_within(counts@, u64::MAX as int));
    }
    let mut accum_bbox = Aabb::<S>::empty();
    let mut accum_count: u128 = 0;
    let mut i: usize = NUM_BUCKETS;
    while i > 0
        invariant
            i <= NUM_BUCKETS,
            counts@.len() == NUM_BUCKETS,
            boxes@.len() == NUM_BUCKETS,
            right_bbox@.len() == NUM_BUCKETS,
            right_count@.len() == NUM_BUCKETS,
            counts_within(counts@, u64::MAX as int),
            accum_bbox == right_box_spec(boxes@, i as int),
            accum_count == right_count_spec(counts@, i as int),
            forall|b: int| i <= b < NUM_BUCKETS ==> right_bbox@[b] == right_box_spec(boxes@, b),
            forall|b: int| i <= b < NUM_BUCKETS ==> right_count@[b] == right_count_spec(counts@, b),
        decreases i,
    {
        i -= 1;
        proof {
            lemma_right_count_bound(counts@, i as int + 1, u64::MAX as int);
            lemma_right_count_bound(counts@, i as int, u64::MAX as int);
        }
        accum_count = accum_count + counts[i] as u128;
        accum_bbox = Aabb::from_boxes(accum_bbox, boxes[i]);
        right_bbox.set(i, accum_bbox);
        right_count.set(i, accum_count);
    }
    let mut left_bbox = Aabb::<S>::empty();
    let mut left_count: u128 = 0;
    let mut best_cost = S::infinity();
    let mut best: usize = 0;
    let mut j: usize = 0;
    while j < NUM_BUCKETS - 1
        invariant
            j <= NUM_BUCKETS - 1,
            counts@.len() == NUM_BUCKETS,
            boxes@.len() == NUM_BUCKETS,
            right_bbox@.len() == NUM_BUCKETS,
            right_count@.len() == NUM_BUCKETS,
            counts_within(counts@, u64::MAX as int),
            left_bbox == left_box_spec(boxes@, j as int - 1),
            left_count == left_count_spec(counts@, j as int - 1),
            forall|b: int| 0 <= b < NUM_BUCKETS ==> right_bbox@[b] == right_box_spec(boxes@, b),
            forall|b: int| 0 <= b < NUM_BUCKETS ==> right_count@[b] == right_count_spec(counts@, b),
            best_cost == best_split_spec(counts@, boxes@, j as int).0,
            best == best_split_spec(counts@, boxes@, j as int).1,
            best < NUM_BUCKETS - 1,
        decreases NUM_BUCKETS - 1 - j,
    {
        proof {
            lemma_left_count_bound(counts@, j as int - 1, u64::MAX as int);
            lemma_left_count_bound(counts@, j as int, u64::MAX as int);
        }
        left_count = left_count + counts[j] as u128;
        left_bbox = Aabb::from_boxes(left_bbox, boxes[j]);
        let rb = right_bbox[j + 1];
        let rc = right_count[j + 1];
        if left_count != 0 && rc != 0 {
            let cost = left_bbox.surface_area().times(count_scalar::<S>(left_count)).plus(
                rb.surface_area().times(count_scalar::<S>(rc)),
            );
            if cost.lt(best_cost) {
                best_cost = cost;
                best = j;
            }
        }
        j += 1;
    }
    (best_cost, best)
}

/// The box around the objects between `start` and `end`.
pub fn span_box<S: Scalar>(objects: &Vec<HittableRef<S>>, start: usize, end: usize) -> (r: Aabb<S>)
    requires
        start <= end <= objects@.len(),
    ensures
        r == span_box_spec(objects@.subrange(start as int, end as int)),
{
    let mut bbox = Aabb::<S>::empty();
    let mut i: usize = start;
    while i < end
        invariant
            start <= i <= end <= objects@.len(),
            bbox == span_box_spec(objects@.subrange(start as int, i as int)),
        decreases end - i,
    {
        proof {
            assert(objects@.subrange(start as int, i + 1).drop_last() =~= objects@.subrange(
                start as int,
                i as int,
            ));
        }
        bbox = Aabb::from_boxes(bbox, objects[i].bounding_box());
        i += 1;
    }
    bbox
}

/// The box around a number of objects encloses the box of each.
pub proof fn lemma_span_box_encloses<S: Scalar>(objects: Seq<HittableRef<S>>, k: int)
    requires
        0 <= k < objects.len(),
    ensures
        span_box_spec(objects).encloses(objects[k].bounding_box_spec()),
    decreases objects.len(),
{
    let rest = objects.drop_last();
    lemma_from_boxes_encloses(span_box_spec(rest), objects.last().bounding_box_spec());
    if k < objects.len() - 1 {
        lemma_span_box_encloses(rest, k);
        lemma_encloses_transitive(
            span_box_spec(objects),
            span_box_spec(rest),
            objects[k].bounding_box_spec(),
        );
    }
}

/// The earliest centroid of a number of objects on an axis; infinity where
/// there is none.
pub open spec fn centroid_low_spec<S: Scalar>(objects: Seq<HittableRef<S>>, axis: int) -> S
    decreases objects.len(),
{
    if objects.len() == 0 {
        S::infinity_spec()
    } else {
        let prev = centroid_low_spec(objects.drop_last(), axis);
        let c = centroid_spec(objects.last().bounding_box_spec(), axis);
        if c.key() < prev.key() {
            c
        } else {
            prev
        }
    }
}

/// The latest centroid of a number of objects on an axis; the negation of
/// infinity where there is none.
pub open spec fn centroid_high_spec<S: Scalar>(objects: Seq<HittableRef<S>>, axis: int) -> S
    decreases objects.len(),
{
    if objects.len() == 0 {
        S::infinity_spec().negate_spec()
    } else {
        let prev = centroid_high_spec(objects.drop_last(), axis);
        let c = centroid_spec(objects.last().bounding_box_spec(), axis);
        if c.key() > prev.key() {
            c
        } else {
            prev
        }
    }
}

/// The earliest and the latest centroid of the objects between `start` and
/// `end`.
pub fn centroid_bounds<S: Scalar>(
    objects: &Vec<HittableRef<S>>,
    start: usize,
    end: usize,
    axis: usize,
) -> (r: (S, S))
    requires
        start <= end <= objects@.len(),
    ensures
        r.0 == centroid_low_spec(objects@.subrange(start as int, end as int), axis as int),
        r.1 == centroid_high_spec(objects@.subrange(start as int, end as int), axis as int),
{
    let mut low = S::infinity();
    let mut high = S::infinity().negate();
    let mut i: usize = start;
    while i < end
        invariant
            start <= i <= end <= objects@.len(),
            low == centroid_low_spec(objects@.subrange(start as int, i as int), axis as int),
            high == centroid_high_spec(objects@.subrange(start as int, i as int), axis as int),
        decreases end - i,
    {
        proof {
            assert(objects@.subrange(start as int, i + 1).drop_last() =~= objects@.subrange(
                start as int,
                i as int,
            ));
        }
        let b = objects[i].bounding_box();
        let c = centroid(&b, axis);
        if c.lt(low) {
            low = c;
        }
        if high.lt(c) {
            high = c;
        }
        i += 1;
    }
    (low, high)
}

/// The centroids lie so close together that buckets cannot part them:
/// the distance from the earliest to the latest is below 10⁻¹².
pub open spec fn is_degenerate_spec<S: Scalar>(low: S, high: S) -> bool {
    high.minus_spec(low).abs_spec().key() < S::from_ratio_spec(1, 1_000_000_000_000).key()
}

/// The number of objects in bucket `b`.
pub open spec fn bucket_count_spec<S: Scalar>(
    objects: Seq<HittableRef<S>>,
    axis: int,
    low: S,
    high: S,
    b: int,
) -> int
    decreases objects.len(),
{
    if objects.len() == 0 {
        0
    } else {
        bucket_count_spec(objects.drop_last(), axis, low, high, b) + if bucket_of_spec(
            objects.last(),
            axis,
            low,
            high,
        ) == b {
            1int
        } else {
            0int
        }
    }
}

/// The box around the objects in bucket `b`, joined to the empty box in
/// their order.
pub open spec fn bucket_box_spec<S: Scalar>(
    objects: Seq<HittableRef<S>>,
    axis: int,
    low: S,
    high: S,
    b: int,
) -> Aabb<S>
    decreases objects.len(),
{
    if objects.len() == 0 {
        Aabb::<S>::empty_spec()
    } else {
        let prev = bucket_box_spec(objects.drop_last(), axis, low, high, b);
        if bucket_of_spec(objects.last(), axis, low, high) == b {
            Aabb::from_boxes_spec(prev, objects.last().bounding_box_spec())
        } else {
            prev
        }
    }
}

pub proof fn lemma_bucket_count_bound<S: Scalar>(
    objects: Seq<HittableRef<S>>,
    axis: int,
    low: S,
    high: S,
    b: int,
)
    ensures
        0 <= bucket_count_spec(objects, axis, low, high, b) <= objects.len(),
    decreases objects.len(),
{
    if objects.len() > 0 {
        lemma_bucket_count_bound(objects.drop_last(), axis, low, high, b);
    }
}

/// Sorts the objects between `start` and `end` into twelve buckets by their
/// centroids, and returns for each bucket the number of its objects and the
/// box around them.
pub fn fill_buckets<S: Scalar>(
    objects: &Vec<HittableRef<S>>,
    start: usize,
    end: usize,
    axis: usize,
    low: S,
    high: S,
) -> (r: (Vec<u64>, Vec<Aabb<S>>))
    requires
        start <= end <= objects@.len(),
    ensures
        r.0@.len() == NUM_BUCKETS,
        r.1@.len() == NUM_BUCKETS,
        forall|b: int|
            0 <= b < NUM_BUCKETS ==> #[trigger] r.0@[b] == bucket_count_spec(
                objects@.subrange(start as int, end as int),
                axis as int,
                low,
                high,
                b,
            ),
        forall|b: int|
            0 <= b < NUM_BUCKETS ==> #[trigger] r.1@[b] == bucket_box_spec(
                objects@.subrange(start as int, end as int),
                axis as int,
                low,
                high,
                b,
            ),
{
    let mut counts: Vec<u64> = Vec::new();
    let mut boxes: Vec<Aabb<S>> = Vec::new();
    let mut k: usize = 0;
    while k < NUM_BUCKETS
        invariant
            k <= NUM_BUCKETS,
            counts@.len() == k,
            boxes@.len() == k,
            forall|b: int| 0 <= b < k ==> #[trigger] counts@[b] == 0,
            forall|b: int| 0 <= b < k ==> #[trigger] boxes@[b] == Aabb::<S>::empty_spec(),
        decreases NUM_BUCKETS - k,
    {
        counts.push(0);
        boxes.push(Aabb::empty());
        k += 1;
    }
    let mut i: usize = start;
    while i < end
        invariant
            start <= i <= end <= objects@.len(),
            counts@.len() == NUM_BUCKETS,
            boxes@.len() == NUM_BUCKETS,
            forall|b: int|
                0 <= b < NUM_BUCKETS ==> #[trigger] counts@[b] == bucket_count_spec(
                    objects@.subrange(start as int, i as int),
                    axis as int,
                    low,
                    high,
                    b,
                ),
            forall|b: int|
                0 <= b < NUM_BUCKETS ==> #[trigger] boxes@[b] == bucket_box_spec(
                    objects@.subrange(start as int, i as int),
                    axis as int,
                    low,
                    high,
                    b,
                ),
        decreases end - i,
    {
        let ghost before = objects@.subrange(start as int, i as int);
        let ghost after = objects@.subrange(start as int, i + 1);
        proof {
            assert(after.drop_last() =~= before);
            assert(after.last() == objects@[i as int]);
        }
        let bx = objects[i].bounding_box();
        let idx = bucket_index(centroid(&bx, axis), low, high);
        proof {
            lemma_bucket_count_bound(before, axis as int, low, high, idx as int);
        }
        let c = counts[idx];
        counts.set(idx, c + 1);
        let joined = Aabb::from_boxes(boxes[idx], bx);
        boxes.set(idx, joined);
        i += 1;
    }
    (counts, boxes)
}

/// The objects between `start` and `end` stand in the order of their
/// centroids on the axis.
pub open spec fn sorted_by_place<S: Scalar>(
    objects: Seq<HittableRef<S>>,
    start: int,
    end: int,
    axis: int,
) -> bool {
    forall|a: int, b: int|
        start <= a < b < end ==> place_spec(#[trigger] objects[a], axis) <= place_spec(
            #[trigger] objects[b],
            axis,
        )
}

/// The objects whose centroid on the axis stands at the place `k`, in
/// their order.
pub open spec fn at_place_spec<S: Scalar>(objects: Seq<HittableRef<S>>, axis: int, k: int) -> Seq<
    HittableRef<S>,
>
    decreases objects.len(),
{
    if objects.len() == 0 {
        Seq::empty()
    } else {
        let rest = at_place_spec(objects.drop_last(), axis, k);
        if place_spec(objects.last(), axis) == k {
            rest.push(objects.last())
        } else {
            rest
        }
    }
}

/// The objects are in the same order as far as their centroids stand at one
/// place: a sort that takes `before` to `after` is stable.
pub open spec fn same_order_at_each_place<S: Scalar>(
    before: Seq<HittableRef<S>>,
    after: Seq<HittableRef<S>>,
    axis: int,
) -> bool {
    forall|k: int| #[trigger] at_place_spec(after, axis, k) == at_place_spec(before, axis, k)
}

/// To exchange two neighbours whose centroids stand at different places
/// leaves the order at each place as it is.
pub proof fn lemma_swap_keeps_places<S: Scalar>(
    objects: Seq<HittableRef<S>>,
    axis: int,
    j: int,
    k: int,
)
    requires
        0 < j < objects.len(),
        place_spec(objects[j], axis) != place_spec(objects[j - 1], axis),
    ensures
        at_place_spec(objects.update(j, objects[j - 1]).update(j - 1, objects[j]), axis, k)
            == at_place_spec(objects, axis, k),
    decreases objects.len(),
{
    let swapped = objects.update(j, objects[j - 1]).update(j - 1, objects[j]);
    if j == objects.len() - 1 {
        let base = objects.drop_last().drop_last();
        assert(swapped.drop_last().drop_last() =~= base);
        assert(swapped.last() == objects[j - 1]);
        assert(swapped.drop_last().last() == objects[j]);
        assert(objects.drop_last().last() == objects[j - 1]);
        let low = at_place_spec(base, axis, k);
        assert(at_place_spec(objects.drop_last(), axis, k) == if place_spec(objects[j - 1], axis)
            == k {
            low.push(objects[j - 1])
        } else {
            low
        });
        assert(at_place_spec(swapped.drop_last(), axis, k) == if place_spec(objects[j], axis)
            == k {
            low.push(objects[j])
        } else {
            low
        });
    } else {
        let rest = objects.drop_last();
        assert(swapped.drop_last() =~= rest.update(j, rest[j - 1]).update(j - 1, rest[j]));
        assert(swapped.last() == objects.last());
        lemma_swap_keeps_places(rest, axis, j, k);
    }
}

/// Sorts the objects between `start` and `end` by their centroids on the
/// axis. Objects with centroids at one place keep their order.
pub fn sort_by_centroid<S: Scalar>(
    objects: &mut Vec<HittableRef<S>>,
    start: usize,
    end: usize,
    axis: usize,
)
    requires
        start <= end <= old(objects)@.len(),
    ensures
        permuted_within(old(objects)@, final(objects)@, start as int, end as int),
        sorted_by_place(final(objects)@, start as int, end as int, axis as int),
        same_order_at_each_place(
            old(objects)@.subrange(start as int, end as int),
            final(objects)@.subrange(start as int, end as int),
            axis as int,
        ),
{
    proof {
        lemma_permuted_reflexive(objects@, start as int, end as int);
    }
    if end - start < 2 {
        return ;
    }
    let mut i: usize = start + 1;
    while i < end
        invariant
            start < i <= end <= objects@.len(),
            permuted_within(old(objects)@, objects@, start as int, end as int),
            sorted_by_place(objects@, start as int, i as int, axis as int),
            same_order_at_each_place(
                old(objects)@.subrange(start as int, end as int),
                objects@.subrange(start as int, end as int),
                axis as int,
            ),
        decreases end - i,
    {
        let mut j: usize = i;
        let mut settled = false;
        while j > start && !settled
            invariant
                start <= j <= i < end <= objects@.len(),
                permuted_within(old(objects)@, objects@, start as int, end as int),
                sorted_by_place(objects@, start as int, j as int, axis as int),
                sorted_by_place(objects@, j as int, i + 1, axis as int),
                forall|a: int, b: int|
                    start <= a < j && j < b <= i ==> place_spec(#[trigger] objects@[a], axis as int)
                        <= place_spec(#[trigger] objects@[b], axis as int),
                settled && j > start ==> place_spec(objects@[j - 1], axis as int) <= place_spec(
                    objects@[j as int],
                    axis as int,
                ),
                same_order_at_each_place(
                    old(objects)@.subrange(start as int, end as int),
                    objects@.subrange(start as int, end as int),
                    axis as int,
                ),
            decreases j + if settled { 0int } else { 1int },
        {
            let here = centroid(&objects[j].bounding_box(), axis);
            let before = centroid(&objects[j - 1].bounding_box(), axis);
            if !here.lt(before) {
                settled = true;
            } else {
                let ghost prev = objects@;
                swap_handles(objects, j, j - 1);
                proof {
                    lemma_swap_permutes(prev, start as int, end as int, j as int, j - 1);
                    lemma_permuted_transitive(
                        old(objects)@,
                        prev,
                        objects@,
                        start as int,
                        end as int,
                    );
                    let part = prev.subrange(start as int, end as int);
                    let at = j - start;
                    assert(objects@.subrange(start as int, end as int) =~= part.update(
                        at,
                        part[at - 1],
                    ).update(at - 1, part[at]));
                    assert forall|k: int| #[trigger]
                        at_place_spec(objects@.subrange(start as int, end as int), axis as int, k)
                            == at_place_spec(
                            old(objects)@.subrange(start as int, end as int),
                            axis as int,
                            k,
                        ) by {
                        lemma_swap_keeps_places(part, axis as int, at, k);
                    }
                }
                j -= 1;
            }
        }
        i += 1;
    }
}

/// Brings the objects between `start` and `end` whose bucket is `split`
/// or an earlier one to the front of the range, and returns where the others
/// begin.
pub fn partition<S: Scalar>(
    objects: &mut Vec<HittableRef<S>>,
    start: usize,
    end: usize,
    axis: usize,
    low: S,
    high: S,
    split: usize,
) -> (mid: usize)
    requires
        start <= end <= old(objects)@.len(),
    ensures
        start <= mid <= end,
        permuted_within(old(objects)@, final(objects)@, start as int, end as int),
        is_parted_spec(
            final(objects)@,
            start as int,
            mid as int,
            end as int,
            axis as int,
            low,
            high,
            split as int,
        ),
{
    proof {
        lemma_permuted_reflexive(objects@, start as int, end as int);
    }
    let mut mid: usize = start;
    let mut i: usize = start;
    while i < end
        invariant
            start <= mid <= i <= end <= objects@.len(),
            permuted_within(old(objects)@, objects@, start as int, end as int),
            is_parted_spec(
                objects@,
                start as int,
                mid as int,
                i as int,
                axis as int,
                low,
                high,
                split as int,
            ),
        decreases end - i,
    {
        let bx = objects[i].bounding_box();
        let idx = bucket_index(centroid(&bx, axis), low, high);
        if idx <= split {
            let ghost prev = objects@;
            swap_handles(objects, i, mid);
            proof {
                lemma_swap_permutes(prev, start as int, end as int, i as int, mid as int);
                lemma_permuted_transitive(
                    old(objects)@,
                    prev,
                    objects@,
                    start as int,
                    end as int,
                );
            }
            mid += 1;
        }
        i += 1;
    }
    mid
}

/// The objects from `start` to `mid` lie in the bucket `split` or an
/// earlier one, those from `mid` to `end` in a later one.
pub open spec fn is_parted_spec<S: Scalar>(
    objects: Seq<HittableRef<S>>,
    start: int,
    mid: int,
    end: int,
    axis: int,
    low: S,
    high: S,
    split: int,
) -> bool {
    &&& forall|k: int|
        start <= k < mid ==> bucket_of_spec(#[trigger] objects[k], axis, low, high) <= split
    &&& forall|k: int|
        mid <= k < end ==> bucket_of_spec(#[trigger] objects[k], axis, low, high) > split
}

/// The objects from `start` to `end` are sorted by their centroids and
/// parted in the middle.
pub open spec fn is_median_split_spec<S: Scalar>(
    objects: Seq<HittableRef<S>>,
    start: int,
    mid: int,
    end: int,
    axis: int,
) -> bool {
    sorted_by_place(objects, start, end, axis) && mid == start + (end - start) / 2
}

/// The objects from `start` to `end` are parted at `mid` between two of the
/// twelve buckets of their centroids.
pub open spec fn is_bucket_split_spec<S: Scalar>(
    objects: Seq<HittableRef<S>>,
    start: int,
    mid: int,
    end: int,
    axis: int,
    low: S,
    high: S,
) -> bool {
    exists|split: int|
        0 <= split < NUM_BUCKETS - 1 && #[trigger] is_parted_spec(
            objects,
            start,
            mid,
            end,
            axis,
            low,
            high,
            split,
        )
}

/// The numbers of objects in the twelve buckets.
pub open spec fn bucket_counts_spec<S: Scalar>(
    objects: Seq<HittableRef<S>>,
    axis: int,
    low: S,
    high: S,
) -> Seq<u64> {
    Seq::new(NUM_BUCKETS as nat, |b: int| bucket_count_spec(objects, axis, low, high, b) as u64)
}

/// The boxes around the objects in the twelve buckets.
pub open spec fn bucket_boxes_spec<S: Scalar>(
    objects: Seq<HittableRef<S>>,
    axis: int,
    low: S,
    high: S,
) -> Seq<Aabb<S>> {
    Seq::new(NUM_BUCKETS as nat, |b: int| bucket_box_spec(objects, axis, low, high, b))
}

/// The cheapest split between the buckets of the objects, with its cost.
pub open spec fn chosen_split_spec<S: Scalar>(
    objects: Seq<HittableRef<S>>,
    axis: int,
    low: S,
    high: S,
) -> (S, int) {
    best_split_spec(
        bucket_counts_spec(objects, axis, low, high),
        bucket_boxes_spec(objects, axis, low, high),
        NUM_BUCKETS - 1,
    )
}

/// Parts three or more objects for the two children of a node, and returns
/// where the second part begins.
///
/// The objects are parted on the longest axis of their box `bbox`. Where
/// their centroids on that axis lie too close together, they are sorted by
/// centroid and parted in the middle. Else they are sorted into twelve
/// buckets and parted at the cheapest split by the surface area heuristic;
/// where no split has a finite cost, or all objects fall on one side of the
/// cheapest, they are sorted and parted in the middle after all.
pub fn split_range<S: Scalar>(
    objects: &mut Vec<HittableRef<S>>,
    start: usize,
    end: usize,
    bbox: &Aabb<S>,
) -> (mid: usize)
    requires
        start + 3 <= end <= old(objects)@.len(),
    ensures
        start < mid < end,
        permuted_within(old(objects)@, final(objects)@, start as int, end as int),
        ({
            let axis = bbox.longest_axis_spec();
            let before = old(objects)@.subrange(start as int, end as int);
            let low = centroid_low_spec(before, axis);
            let high = centroid_high_spec(before, axis);
            &&& is_median_split_spec(final(objects)@, start as int, mid as int, end as int, axis)
                || is_bucket_split_spec(
                final(objects)@,
                start as int,
                mid as int,
                end as int,
                axis,
                low,
                high,
            )
            &&& is_degenerate_spec(low, high) || !chosen_split_spec(
                before,
                axis,
                low,
                high,
            ).0.is_finite_spec() ==> is_median_split_spec(
                final(objects)@,
                start as int,
                mid as int,
                end as int,
                axis,
            )
            &&& !is_median_split_spec(final(objects)@, start as int, mid as int, end as int, axis)
                ==> is_parted_spec(
                final(objects)@,
                start as int,
                mid as int,
                end as int,
                axis,
                low,
                high,
                chosen_split_spec(before, axis, low, high).1,
            )
        }),
{
    let axis = bbox.longest_axis();
    let bounds = centroid_bounds(objects, start, end, axis);
    let low = bounds.0;
    let high = bounds.1;
    let half = start + (end - start) / 2;
    if high.minus(low).abs().lt(S::from_ratio(1, 1_000_000_000_000)) {
        sort_by_centroid(objects, start, end, axis);
        return half;
    }
    let buckets = fill_buckets(objects, start, end, axis, low, high);
    proof {
        let before = objects@.subrange(start as int, end as int);
        assert forall|b: int| 0 <= b < NUM_BUCKETS implies buckets.0@[b] == bucket_counts_spec(
            before,
            axis as int,
            low,
            high,
        )[b] by {
            lemma_bucket_count_bound(before, axis as int, low, high, b);
        }
        assert(buckets.0@ =~= bucket_counts_spec(before, axis as int, low, high));
        assert(buckets.1@ =~= bucket_boxes_spec(before, axis as int, low, high));
    }
    let best = best_split(&buckets.0, &buckets.1);
    if !best.0.is_finite() {
        sort_by_centroid(objects, start, end, axis);
        return half;
    }
    let ghost entry = objects@;
    let mid = partition(objects, start, end, axis, low, high, best.1);
    if mid == start || mid == end {
        let ghost parted = objects@;
        sort_by_centroid(objects, start, end, axis);
        proof {
            lemma_permuted_transitive(entry, parted, objects@, start as int, end as int);
        }
        return half;
    }
    assert(is_parted_spec(
        objects@,
        start as int,
        mid as int,
        end as int,
        axis as int,
        low,
        high,
        best.1 as int,
    ));
    mid
}

/// A primitive lies beneath a number of objects exactly where it lies
/// beneath one of them.
pub proof fn lemma_flatten_members<S: Scalar>(objects: Seq<HittableRef<S>>, x: HittableRef<S>)
    ensures
        flatten_spec(objects).contains(x) <==> exists|k: int|
            0 <= k < objects.len() && (#[trigger] beneath_spec(objects[k])).contains(x),
    decreases objects.len(),
{
    if objects.len() > 0 {
        let rest = objects.drop_last();
        let tail = beneath_spec(objects.last());
        lemma_flatten_members(rest, x);
        let all = flatten_spec(objects);
        if all.contains(x) {
            let i = choose|i: int| 0 <= i < all.len() && all[i] == x;
            if i < flatten_spec(rest).len() {
                assert(flatten_spec(rest)[i] == x);
                assert(flatten_spec(rest).contains(x));
                let k = choose|k: int|
                    0 <= k < rest.len() && (#[trigger] beneath_spec(rest[k])).contains(x);
                assert(beneath_spec(objects[k]).contains(x));
            } else {
                assert(tail[i - flatten_spec(rest).len()] == x);
                assert(beneath_spec(objects[objects.len() - 1]).contains(x));
            }
        }
        if exists|k: int| 0 <= k < objects.len() && (#[trigger] beneath_spec(objects[k])).contains(x) {
            let k = choose|k: int|
                0 <= k < objects.len() && (#[trigger] beneath_spec(objects[k])).contains(x);
            if k < rest.len() {
                assert(beneath_spec(rest[k]).contains(x));
                assert(flatten_spec(rest).contains(x));
                let i = choose|i: int| 0 <= i < flatten_spec(rest).len() && flatten_spec(rest)[i] == x;
                assert(all[i] == x);
            } else {
                let i = choose|i: int| 0 <= i < tail.len() && tail[i] == x;
                assert(all[flatten_spec(rest).len() + i] == x);
            }
        }
    }
}

/// The same primitives lie beneath a range of objects and beneath a
/// permutation of it.
pub proof fn lemma_flatten_permuted<S: Scalar>(
    a: Seq<HittableRef<S>>,
    b: Seq<HittableRef<S>>,
    start: int,
    end: int,
    x: HittableRef<S>,
)
    requires
        permuted_within(a, b, start, end),
    ensures
        flatten_spec(a.subrange(start, end)).contains(x) <==> flatten_spec(
            b.subrange(start, end),
        ).contains(x),
{
    let sa = a.subrange(start, end);
    let sb = b.subrange(start, end);
    lemma_flatten_members(sa, x);
    lemma_flatten_members(sb, x);
    if flatten_spec(sa).contains(x) {
        let k = choose|k: int| 0 <= k < sa.len() && (#[trigger] beneath_spec(sa[k])).contains(x);
        lemma_permuted_member(b, a, start, end, start + k);
        let i = choose|i: int| start <= i < end && b[i] == a[start + k];
        assert(sb[i - start] == sa[k]);
        assert(beneath_spec(sb[i - start]).contains(x));
    }
    if flatten_spec(sb).contains(x) {
        let k = choose|k: int| 0 <= k < sb.len() && (#[trigger] beneath_spec(sb[k])).contains(x);
        lemma_permuted_member(a, b, start, end, start + k);
        let i = choose|i: int| start <= i < end && a[i] == b[start + k];
        assert(sa[i - start] == sb[k]);
        assert(beneath_spec(sa[i - start]).contains(x));
    }
}

/// A primitive lies beneath a range of objects exactly where it lies
/// beneath one of two parts of the range.
pub proof fn lemma_flatten_parts<S: Scalar>(
    s: Seq<HittableRef<S>>,
    start: int,
    mid: int,
    end: int,
    x: HittableRef<S>,
)
    requires
        0 <= start <= mid <= end <= s.len(),
    ensures
        flatten_spec(s.subrange(start, end)).contains(x) <==> (flatten_spec(
            s.subrange(start, mid),
        ).contains(x) || flatten_spec(s.subrange(mid, end)).contains(x)),
{
    let whole = s.subrange(start, end);
    let first = s.subrange(start, mid);
    let second = s.subrange(mid, end);
    lemma_flatten_members(whole, x);
    lemma_flatten_members(first, x);
    lemma_flatten_members(second, x);
    if flatten_spec(whole).contains(x) {
        let k = choose|k: int|
            0 <= k < whole.len() && (#[trigger] beneath_spec(whole[k])).contains(x);
        if start + k < mid {
            assert(first[k] == whole[k]);
            assert(beneath_spec(first[k]).contains(x));
        } else {
            assert(second[start + k - mid] == whole[k]);
            assert(beneath_spec(second[start + k - mid]).contains(x));
        }
    }
    if flatten_spec(first).contains(x) {
        let k = choose|k: int|
            0 <= k < first.len() && (#[trigger] beneath_spec(first[k])).contains(x);
        assert(whole[k] == first[k]);
        assert(beneath_spec(whole[k]).contains(x));
    }
    if flatten_spec(second).contains(x) {
        let k = choose|k: int|
            0 <= k < second.len() && (#[trigger] beneath_spec(second[k])).contains(x);
        assert(whole[mid - start + k] == second[k]);
        assert(beneath_spec(whole[mid - start + k]).contains(x));
    }
}

/// The box is the box around the objects, joined in some order.
pub open spec fn is_box_around<S: Scalar>(bbox: Aabb<S>, objects: Seq<HittableRef<S>>) -> bool {
    exists|order: Seq<HittableRef<S>>|
        order.to_multiset() == objects.to_multiset() && bbox == #[trigger] span_box_spec(order)
}

/// The boxes beneath the object hold: the object is no node of a hierarchy,
/// or it is a well-formed one.
pub open spec fn boxes_hold<S: Scalar>(o: HittableRef<S>) -> bool
    decreases o, 0nat,
{
    match *o {
        HittableObject::Bvh(node) => node.is_well_formed(),
        _ => true,
    }
}

/// The box of an object whose boxes hold encloses the box of every
/// primitive beneath it.
pub proof fn lemma_box_encloses_beneath<S: Scalar>(o: HittableRef<S>, x: HittableRef<S>)
    requires
        boxes_hold(o),
        beneath_spec(o).contains(x),
    ensures
        o.bounding_box_spec().encloses(x.bounding_box_spec()),
{
    match *o {
        HittableObject::Bvh(node) => {
            let i = choose|i: int| 0 <= i < node.leaves_spec().len() && node.leaves_spec()[i] == x;
            assert(node.bbox.encloses(node.leaves_spec()[i].bounding_box_spec()));
        },
        _ => {
            assert(seq![o][0] == o);
        },
    }
}

impl<S: Scalar> BvhNode<S> {
    /// The primitives beneath the node: those beneath its left child, then
    /// those beneath its right child.
    pub open spec fn leaves_spec(&self) -> Seq<HittableRef<S>>
        decreases self, 1nat,
    {
        beneath_spec(self.left) + beneath_spec(self.right)
    }

    /// The primitives beneath the node are those beneath the objects.
    pub open spec fn covers(&self, objects: Seq<HittableRef<S>>) -> bool {
        forall|x: HittableRef<S>|
            #![trigger self.leaves_spec().contains(x)]
            #![trigger flatten_spec(objects).contains(x)]
            self.leaves_spec().contains(x) <==> flatten_spec(objects).contains(x)
    }

    /// The box of the node, and of every node beneath it, encloses the box of
    /// each primitive beneath that node.
    pub open spec fn is_well_formed(&self) -> bool
        decreases self, 2nat,
    {
        &&& forall|k: int|
            0 <= k < self.leaves_spec().len() ==> self.bbox.encloses(
                (#[trigger] self.leaves_spec()[k]).bounding_box_spec(),
            )
        &&& boxes_hold(self.left)
        &&& boxes_hold(self.right)
    }

    /// The children of the node are nodes over the two parts of a range of
    /// objects: the left child over the objects from `start` to `mid`, the
    /// right child over those from `mid` to `end`, each with the box around
    /// its part.
    pub open spec fn is_parted_over(
        &self,
        objects: Seq<HittableRef<S>>,
        start: int,
        mid: int,
        end: int,
    ) -> bool {
        &&& start < mid < end
        &&& *self.left matches HittableObject::Bvh(l) && l.covers(objects.subrange(start, mid))
            && is_box_around(l.bbox, objects.subrange(start, mid))
        &&& *self.right matches HittableObject::Bvh(r) && r.covers(objects.subrange(mid, end))
            && is_box_around(r.bbox, objects.subrange(mid, end))
    }

    /// The node is a hierarchy over the objects, as `build` makes it:
    /// vacant without objects; one object is both children; of two objects the
    /// first is the left child and the second the right; three or more objects
    /// are brought into some order and parted between the children.
    pub open spec fn is_built_over(&self, objects: Seq<HittableRef<S>>) -> bool {
        &&& self.bbox == span_box_spec(objects)
        &&& objects.len() == 0 ==> self.is_vacant()
        &&& objects.len() >= 1 ==> self.covers(objects)
        &&& objects.len() == 1 ==> self.left == objects[0] && self.right == objects[0]
        &&& objects.len() == 2 ==> self.left == objects[0] && self.right == objects[1]
        &&& objects.len() >= 3 ==> exists|order: Seq<HittableRef<S>>, mid: int|
            order.to_multiset() == objects.to_multiset() && #[trigger] self.is_parted_over(
                order,
                0,
                mid,
                order.len() as int,
            )
    }

    /// Both children of the node are the list without objects.
    pub open spec fn is_vacant(&self) -> bool {
        &&& *self.left matches HittableObject::List(l) && l.objects@.len() == 0
        &&& *self.right matches HittableObject::List(l) && l.objects@.len() == 0
    }

    /// The hierarchy over the objects of a list.
    pub fn new(list: HittableList<S>) -> (node: Self)
        ensures
            node.is_built_over(list.objects@),
            node.bbox == span_box_spec(list.objects@),
            list.objects@.len() >= 1 ==> node.covers(list.objects@),
            list.objects@.len() == 0 ==> node.is_vacant(),
            (forall|i: int| 0 <= i < list.objects@.len() ==> boxes_hold(#[trigger] list.objects@[i]))
                ==> node.is_well_formed(),
    {
        let mut objects = list.objects;
        let n = objects.len();
        let ghost entry = objects@;
        proof {
            assert(entry.subrange(0, n as int) =~= entry);
        }
        let node = Self::build(&mut objects, 0, n);
        proof {
            assert(objects@.subrange(0, n as int) =~= objects@);
            if n >= 3 {
                let mid = choose|mid: int| #[trigger]
                    node.is_parted_over(objects@, 0, mid, n as int);
                assert(objects@.to_multiset() == entry.to_multiset() && node.is_parted_over(
                    objects@,
                    0,
                    mid,
                    objects@.len() as int,
                ));
            }
        }
        node
    }

    /// Builds the hierarchy over the objects between `start` and `end`, and
    /// permutes them there.
    ///
    /// The box of the node is the box around the objects. Without objects
    /// both children are empty lists; one object is both children; of two
    /// objects the first is the left child and the second the right. Three or
    /// more objects are parted by `split_range`, and each part is built into a
    /// child.
    pub fn build(objects: &mut Vec<HittableRef<S>>, start: usize, end: usize) -> (node: Self)
        requires
            start <= end <= old(objects)@.len(),
        ensures
            permuted_within(old(objects)@, final(objects)@, start as int, end as int),
            node.bbox == span_box_spec(old(objects)@.subrange(start as int, end as int)),
            end - start >= 1 ==> node.covers(old(objects)@.subrange(start as int, end as int)),
            end - start == 0 ==> node.is_vacant(),
            end - start == 1 ==> node.left == old(objects)@[start as int] && node.right == old(
                objects,
            )@[start as int],
            end - start == 2 ==> node.left == old(objects)@[start as int] && node.right == old(
                objects,
            )@[start + 1],
            end - start >= 3 ==> exists|mid: int| #[trigger]
                node.is_parted_over(final(objects)@, start as int, mid, end as int),
            (forall|i: int| start <= i < end ==> boxes_hold(#[trigger] old(objects)@[i]))
                ==> node.is_well_formed(),
        decreases end - start,
    {
        let ghost entry = objects@;
        let ghost range = entry.subrange(start as int, end as int);
        let bbox = span_box(objects, start, end);
        let span = end - start;
        proof {
            lemma_permuted_reflexive(entry, start as int, end as int);
        }
        let left: HittableRef<S>;
        let right: HittableRef<S>;
        if span == 0 {
            left = make_ref(HittableObject::List(HittableList::new()));
            right = make_ref(HittableObject::List(HittableList::new()));
        } else if span == 1 {
            left = share(&objects[start]);
            right = share(&objects[start]);
        } else if span == 2 {
            left = share(&objects[start]);
            right = share(&objects[start + 1]);
        } else {
            let mid = split_range(objects, start, end, &bbox);
            let ghost parted = objects@;
            let l = Self::build(objects, start, mid);
            let ghost halfway = objects@;
            let r = Self::build(objects, mid, end);
            proof {
                lemma_permuted_widens(
                    parted,
                    halfway,
                    start as int,
                    mid as int,
                    start as int,
                    end as int,
                );
                lemma_permuted_widens(
                    halfway,
                    objects@,
                    mid as int,
                    end as int,
                    start as int,
                    end as int,
                );
                lemma_permuted_transitive(entry, parted, halfway, start as int, end as int);
                lemma_permuted_transitive(entry, halfway, objects@, start as int, end as int);
                assert(halfway.subrange(mid as int, end as int) =~= halfway.subrange(
                    mid as int,
                    halfway.len() as int,
                ).subrange(0, end - mid));
                assert(parted.subrange(mid as int, end as int) =~= parted.subrange(
                    mid as int,
                    parted.len() as int,
                ).subrange(0, end - mid));
                assert(halfway.subrange(mid as int, end as int) == parted.subrange(
                    mid as int,
                    end as int,
                ));
                assert forall|x: HittableRef<S>|
                    (l.leaves_spec() + r.leaves_spec()).contains(x) <==> flatten_spec(
                        range,
                    ).contains(x) by {
                    lemma_flatten_permuted(entry, parted, start as int, end as int, x);
                    lemma_flatten_parts(parted, start as int, mid as int, end as int, x);
                    let both = l.leaves_spec() + r.leaves_spec();
                    if both.contains(x) {
                        let i = choose|i: int| 0 <= i < both.len() && both[i] == x;
                        if i < l.leaves_spec().len() {
                            assert(l.leaves_spec()[i] == x);
                            assert(l.leaves_spec().contains(x));
                        } else {
                            assert(r.leaves_spec()[i - l.leaves_spec().len()] == x);
                            assert(r.leaves_spec().contains(x));
                        }
                    }
                    if l.leaves_spec().contains(x) {
                        let i = choose|i: int|
                            0 <= i < l.leaves_spec().len() && l.leaves_spec()[i] == x;
                        assert(both[i] == x);
                    }
                    if r.leaves_spec().contains(x) {
                        let i = choose|i: int|
                            0 <= i < r.leaves_spec().len() && r.leaves_spec()[i] == x;
                        assert(both[l.leaves_spec().len() + i] == x);
                    }
                }
                if forall|i: int| start <= i < end ==> boxes_hold(#[trigger] entry[i]) {
                    assert forall|i: int| start <= i < mid implies boxes_hold(
                        #[trigger] parted[i],
                    ) by {
                        lemma_permuted_member(entry, parted, start as int, end as int, i);
                    }
                    assert forall|i: int| mid <= i < end implies boxes_hold(
                        #[trigger] halfway[i],
                    ) by {
                        lemma_permuted_member(entry, halfway, start as int, end as int, i);
                    }
                }
            }
            proof {
                assert(objects@.subrange(start as int, mid as int) =~= objects@.subrange(
                    0,
                    mid as int,
                ).subrange(start as int, mid as int));
                assert(halfway.subrange(start as int, mid as int) =~= halfway.subrange(
                    0,
                    mid as int,
                ).subrange(start as int, mid as int));
                assert forall|x: HittableRef<S>|
                    #![trigger l.leaves_spec().contains(x)]
                    #![trigger flatten_spec(objects@.subrange(start as int, mid as int)).contains(x)]
                    l.leaves_spec().contains(x) <==> flatten_spec(
                        objects@.subrange(start as int, mid as int),
                    ).contains(x) by {
                    lemma_flatten_permuted(parted, halfway, start as int, mid as int, x);
                }
                assert forall|x: HittableRef<S>|
                    #![trigger r.leaves_spec().contains(x)]
                    #![trigger flatten_spec(objects@.subrange(mid as int, end as int)).contains(x)]
                    r.leaves_spec().contains(x) <==> flatten_spec(
                        objects@.subrange(mid as int, end as int),
                    ).contains(x) by {
                    lemma_flatten_permuted(halfway, objects@, mid as int, end as int, x);
                }
            }
            proof {
                assert(l.bbox == span_box_spec(parted.subrange(start as int, mid as int)));
                assert(is_box_around(l.bbox, objects@.subrange(start as int, mid as int)));
                assert(r.bbox == span_box_spec(halfway.subrange(mid as int, end as int)));
                assert(is_box_around(r.bbox, objects@.subrange(mid as int, end as int)));
            }
            left = make_ref(HittableObject::Bvh(l));
            right = make_ref(HittableObject::Bvh(r));
            proof {
                let node = BvhNode { left, right, bbox };
                assert(node.is_parted_over(objects@, start as int, mid as int, end as int));
            }
        }
        let node = BvhNode { left, right, bbox };
        proof {
            if span >= 1 {
                assert forall|x: HittableRef<S>|
                    node.leaves_spec().contains(x) <==> flatten_spec(range).contains(x) by {
                    lemma_flatten_members(range, x);
                    if span == 1 {
                        let both = beneath_spec(left) + beneath_spec(right);
                        assert(range[0] == left);
                        if both.contains(x) {
                            let i = choose|i: int| 0 <= i < both.len() && both[i] == x;
                            if i < beneath_spec(left).len() {
                                assert(beneath_spec(left)[i] == x);
                            } else {
                                assert(beneath_spec(left)[i - beneath_spec(left).len()] == x);
                            }
                            assert(beneath_spec(range[0]).contains(x));
                        }
                        if flatten_spec(range).contains(x) {
                            let i = choose|i: int|
                                0 <= i < beneath_spec(left).len() && beneath_spec(left)[i] == x;
                            assert(both[i] == x);
                        }
                    } else if span == 2 {
                        let both = beneath_spec(left) + beneath_spec(right);
                        assert(range[0] == left);
                        assert(range[1] == right);
                        if both.contains(x) {
                            let i = choose|i: int| 0 <= i < both.len() && both[i] == x;
                            if i < beneath_spec(left).len() {
                                assert(beneath_spec(left)[i] == x);
                                assert(beneath_spec(range[0]).contains(x));
                            } else {
                                assert(beneath_spec(right)[i - beneath_spec(left).len()] == x);
                                assert(beneath_spec(range[1]).contains(x));
                            }
                        }
                        if flatten_spec(range).contains(x) {
                            let k = choose|k: int|
                                0 <= k < range.len() && (#[trigger] beneath_spec(
                                    range[k],
                                )).contains(x);
                            if k == 0 {
                                let i = choose|i: int|
                                    0 <= i < beneath_spec(left).len() && beneath_spec(left)[i]
                                        == x;
                                assert(both[i] == x);
                            } else {
                                let i = choose|i: int|
                                    0 <= i < beneath_spec(right).len() && beneath_spec(right)[i]
                                        == x;
                                assert(both[beneath_spec(left).len() + i] == x);
                            }
                        }
                    }
                }
            }
            if forall|i: int| start <= i < end ==> boxes_hold(#[trigger] entry[i]) {
                assert forall|k: int| 0 <= k < node.leaves_spec().len() implies node.bbox.encloses(
                    (#[trigger] node.leaves_spec()[k]).bounding_box_spec(),
                ) by {
                    let x = node.leaves_spec()[k];
                    assert(node.leaves_spec().contains(x));
                    if span == 0 {
                        if k < beneath_spec(left).len() {
                            assert(x == left);
                        } else {
                            assert(x == right);
                        }
                    } else {
                        lemma_flatten_members(range, x);
                        let i = choose|i: int|
                            0 <= i < range.len() && (#[trigger] beneath_spec(range[i])).contains(x);
                        assert(range[i] == entry[start + i]);
                        lemma_box_encloses_beneath(range[i], x);
                        lemma_span_box_encloses(range, i);
                        lemma_encloses_transitive(
                            node.bbox,
                            range[i].bounding_box_spec(),
                            x.bounding_box_spec(),
                        );
                    }
                }
            }
        }
        node
    }

    /// Where the ray strikes a primitive beneath the node within the window:
    /// nowhere where it misses the box of the node; else the hit of the right
    /// child in the window cut at the hit of the left child, or failing that
    /// the hit of the left child.
    pub open spec fn hit_spec(&self, r: Ray<S>, ray_t: Interval<S>) -> Option<HitRecord<S>>
        decreases self, 0nat,
    {
        if !self.bbox.hit_spec(r, ray_t) {
            None
        } else {
            let hit_left = self.left.hit_spec(r, ray_t);
            match self.right.hit_spec(r, narrowed_spec(ray_t, hit_left)) {
                Some(rec) => Some(rec),
                None => hit_left,
            }
        }
    }

    /// The answer `res` is one that the node can give to the ray in the
    /// window: none where the ray misses the box of the node; else, for an
    /// answer of the left child and an answer of the right child in the window
    /// cut at it, the answer of the right child where it is a hit and else that
    /// of the left.
    pub open spec fn can_answer(&self, r: Ray<S>, ray_t: Interval<S>, res: Option<HitRecord<S>>)
        -> bool
        decreases self, 0nat,
    {
        if !self.bbox.hit_spec(r, ray_t) {
            res is None
        } else {
            exists|hit_left: Option<HitRecord<S>>, hit_right: Option<HitRecord<S>>|
                self.left.can_answer(r, ray_t, hit_left) && self.right.can_answer(
                    r,
                    narrowed_spec(ray_t, hit_left),
                    hit_right,
                ) && res == #[trigger] later_spec(hit_left, hit_right)
        }
    }

    /// The closest hit of the ray with a primitive beneath the node.
    pub fn hit(&self, r: &Ray<S>, ray_t: Interval<S>, rng: &mut SmallRng) -> (res: Option<
        HitRecord<S>,
    >)
        ensures
            self.can_answer(*r, ray_t, res),
            self.left.is_deterministic() && self.right.is_deterministic() ==> res == self.hit_spec(
                *r,
                ray_t,
            ),
            res matches Some(h) ==> ray_t.contains_spec(h.t),
        decreases self,
    {
        if !self.bbox.hit(r, ray_t) {
            return None;
        }
        let hit_left = self.left.hit(r, ray_t, rng);
        let ghost seen_left = hit_left;
        let window = match &hit_left {
            Some(rec) => Interval::new(ray_t.min, rec.t),
            None => ray_t,
        };
        let hit_right = self.right.hit(r, window, rng);
        let ghost seen_right = hit_right;
        let res = match hit_right {
            Some(rec) => Some(rec),
            None => hit_left,
        };
        assert(self.left.can_answer(*r, ray_t, seen_left) && self.right.can_answer(
            *r,
            narrowed_spec(ray_t, seen_left),
            seen_right,
        ) && res == later_spec(seen_left, seen_right));
        res
    }

    pub fn bounding_box(&self) -> (r: Aabb<S>)
        ensures
            r == self.bbox,
    {
        self.bbox
    }
}

} // verus!
