//! What holds of the closest hit: it lies in the window, and a hierarchy finds
//! the same as a list.

use vstd::prelude::*;
use crate::scalar::Scalar;
use crate::aabb::{Aabb, slab_spec};
use crate::bvh::{BvhNode, beneath_spec, flatten_spec, lemma_flatten_members};
use crate::hittable::{HitRecord, HittableObject, HittableRef};
use crate::hittable_list::{HittableList, later_spec, narrowed_spec};
use crate::interval::Interval;
use crate::ray::Ray;
use crate::sphere::{forward_window_spec, shadow_bias_spec};

verus! {

/// The window from `lo` to `hi`.
pub open spec fn window<S: Scalar>(lo: S, hi: S) -> Interval<S> {
    Interval { min: lo, max: hi }
}

/// A hit of a list among its first `n` objects lies in the window.
pub proof fn lemma_list_hit_in_window<S: Scalar>(
    list: &HittableList<S>,
    r: Ray<S>,
    ray_t: Interval<S>,
    n: nat,
)
    requires
        list.is_deterministic(),
    ensures
        list.hit_upto_spec(r, ray_t, n) matches Some(h) ==> ray_t.contains_spec(h.t),
    decreases list, n,
{
    if n == 0 || n > list.objects.len() {
    } else {
        let prev = list.hit_upto_spec(r, ray_t, (n - 1) as nat);
        lemma_list_hit_in_window(list, r, ray_t, (n - 1) as nat);
        lemma_hit_in_window(&*list.objects[n - 1], r, narrowed_spec(ray_t, prev));
    }
}

/// No object that answers by the ray and the window alone reports a hit
/// whose parameter lies outside the window that was asked for.
pub proof fn lemma_hit_in_window<S: Scalar>(o: &HittableObject<S>, r: Ray<S>, ray_t: Interval<S>)
    requires
        o.is_deterministic(),
    ensures
        o.hit_spec(r, ray_t) matches Some(h) ==> ray_t.contains_spec(h.t),
    decreases o, 0nat,
{
    match o {
        HittableObject::Sphere(s) => {},
        HittableObject::Quad(q) => {},
        HittableObject::ConstantMedium(_) => {},
        HittableObject::Translate(t) => {
            lemma_hit_in_window(&*t.object, t.inner_ray_spec(r), ray_t);
        },
        HittableObject::RotateY(t) => {
            lemma_hit_in_window(&*t.object, t.inner_ray_spec(r), ray_t);
        },
        HittableObject::Bvh(node) => {
            let hit_left = node.left.hit_spec(r, ray_t);
            lemma_hit_in_window(&*node.left, r, ray_t);
            lemma_hit_in_window(&*node.right, r, narrowed_spec(ray_t, hit_left));
        },
        HittableObject::List(list) => {
            lemma_list_hit_in_window(list, r, ray_t, list.objects.len() as nat);
        },
    }
}

/// An answer that a list can have reached after its first `n` objects
/// lies in the window.
pub proof fn lemma_list_answer_in_window<S: Scalar>(
    list: &HittableList<S>,
    r: Ray<S>,
    ray_t: Interval<S>,
    n: nat,
    res: Option<HitRecord<S>>,
)
    requires
        list.can_answer_upto(r, ray_t, n, res),
    ensures
        res matches Some(h) ==> ray_t.contains_spec(h.t),
    decreases list, n,
{
    if n == 0 || n > list.objects.len() {
    } else {
        let (prev, cur) = choose|prev: Option<HitRecord<S>>, cur: Option<HitRecord<S>>|
            list.can_answer_upto(r, ray_t, (n - 1) as nat, prev) && list.objects[n - 1].can_answer(
                r,
                narrowed_spec(ray_t, prev),
                cur,
            ) && res == #[trigger] later_spec(prev, cur);
        lemma_list_answer_in_window(list, r, ray_t, (n - 1) as nat, prev);
        lemma_answer_in_window(&*list.objects[n - 1], r, narrowed_spec(ray_t, prev), cur);
    }
}

/// No object, of whatever kind, gives an answer whose parameter lies
/// outside the window that was asked for.
pub proof fn lemma_answer_in_window<S: Scalar>(
    o: &HittableObject<S>,
    r: Ray<S>,
    ray_t: Interval<S>,
    res: Option<HitRecord<S>>,
)
    requires
        o.can_answer(r, ray_t, res),
    ensures
        res matches Some(h) ==> ray_t.contains_spec(h.t),
    decreases o, 0nat,
{
    match o {
        HittableObject::Sphere(s) => {},
        HittableObject::Quad(q) => {},
        HittableObject::ConstantMedium(m) => {
            assert(m.can_answer(r, ray_t, res));
            let (first, second, bits) = choose|
                first: Option<HitRecord<S>>,
                second: Option<HitRecord<S>>,
                bits: u64,
            |
                m.boundary.can_answer(r, Interval::<S>::universe_spec(), first) && (first matches Some(
                    rec1,
                ) ==> m.boundary.can_answer(
                    r,
                    crate::constant_medium::ConstantMedium::<S>::exit_window_spec(rec1.t),
                    second,
                )) && res == #[trigger] m.answer_spec(r, ray_t, first, second, bits);
        },
        HittableObject::Translate(t) => {
            assert(t.can_answer(r, ray_t, res));
            let inner = choose|inner: Option<HitRecord<S>>|
                t.object.can_answer(t.inner_ray_spec(r), ray_t, inner) && res
                    == #[trigger] t.outer_answer_spec(inner);
            lemma_answer_in_window(&*t.object, t.inner_ray_spec(r), ray_t, inner);
        },
        HittableObject::RotateY(t) => {
            assert(t.can_answer(r, ray_t, res));
            let inner = choose|inner: Option<HitRecord<S>>|
                t.object.can_answer(t.inner_ray_spec(r), ray_t, inner) && res
                    == #[trigger] t.outer_answer_spec(inner);
            lemma_answer_in_window(&*t.object, t.inner_ray_spec(r), ray_t, inner);
        },
        HittableObject::Bvh(node) => {
            assert(node.can_answer(r, ray_t, res));
            if node.bbox.hit_spec(r, ray_t) {
                let (hit_left, hit_right) = choose|
                    hit_left: Option<HitRecord<S>>,
                    hit_right: Option<HitRecord<S>>,
                |
                    node.left.can_answer(r, ray_t, hit_left) && node.right.can_answer(
                        r,
                        narrowed_spec(ray_t, hit_left),
                        hit_right,
                    ) && res == #[trigger] later_spec(hit_left, hit_right);
                lemma_answer_in_window(&*node.left, r, ray_t, hit_left);
                lemma_answer_in_window(&*node.right, r, narrowed_spec(ray_t, hit_left), hit_right);
            }
        },
        HittableObject::List(list) => {
            assert(list.can_answer(r, ray_t, res));
            lemma_list_answer_in_window(list, r, ray_t, list.objects.len() as nat, res);
        },
    }
}

/// After its first `n` objects, a list without a volume can have reached
/// one answer only.
pub proof fn lemma_list_answer_is_one<S: Scalar>(
    list: &HittableList<S>,
    r: Ray<S>,
    ray_t: Interval<S>,
    n: nat,
    res: Option<HitRecord<S>>,
)
    requires
        list.is_deterministic(),
        list.can_answer_upto(r, ray_t, n, res),
    ensures
        res == list.hit_upto_spec(r, ray_t, n),
    decreases list, n,
{
    if n == 0 || n > list.objects.len() {
    } else {
        let (prev, cur) = choose|prev: Option<HitRecord<S>>, cur: Option<HitRecord<S>>|
            list.can_answer_upto(r, ray_t, (n - 1) as nat, prev) && list.objects[n - 1].can_answer(
                r,
                narrowed_spec(ray_t, prev),
                cur,
            ) && res == #[trigger] later_spec(prev, cur);
        lemma_list_answer_is_one(list, r, ray_t, (n - 1) as nat, prev);
        lemma_answer_is_one(&*list.objects[n - 1], r, narrowed_spec(ray_t, prev), cur);
    }
}

/// An object without a volume can give one answer only: that of
/// `hit_spec`.
pub proof fn lemma_answer_is_one<S: Scalar>(
    o: &HittableObject<S>,
    r: Ray<S>,
    ray_t: Interval<S>,
    res: Option<HitRecord<S>>,
)
    requires
        o.is_deterministic(),
        o.can_answer(r, ray_t, res),
    ensures
        res == o.hit_spec(r, ray_t),
    decreases o, 0nat,
{
    match o {
        HittableObject::Sphere(s) => {},
        HittableObject::Quad(q) => {},
        HittableObject::ConstantMedium(m) => {},
        HittableObject::Translate(t) => {
            assert(t.can_answer(r, ray_t, res));
            let inner = choose|inner: Option<HitRecord<S>>|
                t.object.can_answer(t.inner_ray_spec(r), ray_t, inner) && res
                    == #[trigger] t.outer_answer_spec(inner);
            lemma_answer_is_one(&*t.object, t.inner_ray_spec(r), ray_t, inner);
        },
        HittableObject::RotateY(t) => {
            assert(t.can_answer(r, ray_t, res));
            let inner = choose|inner: Option<HitRecord<S>>|
                t.object.can_answer(t.inner_ray_spec(r), ray_t, inner) && res
                    == #[trigger] t.outer_answer_spec(inner);
            lemma_answer_is_one(&*t.object, t.inner_ray_spec(r), ray_t, inner);
        },
        HittableObject::Bvh(node) => {
            assert(node.can_answer(r, ray_t, res));
            if node.bbox.hit_spec(r, ray_t) {
                let (hit_left, hit_right) = choose|
                    hit_left: Option<HitRecord<S>>,
                    hit_right: Option<HitRecord<S>>,
                |
                    node.left.can_answer(r, ray_t, hit_left) && node.right.can_answer(
                        r,
                        narrowed_spec(ray_t, hit_left),
                        hit_right,
                    ) && res == #[trigger] later_spec(hit_left, hit_right);
                lemma_answer_is_one(&*node.left, r, ray_t, hit_left);
                lemma_answer_is_one(&*node.right, r, narrowed_spec(ray_t, hit_left), hit_right);
            }
        },
        HittableObject::List(list) => {
            assert(list.can_answer(r, ray_t, res));
            lemma_list_answer_is_one(list, r, ray_t, list.objects.len() as nat, res);
        },
    }
}

/// A ray that leaves a surface strikes nothing at its own origin: whatever
/// the scene answers to the integrator along a ray lies at the bias of one
/// thousandth or beyond it.
pub proof fn lemma_next_hit_is_off_the_surface<S: Scalar>(
    world: &HittableObject<S>,
    r: Ray<S>,
    res: Option<HitRecord<S>>,
)
    requires
        world.can_answer(r, forward_window_spec::<S>(), res),
    ensures
        res matches Some(h) ==> shadow_bias_spec::<S>().key() <= h.t.key(),
{
    lemma_answer_in_window(world, r, forward_window_spec::<S>(), res);
}

/// The place of a hit in the order of the parameters, if there is a hit.
pub open spec fn hit_key<S: Scalar>(res: Option<HitRecord<S>>) -> Option<int> {
    match res {
        Some(rec) => Some(rec.t.key() as int),
        None => None,
    }
}

/// The answer `res` is the earliest hit of the primitives in the window:
/// none where none of them is hit, else a hit at the parameter of one of
/// them, before which none of them is hit.
pub open spec fn is_earliest<S: Scalar>(
    prims: Seq<HittableRef<S>>,
    r: Ray<S>,
    ray_t: Interval<S>,
    res: Option<HitRecord<S>>,
) -> bool {
    match res {
        None => forall|x: HittableRef<S>| #[trigger]
            prims.contains(x) ==> x.hit_spec(r, ray_t) is None,
        Some(h) => {
            &&& exists|x: HittableRef<S>| #[trigger]
                prims.contains(x) && x.hit_spec(r, ray_t) == Some(h)
            &&& forall|x: HittableRef<S>| #[trigger]
                prims.contains(x) ==> (x.hit_spec(r, ray_t) matches Some(g) ==> h.t.key()
                    <= g.t.key())
        },
    }
}

/// The answers `a`, in a window, and `b`, in the same window cut at `cut`,
/// fit together: `b` is no hit where `a` is none, a hit at the parameter of
/// `a` where it is one, and it is one where the parameter of `a` lies before
/// the cut.
pub open spec fn fits_cut<S: Scalar>(a: Option<HitRecord<S>>, b: Option<HitRecord<S>>, cut: S)
    -> bool {
    match a {
        None => b is None,
        Some(ha) => {
            &&& b matches Some(hb) ==> hb == ha
            &&& ha.t.key() < cut.key() ==> b is Some
        },
    }
}

/// The object answers in the window from `lo` to `hi` and in the window
/// from `lo` to `cut` in a way that fits together.
pub open spec fn steady_at<S: Scalar>(o: &HittableObject<S>, r: Ray<S>, lo: S, hi: S, cut: S)
    -> bool {
    fits_cut(o.hit_spec(r, window(lo, hi)), o.hit_spec(r, window(lo, cut)), cut)
}

/// The object holds no volume, and for the ray `r`, turned and moved as the
/// objects around a hierarchy turn and move it, the box of every node of a
/// hierarchy in it lets a window pass in which a child of the node is hit.
///
/// That a box lets such a window pass is what the box is made for; it
/// rests on the arithmetic of the scalars, of which this crate assumes
/// nothing, and so it is asked for here.
pub open spec fn admits<S: Scalar>(o: &HittableObject<S>, r: Ray<S>) -> bool
    decreases o, 0nat,
{
    match o {
        HittableObject::Sphere(_) => true,
        HittableObject::Quad(_) => true,
        HittableObject::ConstantMedium(_) => false,
        HittableObject::Translate(t) => admits(&*t.object, t.inner_ray_spec(r)),
        HittableObject::RotateY(t) => admits(&*t.object, t.inner_ray_spec(r)),
        HittableObject::Bvh(node) => node_admits(node, r),
        HittableObject::List(list) => list_admits(list, r),
    }
}

/// `admits` for each object of a list.
pub open spec fn list_admits<S: Scalar>(list: &HittableList<S>, r: Ray<S>) -> bool
    decreases list, 1nat,
{
    forall|i: int| 0 <= i < list.objects.len() ==> admits(&*#[trigger] list.objects[i], r)
}

/// `admits` for both children of a node, and the box of the node lets
/// every window pass in which a child is hit.
pub open spec fn node_admits<S: Scalar>(node: &BvhNode<S>, r: Ray<S>) -> bool
    decreases node, 1nat,
{
    &&& admits(&*node.left, r)
    &&& admits(&*node.right, r)
    &&& forall|w: Interval<S>| #[trigger]
        node.bbox.hit_spec(r, w) || (node.left.hit_spec(r, w) is None && node.right.hit_spec(
            r,
            w,
        ) is None)
}

/// An object that `admits` a ray answers by the ray and the window alone.
pub proof fn lemma_admits_deterministic<S: Scalar>(o: &HittableObject<S>, r: Ray<S>)
    requires
        admits(o, r),
    ensures
        o.is_deterministic(),
    decreases o,
{
    match o {
        HittableObject::Translate(t) => {
            lemma_admits_deterministic(&*t.object, t.inner_ray_spec(r));
        },
        HittableObject::RotateY(t) => {
            lemma_admits_deterministic(&*t.object, t.inner_ray_spec(r));
        },
        HittableObject::Bvh(node) => {
            assert(node_admits(node, r));
            lemma_admits_deterministic(&*node.left, r);
            lemma_admits_deterministic(&*node.right, r);
        },
        HittableObject::List(list) => {
            assert(list_admits(list, r));
            assert forall|i: int| 0 <= i < list.objects.len() implies (
            #[trigger] list.objects[i]).is_deterministic() by {
                lemma_admits_deterministic(&*list.objects[i], r);
            }
        },
        _ => {},
    }
}

/// A window that is cut further is narrowed by each slab to a window that
/// ends no later.
pub proof fn lemma_slab_monotone<S: Scalar>(
    axis: Interval<S>,
    origin: S,
    dir: S,
    u: Interval<S>,
    v: Interval<S>,
)
    requires
        v.min == u.min,
        v.max.key() <= u.max.key(),
    ensures
        slab_spec(axis, origin, dir, v).min == slab_spec(axis, origin, dir, u).min,
        slab_spec(axis, origin, dir, v).max.key() <= slab_spec(axis, origin, dir, u).max.key(),
{
}

/// A ray that passes through a box within a window passes through it within
/// every window that ends later.
pub proof fn lemma_box_hit_monotone<S: Scalar>(bbox: Aabb<S>, r: Ray<S>, lo: S, hi: S, cut: S)
    requires
        cut.key() <= hi.key(),
        bbox.hit_spec(r, window(lo, cut)),
    ensures
        bbox.hit_spec(r, window(lo, hi)),
{
    let u = window(lo, hi);
    let v = window(lo, cut);
    lemma_slab_monotone(bbox.x, r.orig.e0, r.dir.e0, u, v);
    let u0 = slab_spec(bbox.x, r.orig.e0, r.dir.e0, u);
    let v0 = slab_spec(bbox.x, r.orig.e0, r.dir.e0, v);
    lemma_slab_monotone(bbox.y, r.orig.e1, r.dir.e1, u0, v0);
    let u1 = slab_spec(bbox.y, r.orig.e1, r.dir.e1, u0);
    let v1 = slab_spec(bbox.y, r.orig.e1, r.dir.e1, v0);
    lemma_slab_monotone(bbox.z, r.orig.e2, r.dir.e2, u1, v1);
}

/// Two searches through the same objects, one in a window and one in the
/// same window cut at `cut`, stand in step: they have reached the same answer,
/// or the search in the cut window has reached none and the other a hit at
/// the cut or beyond it.
pub open spec fn in_step<S: Scalar>(a: Option<HitRecord<S>>, b: Option<HitRecord<S>>, cut: S)
    -> bool {
    a == b || match a {
        Some(p) => b is None && p.t.key() >= cut.key(),
        None => false,
    }
}

/// Two searches that stand in step stay in step over the next object.
pub proof fn lemma_cut_step<S: Scalar>(
    next: &HittableObject<S>,
    r: Ray<S>,
    lo: S,
    hi: S,
    cut: S,
    a: Option<HitRecord<S>>,
    b: Option<HitRecord<S>>,
)
    requires
        admits(next, r),
        cut.key() <= hi.key(),
        in_step(a, b, cut),
    ensures
        in_step(
            later_spec(a, next.hit_spec(r, narrowed_spec(window(lo, hi), a))),
            later_spec(b, next.hit_spec(r, narrowed_spec(window(lo, cut), b))),
            cut,
        ),
    decreases next, 3nat,
{
    match a {
        None => {
            lemma_steady(next, r, lo, hi, cut);
        },
        Some(p) => {
            if b is None {
                assert(narrowed_spec(window(lo, hi), a) == window(lo, p.t));
                lemma_steady(next, r, lo, p.t, cut);
            } else {
                assert(narrowed_spec(window(lo, hi), a) == narrowed_spec(window(lo, cut), b));
            }
        },
    }
}

/// The searches of a list in a window and in the same window cut further
/// stand in step after every object.
pub proof fn lemma_list_in_step<S: Scalar>(
    list: &HittableList<S>,
    r: Ray<S>,
    lo: S,
    hi: S,
    cut: S,
    n: nat,
)
    requires
        list_admits(list, r),
        cut.key() <= hi.key(),
        n <= list.objects.len(),
    ensures
        in_step(
            list.hit_upto_spec(r, window(lo, hi), n),
            list.hit_upto_spec(r, window(lo, cut), n),
            cut,
        ),
    decreases list, n,
{
    if n > 0 {
        lemma_list_in_step(list, r, lo, hi, cut, (n - 1) as nat);
        lemma_cut_step(
            &*list.objects[n - 1],
            r,
            lo,
            hi,
            cut,
            list.hit_upto_spec(r, window(lo, hi), (n - 1) as nat),
            list.hit_upto_spec(r, window(lo, cut), (n - 1) as nat),
        );
    }
}

/// The earliest hit of a number of objects is the earliest hit of the
/// primitives beneath them, where the answer of each object is the earliest
/// hit of the primitives beneath it.
pub proof fn lemma_earliest_beneath<S: Scalar>(
    objects: Seq<HittableRef<S>>,
    prims: Seq<HittableRef<S>>,
    r: Ray<S>,
    ray_t: Interval<S>,
    res: Option<HitRecord<S>>,
)
    requires
        is_earliest(objects, r, ray_t, res),
        forall|o: HittableRef<S>| #[trigger]
            objects.contains(o) ==> is_earliest(beneath_spec(o), r, ray_t, o.hit_spec(r, ray_t)),
        forall|x: HittableRef<S>| #[trigger]
            prims.contains(x) <==> exists|o: HittableRef<S>| #[trigger]
                objects.contains(o) && beneath_spec(o).contains(x),
    ensures
        is_earliest(prims, r, ray_t, res),
{
    match res {
        None => {
            assert forall|x: HittableRef<S>| #[trigger] prims.contains(x) implies x.hit_spec(
                r,
                ray_t,
            ) is None by {
                let o = choose|o: HittableRef<S>| #[trigger]
                    objects.contains(o) && beneath_spec(o).contains(x);
                assert(is_earliest(beneath_spec(o), r, ray_t, o.hit_spec(r, ray_t)));
            }
        },
        Some(h) => {
            let o = choose|o: HittableRef<S>| #[trigger]
                objects.contains(o) && o.hit_spec(r, ray_t) == Some(h);
            assert(is_earliest(beneath_spec(o), r, ray_t, o.hit_spec(r, ray_t)));
            let x = choose|x: HittableRef<S>| #[trigger]
                beneath_spec(o).contains(x) && x.hit_spec(r, ray_t) == Some(h);
            assert(prims.contains(x));
            assert forall|y: HittableRef<S>| #[trigger] prims.contains(y) implies (y.hit_spec(
                r,
                ray_t,
            ) matches Some(g) ==> h.t.key() <= g.t.key()) by {
                let p = choose|p: HittableRef<S>| #[trigger]
                    objects.contains(p) && beneath_spec(p).contains(y);
                assert(is_earliest(beneath_spec(p), r, ray_t, p.hit_spec(r, ray_t)));
            }
        },
    }
}

/// Two answers that are each the earliest hit of the same primitives lie
/// at the same place in the order of the parameters.
pub proof fn lemma_earliest_unique<S: Scalar>(
    first: Seq<HittableRef<S>>,
    second: Seq<HittableRef<S>>,
    r: Ray<S>,
    ray_t: Interval<S>,
    a: Option<HitRecord<S>>,
    b: Option<HitRecord<S>>,
)
    requires
        is_earliest(first, r, ray_t, a),
        is_earliest(second, r, ray_t, b),
        forall|x: HittableRef<S>|
            #![trigger first.contains(x)]
            #![trigger second.contains(x)]
            first.contains(x) <==> second.contains(x),
    ensures
        hit_key(a) == hit_key(b),
{
    match a {
        None => {
            if b is Some {
                let x = choose|x: HittableRef<S>| #[trigger]
                    second.contains(x) && x.hit_spec(r, ray_t) == Some(b->0);
                assert(first.contains(x));
            }
        },
        Some(ha) => {
            let y = choose|y: HittableRef<S>| #[trigger]
                first.contains(y) && y.hit_spec(r, ray_t) == Some(ha);
            assert(second.contains(y));
            match b {
                None => {},
                Some(hb) => {
                    let x = choose|x: HittableRef<S>| #[trigger]
                        second.contains(x) && x.hit_spec(r, ray_t) == Some(hb);
                    assert(first.contains(x));
                },
            }
        },
    }
}

/// No two of the primitives are struck at the same place in the order of
/// the parameters, unless with the same record.
pub open spec fn hits_apart<S: Scalar>(prims: Seq<HittableRef<S>>, r: Ray<S>, ray_t: Interval<S>)
    -> bool {
    forall|x: HittableRef<S>, y: HittableRef<S>|
        #![trigger prims.contains(x), prims.contains(y)]
        prims.contains(x) && prims.contains(y) ==> match (
            x.hit_spec(r, ray_t),
            y.hit_spec(r, ray_t),
        ) {
            (Some(gx), Some(gy)) => gx.t.key() == gy.t.key() ==> gx == gy,
            _ => true,
        }
}

/// Two answers that are each the earliest hit of the same primitives are
/// the same record, where no two of the primitives are struck at the same
/// place with different records.
pub proof fn lemma_earliest_is_one<S: Scalar>(
    first: Seq<HittableRef<S>>,
    second: Seq<HittableRef<S>>,
    r: Ray<S>,
    ray_t: Interval<S>,
    a: Option<HitRecord<S>>,
    b: Option<HitRecord<S>>,
)
    requires
        is_earliest(first, r, ray_t, a),
        is_earliest(second, r, ray_t, b),
        forall|x: HittableRef<S>|
            #![trigger first.contains(x)]
            #![trigger second.contains(x)]
            first.contains(x) <==> second.contains(x),
        hits_apart(first, r, ray_t),
    ensures
        a == b,
{
    lemma_earliest_unique(first, second, r, ray_t, a, b);
    match (a, b) {
        (Some(ha), Some(hb)) => {
            let y = choose|y: HittableRef<S>| #[trigger]
                first.contains(y) && y.hit_spec(r, ray_t) == Some(ha);
            let x = choose|x: HittableRef<S>| #[trigger]
                second.contains(x) && x.hit_spec(r, ray_t) == Some(hb);
            assert(first.contains(x) && first.contains(y));
        },
        _ => {},
    }
}

/// One step of a closest-hit search. Where `prev` is the earliest hit of
/// the primitives tried so far, and the next primitive is tried in the window
/// cut at `prev`, its hit, or failing that `prev`, is the earliest hit of all
/// that were tried.
pub proof fn lemma_search_step<S: Scalar>(
    tried: Seq<HittableRef<S>>,
    next: HittableRef<S>,
    r: Ray<S>,
    ray_t: Interval<S>,
    prev: Option<HitRecord<S>>,
)
    requires
        is_earliest(tried, r, ray_t, prev),
        next.is_deterministic(),
        prev matches Some(p) ==> steady_at(&*next, r, ray_t.min, ray_t.max, p.t),
    ensures
        is_earliest(
            tried.push(next),
            r,
            ray_t,
            match next.hit_spec(r, narrowed_spec(ray_t, prev)) {
                Some(rec) => Some(rec),
                None => prev,
            },
        ),
{
    let all = tried.push(next);
    let cur = next.hit_spec(r, narrowed_spec(ray_t, prev));
    let res = match cur {
        Some(rec) => Some(rec),
        None => prev,
    };
    lemma_hit_in_window(&*next, r, narrowed_spec(ray_t, prev));
    assert(all[tried.len() as int] == next);
    assert(all.contains(next));
    assert forall|x: HittableRef<S>| #[trigger] all.contains(x) implies tried.contains(x) || x
        == next by {
        let i = choose|i: int| 0 <= i < all.len() && all[i] == x;
        if i < tried.len() {
            assert(tried[i] == x);
        }
    }
    assert forall|x: HittableRef<S>| #[trigger] tried.contains(x) implies all.contains(x) by {
        let i = choose|i: int| 0 <= i < tried.len() && tried[i] == x;
        assert(all[i] == x);
    }
    assert(window(ray_t.min, ray_t.max) == ray_t);
    match prev {
        None => {
            assert(narrowed_spec(ray_t, prev) == ray_t);
        },
        Some(p) => {
            assert(narrowed_spec(ray_t, prev) == window(ray_t.min, p.t));
            assert(steady_at(&*next, r, ray_t.min, ray_t.max, p.t));
            match cur {
                Some(c) => {},
                None => {
                    let x = choose|x: HittableRef<S>| #[trigger]
                        tried.contains(x) && x.hit_spec(r, ray_t) == Some(p);
                    assert(all.contains(x));
                },
            }
        },
    }
}

/// The answer of a list among its first `n` objects is the earliest hit of
/// those objects.
pub proof fn lemma_list_earliest<S: Scalar>(
    list: &HittableList<S>,
    r: Ray<S>,
    ray_t: Interval<S>,
    n: nat,
)
    requires
        list_admits(list, r),
        n <= list.objects.len(),
    ensures
        is_earliest(list.objects@.take(n as int), r, ray_t, list.hit_upto_spec(r, ray_t, n)),
    decreases list, n,
{
    if n == 0 {
        assert forall|x: HittableRef<S>| #[trigger]
            list.objects@.take(0).contains(x) implies x.hit_spec(r, ray_t) is None by {
            let i = choose|i: int| 0 <= i < list.objects@.take(0).len() && list.objects@.take(0)[i]
                == x;
        }
    } else {
        let prev = list.hit_upto_spec(r, ray_t, (n - 1) as nat);
        let next = list.objects[n - 1];
        lemma_list_earliest(list, r, ray_t, (n - 1) as nat);
        assert forall|i: int| 0 <= i < list.objects.len() implies (
        #[trigger] list.objects[i]).is_deterministic() by {
            lemma_admits_deterministic(&*list.objects[i], r);
        }
        lemma_list_hit_in_window(list, r, ray_t, (n - 1) as nat);
        if let Some(p) = prev {
            lemma_steady(&*list.objects[n - 1], r, ray_t.min, ray_t.max, p.t);
        }
        lemma_search_step(list.objects@.take(n - 1), next, r, ray_t, prev);
        assert(list.objects@.take(n - 1).push(next) =~= list.objects@.take(n as int));
    }
}

/// The answer of a node of a hierarchy is the earliest hit of its two
/// children.
pub proof fn lemma_pair_earliest<S: Scalar>(node: &BvhNode<S>, r: Ray<S>, ray_t: Interval<S>)
    requires
        node_admits(node, r),
    ensures
        is_earliest(seq![node.left, node.right], r, ray_t, node.hit_spec(r, ray_t)),
    decreases node, 0nat,
{
    let pair = seq![node.left, node.right];
    lemma_admits_deterministic(&*node.left, r);
    lemma_admits_deterministic(&*node.right, r);
    assert forall|x: HittableRef<S>| #[trigger] pair.contains(x) implies x == node.left || x
        == node.right by {
        let i = choose|i: int| 0 <= i < pair.len() && pair[i] == x;
    }
    if !node.bbox.hit_spec(r, ray_t) {
    } else {
        let hit_left = node.left.hit_spec(r, ray_t);
        let one = seq![node.left];
        assert(one[0] == node.left);
        assert forall|x: HittableRef<S>| #[trigger] one.contains(x) implies x == node.left by {
            let i = choose|i: int| 0 <= i < one.len() && one[i] == x;
        }
        assert(one.contains(node.left));
        assert(is_earliest(one, r, ray_t, hit_left));
        lemma_hit_in_window(&*node.left, r, ray_t);
        if let Some(p) = hit_left {
            lemma_steady(&*node.right, r, ray_t.min, ray_t.max, p.t);
        }
        lemma_search_step(one, node.right, r, ray_t, hit_left);
        assert(one.push(node.right) =~= pair);
    }
}

/// An object that `admits` a ray answers in a window and in the same window
/// cut further in a way that fits together: the cut takes hits away, and
/// brings none that was not there.
pub proof fn lemma_steady<S: Scalar>(o: &HittableObject<S>, r: Ray<S>, lo: S, hi: S, cut: S)
    requires
        admits(o, r),
        cut.key() <= hi.key(),
    ensures
        steady_at(o, r, lo, hi, cut),
    decreases o, 2nat,
{
    match o {
        HittableObject::Sphere(s) => {},
        HittableObject::Quad(q) => {},
        HittableObject::ConstantMedium(_) => {},
        HittableObject::Translate(t) => {
            lemma_steady(&*t.object, t.inner_ray_spec(r), lo, hi, cut);
        },
        HittableObject::RotateY(t) => {
            lemma_steady(&*t.object, t.inner_ray_spec(r), lo, hi, cut);
        },
        HittableObject::Bvh(node) => {
            assert(node_admits(node, r));
            let whole = window(lo, hi);
            let part = window(lo, cut);
            let left_whole = node.left.hit_spec(r, whole);
            let left_part = node.left.hit_spec(r, part);
            lemma_steady(&*node.left, r, lo, hi, cut);
            assert(in_step(left_whole, left_part, cut));
            lemma_cut_step(&*node.right, r, lo, hi, cut, left_whole, left_part);
            if node.bbox.hit_spec(r, part) {
                lemma_box_hit_monotone(node.bbox, r, lo, hi, cut);
            } else if node.bbox.hit_spec(r, whole) {
                assert(left_part is None && node.right.hit_spec(r, part) is None);
                assert(narrowed_spec(part, left_part) == part);
            }
        },
        HittableObject::List(list) => {
            assert(list_admits(list, r));
            lemma_list_in_step(list, r, lo, hi, cut, list.objects.len() as nat);
        },
    }
}

/// The answer of a node of a hierarchy is the earliest hit of the
/// primitives beneath it.
pub proof fn lemma_node_earliest<S: Scalar>(node: &BvhNode<S>, r: Ray<S>, ray_t: Interval<S>)
    requires
        node_admits(node, r),
    ensures
        is_earliest(node.leaves_spec(), r, ray_t, node.hit_spec(r, ray_t)),
    decreases node, 1nat,
{
    let pair = seq![node.left, node.right];
    let leaves = node.leaves_spec();
    let first = beneath_spec(node.left);
    let second = beneath_spec(node.right);
    lemma_pair_earliest(node, r, ray_t);
    lemma_beneath_earliest(&node.left, r, ray_t);
    lemma_beneath_earliest(&node.right, r, ray_t);
    assert(pair[0] == node.left && pair[1] == node.right);
    assert(pair.contains(node.left) && pair.contains(node.right));
    assert forall|o: HittableRef<S>| #[trigger] pair.contains(o) implies is_earliest(
        beneath_spec(o),
        r,
        ray_t,
        o.hit_spec(r, ray_t),
    ) by {
        let i = choose|i: int| 0 <= i < pair.len() && pair[i] == o;
    }
    assert forall|x: HittableRef<S>| #[trigger] leaves.contains(x) <==> exists|o: HittableRef<S>|
     #[trigger]
        pair.contains(o) && beneath_spec(o).contains(x) by {
        if leaves.contains(x) {
            let i = choose|i: int| 0 <= i < leaves.len() && leaves[i] == x;
            if i < first.len() {
                assert(first[i] == x);
                assert(pair.contains(node.left) && first.contains(x));
            } else {
                assert(second[i - first.len()] == x);
                assert(pair.contains(node.right) && second.contains(x));
            }
        }
        if exists|o: HittableRef<S>| #[trigger] pair.contains(o) && beneath_spec(o).contains(x) {
            let o = choose|o: HittableRef<S>| #[trigger]
                pair.contains(o) && beneath_spec(o).contains(x);
            let k = choose|k: int| 0 <= k < pair.len() && pair[k] == o;
            let i = choose|i: int| 0 <= i < beneath_spec(o).len() && beneath_spec(o)[i] == x;
            if k == 0 {
                assert(leaves[i] == x);
            } else {
                assert(leaves[first.len() + i] == x);
            }
        }
    }
    lemma_earliest_beneath(pair, leaves, r, ray_t, node.hit_spec(r, ray_t));
}

/// The answer of an object is the earliest hit of the primitives beneath it.
pub proof fn lemma_beneath_earliest<S: Scalar>(o: &HittableRef<S>, r: Ray<S>, ray_t: Interval<S>)
    requires
        admits(&**o, r),
    ensures
        is_earliest(beneath_spec(*o), r, ray_t, o.hit_spec(r, ray_t)),
    decreases o, 0nat,
{
    match &**o {
        HittableObject::Bvh(node) => {
            assert(node_admits(node, r));
            lemma_node_earliest(node, r, ray_t);
        },
        _ => {
            let one = seq![*o];
            assert(one[0] == *o);
            assert(one.contains(*o));
            assert forall|x: HittableRef<S>| #[trigger] one.contains(x) implies x == *o by {
                let i = choose|i: int| 0 <= i < one.len() && one[i] == x;
            }
        },
    }
}

/// The answer of a list is the earliest hit of the primitives beneath its
/// objects.
pub proof fn lemma_list_flat_earliest<S: Scalar>(
    list: &HittableList<S>,
    r: Ray<S>,
    ray_t: Interval<S>,
)
    requires
        list_admits(list, r),
    ensures
        is_earliest(flatten_spec(list.objects@), r, ray_t, list.hit_spec(r, ray_t)),
{
    let objects = list.objects@;
    let prims = flatten_spec(objects);
    lemma_list_earliest(list, r, ray_t, objects.len());
    assert(objects.take(objects.len() as int) =~= objects);
    assert forall|o: HittableRef<S>| #[trigger] objects.contains(o) implies is_earliest(
        beneath_spec(o),
        r,
        ray_t,
        o.hit_spec(r, ray_t),
    ) by {
        let i = choose|i: int| 0 <= i < objects.len() && objects[i] == o;
        lemma_beneath_earliest(&list.objects[i], r, ray_t);
    }
    assert forall|x: HittableRef<S>| #[trigger] prims.contains(x) <==> exists|o: HittableRef<S>|
     #[trigger]
        objects.contains(o) && beneath_spec(o).contains(x) by {
        lemma_flatten_members(objects, x);
        if prims.contains(x) {
            let k = choose|k: int|
                0 <= k < objects.len() && (#[trigger] beneath_spec(objects[k])).contains(x);
            assert(objects.contains(objects[k]));
        }
        if exists|o: HittableRef<S>| #[trigger] objects.contains(o) && beneath_spec(o).contains(x) {
            let o = choose|o: HittableRef<S>| #[trigger]
                objects.contains(o) && beneath_spec(o).contains(x);
            let k = choose|k: int| 0 <= k < objects.len() && objects[k] == o;
            assert(beneath_spec(objects[k]).contains(x));
        }
    }
    lemma_earliest_beneath(objects, prims, r, ray_t, list.hit_spec(r, ray_t));
}

/// A hierarchy is an acceleration structure and changes no answer.
///
/// Where a hierarchy was built over the objects of a list, and both `admit`
/// the ray, the hierarchy and the list answer every window alike: both report
/// no hit, or both report a hit at the same place in the order of the
/// parameters. (Where two primitives are struck at parameters on one key,
/// the two may report different ones of them.)
pub proof fn lemma_hierarchy_matches_list<S: Scalar>(
    node: &BvhNode<S>,
    list: &HittableList<S>,
    r: Ray<S>,
    ray_t: Interval<S>,
)
    requires
        node.covers(list.objects@) || (list.objects@.len() == 0 && node.is_vacant()),
        node_admits(node, r),
        list_admits(list, r),
    ensures
        hit_key(node.hit_spec(r, ray_t)) == hit_key(list.hit_spec(r, ray_t)),
{
    if list.objects@.len() == 0 && node.is_vacant() {
        let hit_left = node.left.hit_spec(r, ray_t);
        if let HittableObject::List(l) = &*node.left {
            assert(l.hit_upto_spec(r, ray_t, 0) is None);
            assert(l.hit_spec(r, ray_t) is None);
        }
        assert(hit_left is None);
        if let HittableObject::List(l) = &*node.right {
            assert(l.hit_upto_spec(r, ray_t, 0) is None);
            assert(l.hit_spec(r, ray_t) is None);
        }
        assert(node.right.hit_spec(r, narrowed_spec(ray_t, hit_left)) is None);
    } else {
        lemma_node_earliest(node, r, ray_t);
        lemma_list_flat_earliest(list, r, ray_t);
        lemma_earliest_unique(
            node.leaves_spec(),
            flatten_spec(list.objects@),
            r,
            ray_t,
            node.hit_spec(r, ray_t),
            list.hit_spec(r, ray_t),
        );
    }
}

/// Where no two primitives of the scene are struck at the same place with
/// different records, the hierarchy and the list give the same record: the
/// same parameter, point, normal, face and material.
pub proof fn lemma_hierarchy_matches_list_exactly<S: Scalar>(
    node: &BvhNode<S>,
    list: &HittableList<S>,
    r: Ray<S>,
    ray_t: Interval<S>,
)
    requires
        node.covers(list.objects@) || (list.objects@.len() == 0 && node.is_vacant()),
        node_admits(node, r),
        list_admits(list, r),
        hits_apart(flatten_spec(list.objects@), r, ray_t),
    ensures
        node.hit_spec(r, ray_t) == list.hit_spec(r, ray_t),
{
    lemma_hierarchy_matches_list(node, list, r, ray_t);
    if !(list.objects@.len() == 0 && node.is_vacant()) {
        lemma_node_earliest(node, r, ray_t);
        lemma_list_flat_earliest(list, r, ray_t);
        lemma_earliest_is_one(
            flatten_spec(list.objects@),
            node.leaves_spec(),
            r,
            ray_t,
            list.hit_spec(r, ray_t),
            node.hit_spec(r, ray_t),
        );
    }
}

/// What the hierarchy and the list in fact answer to a ray lies at the same
/// place in the order of the parameters.
pub proof fn lemma_hierarchy_answers_as_list<S: Scalar>(
    node: &BvhNode<S>,
    list: &HittableList<S>,
    r: Ray<S>,
    ray_t: Interval<S>,
    by_node: Option<HitRecord<S>>,
    by_list: Option<HitRecord<S>>,
)
    requires
        node.covers(list.objects@) || (list.objects@.len() == 0 && node.is_vacant()),
        node_admits(node, r),
        list_admits(list, r),
        node.can_answer(r, ray_t, by_node),
        list.can_answer(r, ray_t, by_list),
    ensures
        hit_key(by_node) == hit_key(by_list),
        hits_apart(flatten_spec(list.objects@), r, ray_t) ==> by_node == by_list,
{
    lemma_admits_deterministic(&*node.left, r);
    lemma_admits_deterministic(&*node.right, r);
    assert forall|i: int| 0 <= i < list.objects.len() implies (
    #[trigger] list.objects[i]).is_deterministic() by {
        lemma_admits_deterministic(&*list.objects[i], r);
    }
    lemma_list_answer_is_one(list, r, ray_t, list.objects.len() as nat, by_list);
    if node.bbox.hit_spec(r, ray_t) {
        let (hit_left, hit_right) = choose|
            hit_left: Option<HitRecord<S>>,
            hit_right: Option<HitRecord<S>>,
        |
            node.left.can_answer(r, ray_t, hit_left) && node.right.can_answer(
                r,
                narrowed_spec(ray_t, hit_left),
                hit_right,
            ) && by_node == #[trigger] later_spec(hit_left, hit_right);
        lemma_answer_is_one(&*node.left, r, ray_t, hit_left);
        lemma_answer_is_one(&*node.right, r, narrowed_spec(ray_t, hit_left), hit_right);
    }
    assert(by_node == node.hit_spec(r, ray_t));
    lemma_hierarchy_matches_list(node, list, r, ray_t);
    if hits_apart(flatten_spec(list.objects@), r, ray_t) {
        lemma_hierarchy_matches_list_exactly(node, list, r, ray_t);
    }
}

/// A ray that the box of a node turns away is lost to the node: this is
/// what `node_admits` rules out for the windows in which a child is hit.
pub proof fn lemma_box_turns_away<S: Scalar>(node: &BvhNode<S>, r: Ray<S>, ray_t: Interval<S>)
    requires
        !node.bbox.hit_spec(r, ray_t),
    ensures
        node.hit_spec(r, ray_t) is None,
        forall|res: Option<HitRecord<S>>| node.can_answer(r, ray_t, res) ==> res is None,
{
}

/// The box of a well-formed hierarchy encloses the box of every primitive
/// beneath it.
pub proof fn lemma_root_encloses_leaves<S: Scalar>(node: &BvhNode<S>, x: HittableRef<S>)
    requires
        node.is_well_formed(),
        node.leaves_spec().contains(x),
    ensures
        node.bbox.encloses(x.bounding_box_spec()),
{
    let k = choose|k: int| 0 <= k < node.leaves_spec().len() && node.leaves_spec()[k] == x;
    assert(node.bbox.encloses(node.leaves_spec()[k].bounding_box_spec()));
}

} // verus!
