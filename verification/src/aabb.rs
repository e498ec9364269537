//! Axis-aligned bounding boxes, and the test of a ray against one.

use vstd::prelude::*;
use crate::scalar::{Scalar, one, one_spec, zero, zero_spec};
use crate::fixed::{Fixed, saturate_spec};
use crate::interval::{Interval, lemma_union_encloses, lemma_union_tightest};
use crate::ray::Ray;
use crate::vec3::Vec3;

verus! {

/// An axis-aligned bounding box: one interval for each axis.
#[derive(Clone, Copy)]
pub struct Aabb<S: Scalar> {
    pub x: Interval<S>,
    pub y: Interval<S>,
    pub z: Interval<S>,
}

/// The least extent that a box created by `Aabb::new` is given on an axis:
/// one ten-thousandth.
pub open spec fn min_extent_spec<S: Scalar>() -> S {
    S::from_ratio_spec(1, 10_000)
}

/// The interval `axis`, widened where it is thinner than the least extent.
/// The widened interval is taken together with `axis` itself, so that it
/// encloses `axis` whatever the scalar's arithmetic returns.
pub open spec fn padded_spec<S: Scalar>(axis: Interval<S>) -> Interval<S> {
    if axis.size_spec().key() < min_extent_spec::<S>().key() {
        Interval::from_intervals_spec(axis, axis.expand_spec(min_extent_spec::<S>()))
    } else {
        axis
    }
}

/// The window `ray_t` with its upper end drawn back to its lower end, so
/// that it holds no parameter.
pub open spec fn shut_spec<S: Scalar>(ray_t: Interval<S>) -> Interval<S> {
    Interval {
        min: ray_t.min,
        max: if ray_t.max.key() < ray_t.min.key() {
            ray_t.max
        } else {
            ray_t.min
        },
    }
}

/// The ray does not move along the axis: its speed stands on the key of
/// zero.
pub open spec fn stands_still_spec<S: Scalar>(dir: S) -> bool {
    dir.key() == zero_spec::<S>().key()
}

/// The part of the window `ray_t` in which a ray, with the coordinate
/// `origin` and the speed `dir` on one axis, lies within `axis`.
///
/// A ray that does not move along the axis lies within the interval always
/// or never: the window stays as it is where the origin lies in the interval,
/// its ends included, and is shut where it does not. For a ray that moves,
/// the window is cut at the two parameters at which the ray crosses the ends
/// of the interval.
pub open spec fn slab_spec<S: Scalar>(axis: Interval<S>, origin: S, dir: S, ray_t: Interval<S>)
    -> Interval<S> {
    if stands_still_spec(dir) {
        if axis.contains_spec(origin) {
            ray_t
        } else {
            shut_spec(ray_t)
        }
    } else {
        let adinv = one_spec::<S>().over_spec(dir);
        let t0 = axis.min.minus_spec(origin).times_spec(adinv);
        let t1 = axis.max.minus_spec(origin).times_spec(adinv);
        let (near, far) = if t0.key() < t1.key() {
            (t0, t1)
        } else {
            (t1, t0)
        };
        Interval {
            min: if near.key() > ray_t.min.key() {
                near
            } else {
                ray_t.min
            },
            max: if far.key() < ray_t.max.key() {
                far
            } else {
                ray_t.max
            },
        }
    }
}

/// The window holds no parameter: its upper end does not stand after its
/// lower end.
pub open spec fn is_closed<S: Scalar>(w: Interval<S>) -> bool {
    w.max.key() <= w.min.key()
}

pub fn slab<S: Scalar>(axis: Interval<S>, origin: S, dir: S, ray_t: Interval<S>) -> (r: Interval<S>)
    ensures
        r == slab_spec(axis, origin, dir, ray_t),
{
    let mut w = ray_t;
    let still = zero::<S>();
    if !dir.lt(still) && !still.lt(dir) {
        if !axis.contains(origin) && !w.max.lt(w.min) {
            w.max = w.min;
        }
        return w;
    }
    let adinv = one::<S>().over(dir);
    let t0 = axis.min.minus(origin).times(adinv);
    let t1 = axis.max.minus(origin).times(adinv);
    if t0.lt(t1) {
        if w.min.lt(t0) {
            w.min = t0;
        }
        if t1.lt(w.max) {
            w.max = t1;
        }
    } else {
        if w.min.lt(t1) {
            w.min = t1;
        }
        if t0.lt(w.max) {
            w.max = t0;
        }
    }
    w
}

/// A slab never widens the window.
pub proof fn lemma_slab_shrinks<S: Scalar>(axis: Interval<S>, origin: S, dir: S, ray_t: Interval<S>)
    ensures
        ray_t.encloses(slab_spec(axis, origin, dir, ray_t)),
{
}

/// A ray that does not move along an axis passes the slab of that axis
/// untouched where its origin lies in the interval, and not at all where it
/// does not.
pub proof fn lemma_slab_of_a_still_ray<S: Scalar>(
    axis: Interval<S>,
    origin: S,
    dir: S,
    ray_t: Interval<S>,
)
    requires
        stands_still_spec(dir),
    ensures
        axis.contains_spec(origin) ==> slab_spec(axis, origin, dir, ray_t) == ray_t,
        !axis.contains_spec(origin) ==> is_closed(slab_spec(axis, origin, dir, ray_t)),
{
}

impl<S: Scalar> Aabb<S> {
    /// The box of three padded intervals.
    pub open spec fn new_spec(x: Interval<S>, y: Interval<S>, z: Interval<S>) -> Self {
        Aabb { x: padded_spec(x), y: padded_spec(y), z: padded_spec(z) }
    }

    /// The box with the three intervals, each widened to the least extent
    /// where it is thinner.
    pub fn new(x: Interval<S>, y: Interval<S>, z: Interval<S>) -> (r: Self)
        ensures
            r == Self::new_spec(x, y, z),
    {
        let mut bbox = Aabb { x, y, z };
        bbox.pad_to_minimums();
        bbox
    }

    pub open spec fn empty_spec() -> Self {
        Aabb {
            x: Interval::<S>::empty_spec(),
            y: Interval::<S>::empty_spec(),
            z: Interval::<S>::empty_spec(),
        }
    }

    /// The box that holds no point. It is not padded.
    pub fn empty() -> (r: Self)
        ensures
            r == Self::empty_spec(),
    {
        Aabb { x: Interval::empty(), y: Interval::empty(), z: Interval::empty() }
    }

    pub open spec fn universe_spec() -> Self {
        Aabb {
            x: Interval::<S>::universe_spec(),
            y: Interval::<S>::universe_spec(),
            z: Interval::<S>::universe_spec(),
        }
    }

    /// The box that holds every point.
    pub fn universe() -> (r: Self)
        ensures
            r == Self::universe_spec(),
    {
        Aabb { x: Interval::universe(), y: Interval::universe(), z: Interval::universe() }
    }

    /// The interval between two coordinates, whichever comes first.
    pub open spec fn between_spec(a: S, b: S) -> Interval<S> {
        if a.key() <= b.key() {
            Interval { min: a, max: b }
        } else {
            Interval { min: b, max: a }
        }
    }

    pub open spec fn from_points_spec(a: Vec3<S>, b: Vec3<S>) -> Self {
        Self::new_spec(
            Self::between_spec(a.e0, b.e0),
            Self::between_spec(a.e1, b.e1),
            Self::between_spec(a.e2, b.e2),
        )
    }

    /// The padded box with `a` and `b` at opposite corners.
    pub fn from_points(a: Vec3<S>, b: Vec3<S>) -> (r: Self)
        ensures
            r == Self::from_points_spec(a, b),
    {
        let x = if a.e0.le(b.e0) {
            Interval::new(a.e0, b.e0)
        } else {
            Interval::new(b.e0, a.e0)
        };
        let y = if a.e1.le(b.e1) {
            Interval::new(a.e1, b.e1)
        } else {
            Interval::new(b.e1, a.e1)
        };
        let z = if a.e2.le(b.e2) {
            Interval::new(a.e2, b.e2)
        } else {
            Interval::new(b.e2, a.e2)
        };
        Self::new(x, y, z)
    }

    /// The box around two boxes, axis by axis, before any padding.
    pub open spec fn union_spec(box0: Self, box1: Self) -> Self {
        Aabb {
            x: Interval::from_intervals_spec(box0.x, box1.x),
            y: Interval::from_intervals_spec(box0.y, box1.y),
            z: Interval::from_intervals_spec(box0.z, box1.z),
        }
    }

    pub open spec fn from_boxes_spec(box0: Self, box1: Self) -> Self {
        let u = Self::union_spec(box0, box1);
        Self::new_spec(u.x, u.y, u.z)
    }

    /// The padded box around two boxes.
    pub fn from_boxes(box0: Self, box1: Self) -> (r: Self)
        ensures
            r == Self::from_boxes_spec(box0, box1),
            r.encloses(box0),
            r.encloses(box1),
    {
        proof {
            lemma_from_boxes_encloses(box0, box1);
        }
        Self::new(
            Interval::from_intervals(box0.x, box1.x),
            Interval::from_intervals(box0.y, box1.y),
            Interval::from_intervals(box0.z, box1.z),
        )
    }

    /// The interval of axis `n`: 1 for y, 2 for z, any other number for x.
    pub open spec fn axis_interval_spec(self, n: int) -> Interval<S> {
        if n == 1 {
            self.y
        } else if n == 2 {
            self.z
        } else {
            self.x
        }
    }

    pub fn axis_interval(&self, n: usize) -> (r: Interval<S>)
        ensures
            r == self.axis_interval_spec(n as int),
    {
        if n == 1 {
            self.y
        } else if n == 2 {
            self.z
        } else {
            self.x
        }
    }

    /// The ray passes through the box at a parameter of the window `ray_t`:
    /// the window, narrowed by the slab of each axis in turn, stays open.
    pub open spec fn hit_spec(self, r: Ray<S>, ray_t: Interval<S>) -> bool {
        let w0 = slab_spec(self.x, r.orig.e0, r.dir.e0, ray_t);
        let w1 = slab_spec(self.y, r.orig.e1, r.dir.e1, w0);
        let w2 = slab_spec(self.z, r.orig.e2, r.dir.e2, w1);
        !is_closed(w0) && !is_closed(w1) && !is_closed(w2)
    }

    pub fn hit(&self, r: &Ray<S>, ray_t: Interval<S>) -> (b: bool)
        ensures
            b == self.hit_spec(*r, ray_t),
    {
        let w0 = slab(self.x, r.orig.e0, r.dir.e0, ray_t);
        if w0.max.le(w0.min) {
            return false;
        }
        let w1 = slab(self.y, r.orig.e1, r.dir.e1, w0);
        if w1.max.le(w1.min) {
            return false;
        }
        let w2 = slab(self.z, r.orig.e2, r.dir.e2, w1);
        if w2.max.le(w2.min) {
            return false;
        }
        true
    }

    /// The axis on which the box is longest; a tie goes to the later axis,
    /// but between x and y to y.
    pub open spec fn longest_axis_spec(self) -> int {
        let sx = self.x.size_spec().key();
        let sy = self.y.size_spec().key();
        let sz = self.z.size_spec().key();
        if sx > sy {
            if sx > sz {
                0
            } else {
                2
            }
        } else if sy > sz {
            1
        } else {
            2
        }
    }

    pub fn longest_axis(&self) -> (r: usize)
        ensures
            r == self.longest_axis_spec(),
            r < 3,
    {
        if self.y.size().lt(self.x.size()) {
            if self.z.size().lt(self.x.size()) {
                0
            } else {
                2
            }
        } else if self.z.size().lt(self.y.size()) {
            1
        } else {
            2
        }
    }

    fn pad_to_minimums(&mut self)
        ensures
            *final(self) == Self::new_spec(old(self).x, old(self).y, old(self).z),
    {
        let delta = S::from_ratio(1, 10_000);
        if self.x.size().lt(delta) {
            self.x = Interval::from_intervals(self.x, self.x.expand(delta));
        }
        if self.y.size().lt(delta) {
            self.y = Interval::from_intervals(self.y, self.y.expand(delta));
        }
        if self.z.size().lt(delta) {
            self.z = Interval::from_intervals(self.z, self.z.expand(delta));
        }
    }

    pub open spec fn shift_spec(self, offset: Vec3<S>) -> Self {
        Self::new_spec(
            self.x.shift_spec(offset.e0),
            self.y.shift_spec(offset.e1),
            self.z.shift_spec(offset.e2),
        )
    }

    /// The padded box moved by `offset`.
    pub fn shift(self, offset: Vec3<S>) -> (r: Self)
        ensures
            r == self.shift_spec(offset),
    {
        Self::new(self.x.shift(offset.e0), self.y.shift(offset.e1), self.z.shift(offset.e2))
    }

    /// Twice the sum of the areas of three faces that meet in a corner.
    pub open spec fn surface_area_spec(self) -> S {
        let dx = self.x.size_spec();
        let dy = self.y.size_spec();
        let dz = self.z.size_spec();
        S::from_ratio_spec(2, 1).times_spec(
            dx.times_spec(dy).plus_spec(dy.times_spec(dz)).plus_spec(dz.times_spec(dx)),
        )
    }

    pub fn surface_area(&self) -> (r: S)
        ensures
            r == self.surface_area_spec(),
    {
        let dx = self.x.size();
        let dy = self.y.size();
        let dz = self.z.size();
        S::from_ratio(2, 1).times(dx.times(dy).plus(dy.times(dz)).plus(dz.times(dx)))
    }

    /// The point lies in the box, its faces included.
    pub open spec fn contains_spec(self, p: Vec3<S>) -> bool {
        self.x.contains_spec(p.e0) && self.y.contains_spec(p.e1) && self.z.contains_spec(p.e2)
    }

    /// On each axis the interval of `self` encloses that of `inner`.
    pub open spec fn encloses(self, inner: Self) -> bool {
        self.x.encloses(inner.x) && self.y.encloses(inner.y) && self.z.encloses(inner.z)
    }

    /// No axis of the box is thinner than the least extent, so that
    /// `Aabb::new` leaves its intervals as they are.
    pub open spec fn is_thick(self) -> bool {
        !(self.x.size_spec().key() < min_extent_spec::<S>().key()) && !(self.y.size_spec().key()
            < min_extent_spec::<S>().key()) && !(self.z.size_spec().key() < min_extent_spec::<
            S,
        >().key())
    }

    /// Each axis of the box holds some scalar.
    pub open spec fn is_inhabited(self) -> bool {
        self.x.is_inhabited() && self.y.is_inhabited() && self.z.is_inhabited()
    }
}

/// Padding never loses a scalar.
pub proof fn lemma_padded_encloses<S: Scalar>(axis: Interval<S>)
    ensures
        padded_spec(axis).encloses(axis),
{
    lemma_union_encloses(axis, axis.expand_spec(min_extent_spec::<S>()));
}

/// A box that encloses a box which encloses a third encloses the third.
pub proof fn lemma_encloses_transitive<S: Scalar>(a: Aabb<S>, b: Aabb<S>, c: Aabb<S>)
    requires
        a.encloses(b),
        b.encloses(c),
    ensures
        a.encloses(c),
{
}

/// A box holds every point of a box that it encloses.
pub proof fn lemma_encloses_contains<S: Scalar>(a: Aabb<S>, b: Aabb<S>, p: Vec3<S>)
    requires
        a.encloses(b),
        b.contains_spec(p),
    ensures
        a.contains_spec(p),
{
}

/// The box around two boxes encloses both.
pub proof fn lemma_from_boxes_encloses<S: Scalar>(a: Aabb<S>, b: Aabb<S>)
    ensures
        Aabb::from_boxes_spec(a, b).encloses(a),
        Aabb::from_boxes_spec(a, b).encloses(b),
{
    let u = Aabb::union_spec(a, b);
    lemma_union_encloses(a.x, b.x);
    lemma_union_encloses(a.y, b.y);
    lemma_union_encloses(a.z, b.z);
    lemma_padded_encloses(u.x);
    lemma_padded_encloses(u.y);
    lemma_padded_encloses(u.z);
}

/// The box around two boxes holds every point that either of them holds.
pub proof fn lemma_from_boxes_contains<S: Scalar>(a: Aabb<S>, b: Aabb<S>, p: Vec3<S>)
    requires
        a.contains_spec(p) || b.contains_spec(p),
    ensures
        Aabb::from_boxes_spec(a, b).contains_spec(p),
{
    lemma_from_boxes_encloses(a, b);
}

/// Where the box around two inhabited boxes needs no padding, it is the
/// tightest box around them: a box that holds every point of both holds every
/// point of it.
pub proof fn lemma_from_boxes_tightest<S: Scalar>(a: Aabb<S>, b: Aabb<S>, c: Aabb<S>, p: Vec3<S>)
    requires
        a.is_inhabited(),
        b.is_inhabited(),
        Aabb::union_spec(a, b).is_thick(),
        forall|q: Vec3<S>| a.contains_spec(q) || b.contains_spec(q) ==> c.contains_spec(q),
        Aabb::from_boxes_spec(a, b).contains_spec(p),
    ensures
        Aabb::from_boxes_spec(a, b) == Aabb::union_spec(a, b),
        c.contains_spec(p),
{
    let corner = Vec3 { e0: a.x.min, e1: a.y.min, e2: a.z.min };
    let other = Vec3 { e0: b.x.min, e1: b.y.min, e2: b.z.min };
    assert(a.contains_spec(corner));
    assert(b.contains_spec(other));
    assert forall|y: S| a.x.contains_spec(y) || b.x.contains_spec(y) implies c.x.contains_spec(
        y,
    ) by {
        if a.x.contains_spec(y) {
            assert(a.contains_spec(Vec3 { e0: y, e1: a.y.min, e2: a.z.min }));
            assert(c.contains_spec(Vec3 { e0: y, e1: a.y.min, e2: a.z.min }));
        } else {
            assert(b.contains_spec(Vec3 { e0: y, e1: b.y.min, e2: b.z.min }));
            assert(c.contains_spec(Vec3 { e0: y, e1: b.y.min, e2: b.z.min }));
        }
    }
    assert forall|y: S| a.y.contains_spec(y) || b.y.contains_spec(y) implies c.y.contains_spec(
        y,
    ) by {
        if a.y.contains_spec(y) {
            assert(a.contains_spec(Vec3 { e0: a.x.min, e1: y, e2: a.z.min }));
            assert(c.contains_spec(Vec3 { e0: a.x.min, e1: y, e2: a.z.min }));
        } else {
            assert(b.contains_spec(Vec3 { e0: b.x.min, e1: y, e2: b.z.min }));
            assert(c.contains_spec(Vec3 { e0: b.x.min, e1: y, e2: b.z.min }));
        }
    }
    assert forall|y: S| a.z.contains_spec(y) || b.z.contains_spec(y) implies c.z.contains_spec(
        y,
    ) by {
        if a.z.contains_spec(y) {
            assert(a.contains_spec(Vec3 { e0: a.x.min, e1: a.y.min, e2: y }));
            assert(c.contains_spec(Vec3 { e0: a.x.min, e1: a.y.min, e2: y }));
        } else {
            assert(b.contains_spec(Vec3 { e0: b.x.min, e1: b.y.min, e2: y }));
            assert(c.contains_spec(Vec3 { e0: b.x.min, e1: b.y.min, e2: y }));
        }
    }
    lemma_union_tightest(a.x, b.x, c.x, p.e0);
    lemma_union_tightest(a.y, b.y, c.y, p.e1);
    lemma_union_tightest(a.z, b.z, c.z, p.e2);
}

/// In fixed point, an interval that holds a scalar, and lies well within
/// the range of the numbers, is after padding no thinner than the least
/// extent.
pub proof fn lemma_padded_is_thick_in_fixed_point(axis: Interval<Fixed>)
    requires
        axis.is_inhabited(),
        -0x4000_0000_0000_0000 < axis.min.raw,
        axis.max.raw < 0x4000_0000_0000_0000,
    ensures
        !(padded_spec(axis).size_spec().key() < min_extent_spec::<Fixed>().key()),
{
    let delta = min_extent_spec::<Fixed>();
    assert(delta.raw == 429_496) by {
        let num = saturate_spec(1int * 0x1_0000_0000int);
        let den = saturate_spec(10_000int * 0x1_0000_0000int);
        assert(num == 0x1_0000_0000 && den == 10_000 * 0x1_0000_0000);
        assert((0x1_0000_0000int * 0x1_0000_0000int) / (10_000int * 0x1_0000_0000int) == 429_496);
    }
    let two = Fixed::ratio_spec(2, 1);
    assert(two.raw == 0x2_0000_0000) by {
        let num = saturate_spec(2int * 0x1_0000_0000int);
        let den = saturate_spec(1int * 0x1_0000_0000int);
        assert(num == 0x2_0000_0000 && den == 0x1_0000_0000);
        assert((0x2_0000_0000int * 0x1_0000_0000int) / 0x1_0000_0000int == 0x2_0000_0000);
    }
    let padding = delta.quotient_spec(two);
    assert(padding.raw == 214_748) by {
        assert((429_496int * 0x1_0000_0000int) / 0x2_0000_0000int == 214_748);
    }
    let wide = axis.expand_spec(delta);
    assert(wide.min.raw == axis.min.raw - 214_748);
    assert(wide.max.raw == axis.max.raw + 214_748);
}

} // verus!
