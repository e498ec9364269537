//! Parallelograms, and boxes made of them.

use vstd::prelude::*;
use crate::scalar::{Scalar, zero, zero_spec, one, min, min_spec, max, max_spec};
use crate::aabb::Aabb;
use crate::hittable::{HitRecord, HittableObject, HittableRef, make_ref};
use crate::hittable_list::HittableList;
use crate::interval::Interval;
use crate::material::MaterialRef;
use crate::ray::Ray;
use crate::rtweekend::{next_bits, unit_from_bits, unit_from_bits_spec};
use crate::shared::share;
use crate::sphere::{forward_window, forward_window_spec};
use crate::texture::unit_interval_spec;
use crate::vec3::{Vec3, cross, cross_spec, dot, dot_spec, unit_vector, unit_vector_spec};
use rand::rngs::SmallRng;

verus! {

/// A parallelogram: the corner `q` and the two edges `u` and `v` from it.
pub struct Quad<S: Scalar> {
    pub q: Vec3<S>,
    pub u: Vec3<S>,
    pub v: Vec3<S>,
    /// The vector by which the plane coordinates of a point are computed.
    pub w: Vec3<S>,
    pub mat: MaterialRef<S>,
    pub bbox: Aabb<S>,
    /// The unit normal of the plane.
    pub normal: Vec3<S>,
    /// The plane constant: the points `p` of the plane have `normal . p = d`.
    pub d: S,
    pub area: S,
}

impl<S: Scalar> Quad<S> {
    /// The box around the four corners.
    pub open spec fn box_spec(q: Vec3<S>, u: Vec3<S>, v: Vec3<S>) -> Aabb<S> {
        Aabb::from_boxes_spec(
            Aabb::from_points_spec(q, q.plus_spec(u).plus_spec(v)),
            Aabb::from_points_spec(q.plus_spec(u), q.plus_spec(v)),
        )
    }

    pub open spec fn new_spec(q: Vec3<S>, u: Vec3<S>, v: Vec3<S>, mat: MaterialRef<S>) -> Self {
        let n = cross_spec(u, v);
        let normal = unit_vector_spec(n);
        Quad {
            q,
            u,
            v,
            w: n.over_spec(dot_spec(n, n)),
            mat,
            bbox: Self::box_spec(q, u, v),
            normal,
            d: dot_spec(normal, q),
            area: n.length_spec(),
        }
    }

    pub fn new(q: Vec3<S>, u: Vec3<S>, v: Vec3<S>, mat: MaterialRef<S>) -> (r: Self)
        ensures
            r == Self::new_spec(q, u, v, mat),
    {
        let n = cross(u, v);
        let normal = unit_vector(n);
        let d = dot(normal, q);
        let w = n.over(dot(n, n));
        let mut quad = Quad {
            q,
            u,
            v,
            w,
            mat,
            bbox: Aabb::empty(),
            normal,
            d,
            area: n.length(),
        };
        quad.set_bounding_box();
        quad
    }

    fn set_bounding_box(&mut self)
        ensures
            *final(self) == (Quad {
                bbox: Self::box_spec(old(self).q, old(self).u, old(self).v),
                ..*old(self)
            }),
    {
        let bbox_diagonal1 = Aabb::from_points(self.q, self.q.plus(self.u).plus(self.v));
        let bbox_diagonal2 = Aabb::from_points(self.q.plus(self.u), self.q.plus(self.v));
        self.bbox = Aabb::from_boxes(bbox_diagonal1, bbox_diagonal2);
    }

    /// The plane coordinates `(a, b)` lie within the parallelogram: each in
    /// `[0, 1]`.
    pub open spec fn is_interior_spec(a: S, b: S) -> bool {
        unit_interval_spec::<S>().contains_spec(a) && unit_interval_spec::<S>().contains_spec(b)
    }

    /// Tells whether the plane coordinates lie within the parallelogram, and
    /// if so writes them into the record as its surface coordinates.
    pub fn is_interior(&self, a: S, b: S, rec: &mut HitRecord<S>) -> (r: bool)
        ensures
            r == Self::is_interior_spec(a, b),
            r ==> *final(rec) == (HitRecord { u: a, v: b, ..*old(rec) }),
            !r ==> *final(rec) == *old(rec),
    {
        let unit_interval = Interval::new(zero::<S>(), one::<S>());
        if !unit_interval.contains(a) || !unit_interval.contains(b) {
            return false;
        }
        rec.u = a;
        rec.v = b;
        true
    }

    /// The ray runs along the plane: the length of its direction along the
    /// normal is below 10⁻⁸.
    pub open spec fn is_parallel_spec(&self, r: Ray<S>) -> bool {
        dot_spec(self.normal, r.dir).abs_spec().key() < S::from_ratio_spec(1, 100_000_000).key()
    }

    /// The parameter at which the ray crosses the plane.
    pub open spec fn plane_t_spec(&self, r: Ray<S>) -> S {
        self.d.minus_spec(dot_spec(self.normal, r.orig)).over_spec(dot_spec(self.normal, r.dir))
    }

    /// The plane coordinates of the point at which the ray crosses the plane.
    pub open spec fn plane_coords_spec(&self, r: Ray<S>) -> (S, S) {
        let planar = r.at_spec(self.plane_t_spec(r)).minus_spec(self.q);
        (dot_spec(self.w, cross_spec(planar, self.v)), dot_spec(self.w, cross_spec(self.u, planar)))
    }

    /// Where the ray strikes the parallelogram within the window.
    pub open spec fn hit_spec(&self, r: Ray<S>, ray_t: Interval<S>) -> Option<HitRecord<S>> {
        let t = self.plane_t_spec(r);
        let ab = self.plane_coords_spec(r);
        if self.is_parallel_spec(r) || !ray_t.contains_spec(t) || !Self::is_interior_spec(
            ab.0,
            ab.1,
        ) {
            None
        } else {
            Some(HitRecord::new_spec(r.at_spec(t), t, r, self.normal, self.mat, ab.0, ab.1))
        }
    }

    /// The crossing of the ray with the parallelogram, where the ray is not
    /// parallel to its plane, crosses the plane within the window `ray_t`, ends
    /// included, and does so inside the parallelogram.
    pub fn hit(&self, r: &Ray<S>, ray_t: Interval<S>) -> (res: Option<HitRecord<S>>)
        ensures
            res == self.hit_spec(*r, ray_t),
            res matches Some(h) ==> ray_t.contains_spec(h.t),
    {
        let denom = dot(self.normal, r.direction());
        if denom.abs().lt(S::from_ratio(1, 100_000_000)) {
            return None;
        }
        let t = self.d.minus(dot(self.normal, r.origin())).over(denom);
        if !ray_t.contains(t) {
            return None;
        }
        let intersection = r.at(t);
        let planar_hitpt_vector = intersection.minus(self.q);
        let alpha = dot(self.w, cross(planar_hitpt_vector, self.v));
        let beta = dot(self.w, cross(self.u, planar_hitpt_vector));
        let mut rec = HitRecord::new(
            intersection,
            t,
            r,
            self.normal,
            share(&self.mat),
            zero::<S>(),
            zero::<S>(),
        );
        if !self.is_interior(alpha, beta, &mut rec) {
            return None;
        }
        Some(rec)
    }

    pub fn bounding_box(&self) -> (r: Aabb<S>)
        ensures
            r == self.bbox,
    {
        self.bbox
    }

    /// The density with which `random` picks `direction` from `origin`:
    /// the squared distance to the hit over the area seen, and zero for a
    /// direction that misses the parallelogram.
    pub open spec fn pdf_value_spec(&self, origin: Vec3<S>, direction: Vec3<S>) -> S {
        let ray = Ray { orig: origin, dir: direction, tm: zero_spec::<S>() };
        match self.hit_spec(ray, forward_window_spec::<S>()) {
            None => zero_spec::<S>(),
            Some(rec) => {
                let distance_squared = rec.t.times_spec(rec.t).times_spec(
                    direction.length_squared_spec(),
                );
                let cosine = dot_spec(direction, rec.normal).over_spec(direction.length_spec())
                    .abs_spec();
                distance_squared.over_spec(cosine.times_spec(self.area))
            },
        }
    }

    pub fn pdf_value(&self, origin: Vec3<S>, direction: Vec3<S>) -> (r: S)
        ensures
            r == self.pdf_value_spec(origin, direction),
    {
        let ray = Ray::new(origin, direction);
        match self.hit(&ray, forward_window::<S>()) {
            None => zero::<S>(),
            Some(rec) => {
                let distance_squared = rec.t.times(rec.t).times(direction.length_squared());
                let cosine = dot(direction, rec.normal).over(direction.length()).abs();
                distance_squared.over(cosine.times(self.area))
            },
        }
    }

    /// The direction from `origin` to the point of the parallelogram with
    /// the plane coordinates `(r1, r2)`.
    pub open spec fn random_spec(&self, origin: Vec3<S>, r1: S, r2: S) -> Vec3<S> {
        self.q.plus_spec(self.u.scale_spec(r1)).plus_spec(self.v.scale_spec(r2)).minus_spec(origin)
    }

    /// The direction from `origin` to a random point of the parallelogram.
    pub fn random(&self, origin: Vec3<S>, rng: &mut SmallRng) -> (r: Vec3<S>)
        ensures
            exists|b1: u64, b2: u64|
                r == self.random_spec(
                    origin,
                    unit_from_bits_spec::<S>(b1),
                    unit_from_bits_spec::<S>(b2),
                ),
    {
        let b1 = next_bits(rng);
        let b2 = next_bits(rng);
        let p = self.q.plus(self.u.scale(unit_from_bits(b1))).plus(
            self.v.scale(unit_from_bits(b2)),
        );
        let r = p.minus(origin);
        assert(r == self.random_spec(
            origin,
            unit_from_bits_spec::<S>(b1),
            unit_from_bits_spec::<S>(b2),
        ));
        r
    }
}

/// The six sides of the box with `a` and `b` at opposite corners, in the
/// order front, right, back, left, top, bottom.
pub open spec fn box_sides_spec<S: Scalar>(a: Vec3<S>, b: Vec3<S>, mat: MaterialRef<S>) -> Seq<
    Quad<S>,
> {
    let lo = Vec3 { e0: min_spec(a.e0, b.e0), e1: min_spec(a.e1, b.e1), e2: min_spec(a.e2, b.e2) };
    let hi = Vec3 { e0: max_spec(a.e0, b.e0), e1: max_spec(a.e1, b.e1), e2: max_spec(a.e2, b.e2) };
    let dx = Vec3 { e0: hi.e0.minus_spec(lo.e0), e1: zero_spec::<S>(), e2: zero_spec::<S>() };
    let dy = Vec3 { e0: zero_spec::<S>(), e1: hi.e1.minus_spec(lo.e1), e2: zero_spec::<S>() };
    let dz = Vec3 { e0: zero_spec::<S>(), e1: zero_spec::<S>(), e2: hi.e2.minus_spec(lo.e2) };
    seq![
        Quad::new_spec(Vec3 { e0: lo.e0, e1: lo.e1, e2: hi.e2 }, dx, dy, mat),
        Quad::new_spec(Vec3 { e0: hi.e0, e1: lo.e1, e2: hi.e2 }, dz.negate_spec(), dy, mat),
        Quad::new_spec(Vec3 { e0: hi.e0, e1: lo.e1, e2: lo.e2 }, dx.negate_spec(), dy, mat),
        Quad::new_spec(Vec3 { e0: lo.e0, e1: lo.e1, e2: lo.e2 }, dz, dy, mat),
        Quad::new_spec(Vec3 { e0: lo.e0, e1: hi.e1, e2: hi.e2 }, dx, dz.negate_spec(), mat),
        Quad::new_spec(Vec3 { e0: lo.e0, e1: lo.e1, e2: lo.e2 }, dx, dz, mat),
    ]
}

/// The box with `a` and `b` at opposite corners: a list of its six sides.
pub fn make_box<S: Scalar>(a: Vec3<S>, b: Vec3<S>, mat: MaterialRef<S>) -> (r: HittableRef<S>)
    ensures
        *r matches HittableObject::List(list) && list.objects@.len() == 6 && forall|i: int|
            0 <= i < 6 ==> *#[trigger] list.objects@[i] == HittableObject::Quad(
                box_sides_spec(a, b, mat)[i],
            ),
{
    let mut sides = HittableList::new();
    let lo = Vec3::new(min(a.e0, b.e0), min(a.e1, b.e1), min(a.e2, b.e2));
    let hi = Vec3::new(max(a.e0, b.e0), max(a.e1, b.e1), max(a.e2, b.e2));
    let dx = Vec3::new(hi.e0.minus(lo.e0), zero::<S>(), zero::<S>());
    let dy = Vec3::new(zero::<S>(), hi.e1.minus(lo.e1), zero::<S>());
    let dz = Vec3::new(zero::<S>(), zero::<S>(), hi.e2.minus(lo.e2));
    sides.add(
        make_ref(HittableObject::Quad(Quad::new(Vec3::new(lo.e0, lo.e1, hi.e2), dx, dy, share(&mat)))),
    );
    sides.add(
        make_ref(
            HittableObject::Quad(
                Quad::new(Vec3::new(hi.e0, lo.e1, hi.e2), dz.negate(), dy, share(&mat)),
            ),
        ),
    );
    sides.add(
        make_ref(
            HittableObject::Quad(
                Quad::new(Vec3::new(hi.e0, lo.e1, lo.e2), dx.negate(), dy, share(&mat)),
            ),
        ),
    );
    sides.add(
        make_ref(HittableObject::Quad(Quad::new(Vec3::new(lo.e0, lo.e1, lo.e2), dz, dy, share(&mat)))),
    );
    sides.add(
        make_ref(
            HittableObject::Quad(
                Quad::new(Vec3::new(lo.e0, hi.e1, hi.e2), dx, dz.negate(), share(&mat)),
            ),
        ),
    );
    sides.add(make_ref(HittableObject::Quad(Quad::new(Vec3::new(lo.e0, lo.e1, lo.e2), dx, dz, mat))));
    make_ref(HittableObject::List(sides))
}

} // verus!
