//! Hit records, the closed set of objects that a ray can strike, and objects
//! that are moved or turned.

use vstd::prelude::*;
use crate::scalar::{Scalar, zero, zero_spec, max, max_spec, min, min_spec};
use crate::aabb::Aabb;
use crate::bvh::BvhNode;
use crate::constant_medium::ConstantMedium;
use crate::hittable_list::HittableList;
use crate::interval::Interval;
use crate::material::MaterialRef;
use crate::quad::Quad;
use crate::ray::Ray;
use crate::rtweekend::{degrees_to_radians, degrees_to_radians_spec, unit_from_bits_spec};
use crate::sphere::Sphere;
use crate::vec3::{Vec3, dot, dot_spec, first_axis, first_axis_spec};
use rand::rngs::SmallRng;
use std::sync::Arc;

verus! {

/// What is known of the place where a ray strikes a surface.
pub struct HitRecord<S: Scalar> {
    /// The point that was struck.
    pub p: Vec3<S>,
    /// The surface normal, turned against the ray.
    pub normal: Vec3<S>,
    pub mat: MaterialRef<S>,
    /// The parameter of the ray at the point.
    pub t: S,
    pub u: S,
    pub v: S,
    /// The ray came from outside.
    pub front_face: bool,
}

impl<S: Scalar> HitRecord<S> {
    /// The ray runs against the outward normal: it strikes the front face.
    pub open spec fn faces_spec(r: Ray<S>, outward_normal: Vec3<S>) -> bool {
        dot_spec(r.dir, outward_normal).key() < zero_spec::<S>().key()
    }

    /// The outward normal, turned against the ray.
    pub open spec fn oriented_spec(r: Ray<S>, outward_normal: Vec3<S>) -> Vec3<S> {
        if Self::faces_spec(r, outward_normal) {
            outward_normal
        } else {
            outward_normal.negate_spec()
        }
    }

    pub open spec fn new_spec(
        p: Vec3<S>,
        t: S,
        r: Ray<S>,
        outward_normal: Vec3<S>,
        mat: MaterialRef<S>,
        u: S,
        v: S,
    ) -> Self {
        HitRecord {
            p,
            normal: Self::oriented_spec(r, outward_normal),
            mat,
            t,
            u,
            v,
            front_face: Self::faces_spec(r, outward_normal),
        }
    }

    /// The record of a hit of the ray `r` at the point `p`, with the normal
    /// turned against the ray.
    pub fn new(
        p: Vec3<S>,
        t: S,
        r: &Ray<S>,
        outward_normal: Vec3<S>,
        mat: MaterialRef<S>,
        u: S,
        v: S,
    ) -> (rec: Self)
        ensures
            rec == Self::new_spec(p, t, *r, outward_normal, mat, u, v),
    {
        let mut rec = HitRecord { p, normal: outward_normal, mat, t, u, v, front_face: false };
        rec.set_face_normal(r, outward_normal);
        rec
    }

    /// Records on which side the ray struck, and turns the normal against it.
    pub fn set_face_normal(&mut self, r: &Ray<S>, outward_normal: Vec3<S>)
        ensures
            *final(self) == (HitRecord {
                front_face: Self::faces_spec(*r, outward_normal),
                normal: Self::oriented_spec(*r, outward_normal),
                ..*old(self)
            }),
    {
        self.front_face = dot(r.direction(), outward_normal).lt(zero::<S>());
        self.normal = if self.front_face {
            outward_normal
        } else {
            outward_normal.negate()
        };
    }
}

/// An object moved by an offset.
pub struct Translate<S: Scalar> {
    pub object: HittableRef<S>,
    pub offset: Vec3<S>,
    pub bbox: Aabb<S>,
}

/// An object turned about the second axis.
pub struct RotateY<S: Scalar> {
    pub object: HittableRef<S>,
    pub sin_theta: S,
    pub cos_theta: S,
    pub bbox: Aabb<S>,
}

/// Anything that a ray can strike.
pub enum HittableObject<S: Scalar> {
    Sphere(Sphere<S>),
    Quad(Quad<S>),
    ConstantMedium(ConstantMedium<S>),
    Translate(Translate<S>),
    RotateY(RotateY<S>),
    Bvh(BvhNode<S>),
    List(HittableList<S>),
}

pub type HittableRef<S> = Arc<HittableObject<S>>;

/// A shared object.
pub fn make_ref<S: Scalar>(object: HittableObject<S>) -> (r: HittableRef<S>)
    ensures
        *r == object,
{
    Arc::new(object)
}

impl<S: Scalar> Translate<S> {
    pub fn new(object: HittableRef<S>, offset: Vec3<S>) -> (r: Self)
        ensures
            r.object == object,
            r.offset == offset,
            r.bbox == object.bounding_box_spec().shift_spec(offset),
    {
        let bbox = object.bounding_box().shift(offset);
        Translate { object, offset, bbox }
    }

    /// The ray as the object sees it: moved back by the offset.
    pub open spec fn inner_ray_spec(&self, r: Ray<S>) -> Ray<S> {
        Ray { orig: r.orig.minus_spec(self.offset), dir: r.dir, tm: r.tm }
    }

    /// The record of the object, moved forward by the offset.
    pub open spec fn outer_record_spec(&self, rec: HitRecord<S>) -> HitRecord<S> {
        HitRecord { p: rec.p.plus_spec(self.offset), ..rec }
    }

    pub open spec fn hit_spec(&self, r: Ray<S>, ray_t: Interval<S>) -> Option<HitRecord<S>>
        decreases self, 0nat,
    {
        match self.object.hit_spec(self.inner_ray_spec(r), ray_t) {
            Some(rec) => Some(self.outer_record_spec(rec)),
            None => None,
        }
    }

    /// The answer of the object, its point moved forward by the offset.
    pub open spec fn outer_answer_spec(&self, inner: Option<HitRecord<S>>) -> Option<HitRecord<S>> {
        match inner {
            Some(rec) => Some(self.outer_record_spec(rec)),
            None => None,
        }
    }

    /// The answer `res` is one that the moved object can give: an answer of
    /// the object to the ray moved back, its point moved forward again.
    pub open spec fn can_answer(&self, r: Ray<S>, ray_t: Interval<S>, res: Option<HitRecord<S>>)
        -> bool
        decreases self, 0nat,
    {
        exists|inner: Option<HitRecord<S>>|
            self.object.can_answer(self.inner_ray_spec(r), ray_t, inner) && res
                == #[trigger] self.outer_answer_spec(inner)
    }

    /// The hit of the object with the ray moved back, its point moved
    /// forward again.
    pub fn hit(&self, r: &Ray<S>, ray_t: Interval<S>, rng: &mut SmallRng) -> (res: Option<
        HitRecord<S>,
    >)
        ensures
            self.can_answer(*r, ray_t, res),
            self.object.is_deterministic() ==> res == self.hit_spec(*r, ray_t),
            res matches Some(h) ==> ray_t.contains_spec(h.t),
        decreases self,
    {
        let offset_r = Ray::new_with_time(r.origin().minus(self.offset), r.direction(), r.time());
        let inner = self.object.hit(&offset_r, ray_t, rng);
        let ghost seen = inner;
        let res = match inner {
            Some(rec) => {
                let mut rec = rec;
                rec.p = rec.p.plus(self.offset);
                Some(rec)
            },
            None => None,
        };
        assert(self.object.can_answer(self.inner_ray_spec(*r), ray_t, seen) && res
            == self.outer_answer_spec(seen));
        res
    }

    pub fn bounding_box(&self) -> (r: Aabb<S>)
        ensures
            r == self.bbox,
    {
        self.bbox
    }
}

impl<S: Scalar> RotateY<S> {
    /// The point `p` turned by the angle about the second axis.
    pub open spec fn forward_spec(sin_theta: S, cos_theta: S, p: Vec3<S>) -> Vec3<S> {
        Vec3 {
            e0: cos_theta.times_spec(p.e0).plus_spec(sin_theta.times_spec(p.e2)),
            e1: p.e1,
            e2: sin_theta.negate_spec().times_spec(p.e0).plus_spec(cos_theta.times_spec(p.e2)),
        }
    }

    pub fn forward(sin_theta: S, cos_theta: S, p: Vec3<S>) -> (r: Vec3<S>)
        ensures
            r == Self::forward_spec(sin_theta, cos_theta, p),
    {
        Vec3 {
            e0: cos_theta.times(p.e0).plus(sin_theta.times(p.e2)),
            e1: p.e1,
            e2: sin_theta.negate().times(p.e0).plus(cos_theta.times(p.e2)),
        }
    }

    /// The point `p` turned back.
    pub open spec fn backward_spec(sin_theta: S, cos_theta: S, p: Vec3<S>) -> Vec3<S> {
        Vec3 {
            e0: cos_theta.times_spec(p.e0).minus_spec(sin_theta.times_spec(p.e2)),
            e1: p.e1,
            e2: sin_theta.times_spec(p.e0).plus_spec(cos_theta.times_spec(p.e2)),
        }
    }

    pub fn backward(sin_theta: S, cos_theta: S, p: Vec3<S>) -> (r: Vec3<S>)
        ensures
            r == Self::backward_spec(sin_theta, cos_theta, p),
    {
        Vec3 {
            e0: cos_theta.times(p.e0).minus(sin_theta.times(p.e2)),
            e1: p.e1,
            e2: sin_theta.times(p.e0).plus(cos_theta.times(p.e2)),
        }
    }

    /// Corner number `n` of a box, from 0 to 7: bit 2 of `n` picks the upper
    /// end on the first axis, bit 1 on the second, bit 0 on the third.
    pub open spec fn corner_spec(bbox: Aabb<S>, n: int) -> Vec3<S> {
        Vec3 {
            e0: if n / 4 == 1 {
                bbox.x.max
            } else {
                bbox.x.min
            },
            e1: if (n / 2) % 2 == 1 {
                bbox.y.max
            } else {
                bbox.y.min
            },
            e2: if n % 2 == 1 {
                bbox.z.max
            } else {
                bbox.z.min
            },
        }
    }

    /// The least corner of the box around the first `n` turned corners.
    pub open spec fn turned_min_spec(sin_theta: S, cos_theta: S, bbox: Aabb<S>, n: nat) -> Vec3<S>
        decreases n,
    {
        if n == 0 {
            Vec3 { e0: S::infinity_spec(), e1: S::infinity_spec(), e2: S::infinity_spec() }
        } else {
            let prev = Self::turned_min_spec(sin_theta, cos_theta, bbox, (n - 1) as nat);
            let tester = Self::forward_spec(sin_theta, cos_theta, Self::corner_spec(bbox, n - 1));
            Vec3 {
                e0: min_spec(prev.e0, tester.e0),
                e1: min_spec(prev.e1, tester.e1),
                e2: min_spec(prev.e2, tester.e2),
            }
        }
    }

    /// The greatest corner of the box around the first `n` turned corners.
    pub open spec fn turned_max_spec(sin_theta: S, cos_theta: S, bbox: Aabb<S>, n: nat) -> Vec3<S>
        decreases n,
    {
        if n == 0 {
            let low = S::infinity_spec().negate_spec();
            Vec3 { e0: low, e1: low, e2: low }
        } else {
            let prev = Self::turned_max_spec(sin_theta, cos_theta, bbox, (n - 1) as nat);
            let tester = Self::forward_spec(sin_theta, cos_theta, Self::corner_spec(bbox, n - 1));
            Vec3 {
                e0: max_spec(prev.e0, tester.e0),
                e1: max_spec(prev.e1, tester.e1),
                e2: max_spec(prev.e2, tester.e2),
            }
        }
    }

    /// The box around the eight turned corners of `bbox`.
    pub open spec fn turned_box_spec(sin_theta: S, cos_theta: S, bbox: Aabb<S>) -> Aabb<S> {
        Aabb::from_points_spec(
            Self::turned_min_spec(sin_theta, cos_theta, bbox, 8),
            Self::turned_max_spec(sin_theta, cos_theta, bbox, 8),
        )
    }

    /// The object turned by `angle` degrees about the second axis.
    pub fn new(object: HittableRef<S>, angle: S) -> (r: Self)
        ensures
            r.object == object,
            r.sin_theta == degrees_to_radians_spec(angle).sin_spec(),
            r.cos_theta == degrees_to_radians_spec(angle).cos_spec(),
            r.bbox == Self::turned_box_spec(r.sin_theta, r.cos_theta, object.bounding_box_spec()),
    {
        let radians = degrees_to_radians(angle);
        let sin_theta = radians.sin();
        let cos_theta = radians.cos();
        let bbox = object.bounding_box();
        let mut lo = Vec3::new(S::infinity(), S::infinity(), S::infinity());
        let low = S::infinity().negate();
        let mut hi = Vec3::new(low, low, low);
        let mut n: usize = 0;
        while n < 8
            invariant
                n <= 8,
                lo == Self::turned_min_spec(sin_theta, cos_theta, bbox, n as nat),
                hi == Self::turned_max_spec(sin_theta, cos_theta, bbox, n as nat),
            decreases 8 - n,
        {
            let x = if n / 4 == 1 {
                bbox.x.max
            } else {
                bbox.x.min
            };
            let y = if (n / 2) % 2 == 1 {
                bbox.y.max
            } else {
                bbox.y.min
            };
            let z = if n % 2 == 1 {
                bbox.z.max
            } else {
                bbox.z.min
            };
            let tester = Self::forward(sin_theta, cos_theta, Vec3::new(x, y, z));
            lo = Vec3::new(min(lo.e0, tester.e0), min(lo.e1, tester.e1), min(lo.e2, tester.e2));
            hi = Vec3::new(max(hi.e0, tester.e0), max(hi.e1, tester.e1), max(hi.e2, tester.e2));
            n += 1;
        }
        let bbox = Aabb::from_points(lo, hi);
        RotateY { object, sin_theta, cos_theta, bbox }
    }

    /// The ray as the object sees it: turned back.
    pub open spec fn inner_ray_spec(&self, r: Ray<S>) -> Ray<S> {
        Ray {
            orig: Self::backward_spec(self.sin_theta, self.cos_theta, r.orig),
            dir: Self::backward_spec(self.sin_theta, self.cos_theta, r.dir),
            tm: r.tm,
        }
    }

    /// The record of the object, its point and normal turned forward.
    pub open spec fn outer_record_spec(&self, rec: HitRecord<S>) -> HitRecord<S> {
        HitRecord {
            p: Self::forward_spec(self.sin_theta, self.cos_theta, rec.p),
            normal: Self::forward_spec(self.sin_theta, self.cos_theta, rec.normal),
            ..rec
        }
    }

    pub open spec fn hit_spec(&self, r: Ray<S>, ray_t: Interval<S>) -> Option<HitRecord<S>>
        decreases self, 0nat,
    {
        match self.object.hit_spec(self.inner_ray_spec(r), ray_t) {
            Some(rec) => Some(self.outer_record_spec(rec)),
            None => None,
        }
    }

    /// The answer of the object, its point and normal turned forward.
    pub open spec fn outer_answer_spec(&self, inner: Option<HitRecord<S>>) -> Option<HitRecord<S>> {
        match inner {
            Some(rec) => Some(self.outer_record_spec(rec)),
            None => None,
        }
    }

    /// The answer `res` is one that the turned object can give: an answer of
    /// the object to the ray turned back, its point and normal turned forward
    /// again.
    pub open spec fn can_answer(&self, r: Ray<S>, ray_t: Interval<S>, res: Option<HitRecord<S>>)
        -> bool
        decreases self, 0nat,
    {
        exists|inner: Option<HitRecord<S>>|
            self.object.can_answer(self.inner_ray_spec(r), ray_t, inner) && res
                == #[trigger] self.outer_answer_spec(inner)
    }

    /// The hit of the object with the ray turned back, its point and normal
    /// turned forward again.
    pub fn hit(&self, r: &Ray<S>, ray_t: Interval<S>, rng: &mut SmallRng) -> (res: Option<
        HitRecord<S>,
    >)
        ensures
            self.can_answer(*r, ray_t, res),
            self.object.is_deterministic() ==> res == self.hit_spec(*r, ray_t),
            res matches Some(h) ==> ray_t.contains_spec(h.t),
        decreases self,
    {
        let origin = Self::backward(self.sin_theta, self.cos_theta, r.origin());
        let direction = Self::backward(self.sin_theta, self.cos_theta, r.direction());
        let rotated_r = Ray::new_with_time(origin, direction, r.time());
        let inner = self.object.hit(&rotated_r, ray_t, rng);
        let ghost seen = inner;
        let res = match inner {
            Some(rec) => {
                let mut rec = rec;
                rec.p = Self::forward(self.sin_theta, self.cos_theta, rec.p);
                rec.normal = Self::forward(self.sin_theta, self.cos_theta, rec.normal);
                Some(rec)
            },
            None => None,
        };
        assert(self.object.can_answer(self.inner_ray_spec(*r), ray_t, seen) && res
            == self.outer_answer_spec(seen));
        res
    }

    pub fn bounding_box(&self) -> (r: Aabb<S>)
        ensures
            r == self.bbox,
    {
        self.bbox
    }
}

impl<S: Scalar> HittableObject<S> {
    /// What the object answers to a ray depends on the ray and the window
    /// alone: no volume lies in it, whose hits are drawn at random.
    pub open spec fn is_deterministic(&self) -> bool
        decreases self, 0nat,
    {
        match self {
            HittableObject::Sphere(_) => true,
            HittableObject::Quad(_) => true,
            HittableObject::ConstantMedium(_) => false,
            HittableObject::Translate(object) => object.object.is_deterministic(),
            HittableObject::RotateY(object) => object.object.is_deterministic(),
            HittableObject::Bvh(object) => object.left.is_deterministic()
                && object.right.is_deterministic(),
            HittableObject::List(object) => forall|i: int|
                0 <= i < object.objects.len() ==> (#[trigger] object.objects[i]).is_deterministic(),
        }
    }

    /// Where the ray strikes the object within the window. For an object
    /// that holds a volume the function says nothing.
    pub open spec fn hit_spec(&self, r: Ray<S>, ray_t: Interval<S>) -> Option<HitRecord<S>>
        decreases self, 1nat,
    {
        match self {
            HittableObject::Sphere(object) => object.hit_spec(r, ray_t),
            HittableObject::Quad(object) => object.hit_spec(r, ray_t),
            HittableObject::ConstantMedium(_) => None,
            HittableObject::Translate(object) => object.hit_spec(r, ray_t),
            HittableObject::RotateY(object) => object.hit_spec(r, ray_t),
            HittableObject::Bvh(object) => object.hit_spec(r, ray_t),
            HittableObject::List(object) => object.hit_spec(r, ray_t),
        }
    }

    /// The answer `res` is one that the object can give to the ray in the
    /// window: for a sphere or a parallelogram the one of `hit_spec`; for a
    /// volume the scatter of some draw; for an object that is moved or turned,
    /// for a list and for a hierarchy what they make of answers of the objects
    /// within them.
    pub open spec fn can_answer(&self, r: Ray<S>, ray_t: Interval<S>, res: Option<HitRecord<S>>)
        -> bool
        decreases self, 2nat,
    {
        match self {
            HittableObject::Sphere(object) => res == object.hit_spec(r, ray_t),
            HittableObject::Quad(object) => res == object.hit_spec(r, ray_t),
            HittableObject::ConstantMedium(object) => object.can_answer(r, ray_t, res),
            HittableObject::Translate(object) => object.can_answer(r, ray_t, res),
            HittableObject::RotateY(object) => object.can_answer(r, ray_t, res),
            HittableObject::Bvh(object) => object.can_answer(r, ray_t, res),
            HittableObject::List(object) => object.can_answer(r, ray_t, res),
        }
    }

    /// The closest hit of the ray with the object within the window.
    pub fn hit(&self, r: &Ray<S>, ray_t: Interval<S>, rng: &mut SmallRng) -> (res: Option<
        HitRecord<S>,
    >)
        ensures
            self.can_answer(*r, ray_t, res),
            self.is_deterministic() ==> res == self.hit_spec(*r, ray_t),
            res matches Some(h) ==> ray_t.contains_spec(h.t),
        decreases self,
    {
        match self {
            HittableObject::Sphere(object) => object.hit(r, ray_t),
            HittableObject::Quad(object) => object.hit(r, ray_t),
            HittableObject::ConstantMedium(object) => object.hit(r, ray_t, rng),
            HittableObject::Translate(object) => object.hit(r, ray_t, rng),
            HittableObject::RotateY(object) => object.hit(r, ray_t, rng),
            HittableObject::Bvh(object) => object.hit(r, ray_t, rng),
            HittableObject::List(object) => object.hit(r, ray_t, rng),
        }
    }

    /// The bounding volume that the object reports.
    pub open spec fn bounding_box_spec(&self) -> Aabb<S>
        decreases self,
    {
        match self {
            HittableObject::Sphere(object) => object.bbox,
            HittableObject::Quad(object) => object.bbox,
            HittableObject::ConstantMedium(object) => object.boundary.bounding_box_spec(),
            HittableObject::Translate(object) => object.bbox,
            HittableObject::RotateY(object) => object.bbox,
            HittableObject::Bvh(object) => object.bbox,
            HittableObject::List(object) => object.bbox,
        }
    }

    pub fn bounding_box(&self) -> (r: Aabb<S>)
        ensures
            r == self.bounding_box_spec(),
        decreases self,
    {
        match self {
            HittableObject::Sphere(object) => object.bounding_box(),
            HittableObject::Quad(object) => object.bounding_box(),
            HittableObject::ConstantMedium(object) => object.bounding_box(),
            HittableObject::Translate(object) => object.bounding_box(),
            HittableObject::RotateY(object) => object.bounding_box(),
            HittableObject::Bvh(object) => object.bounding_box(),
            HittableObject::List(object) => object.bounding_box(),
        }
    }

    /// The density with which `random` picks `direction` from `origin`;
    /// zero for an object that is not sampled as a light.
    pub open spec fn pdf_value_spec(&self, origin: Vec3<S>, direction: Vec3<S>) -> S
        decreases self, 1nat,
    {
        match self {
            HittableObject::Sphere(object) => object.pdf_value_spec(origin, direction),
            HittableObject::Quad(object) => object.pdf_value_spec(origin, direction),
            HittableObject::List(object) => object.pdf_value_spec(origin, direction),
            _ => zero_spec::<S>(),
        }
    }

    pub fn pdf_value(&self, origin: Vec3<S>, direction: Vec3<S>) -> (r: S)
        ensures
            r == self.pdf_value_spec(origin, direction),
        decreases self,
    {
        match self {
            HittableObject::Sphere(object) => object.pdf_value(origin, direction),
            HittableObject::Quad(object) => object.pdf_value(origin, direction),
            HittableObject::List(object) => object.pdf_value(origin, direction),
            _ => zero::<S>(),
        }
    }

    /// `r` is a direction that `random` can return from `origin`: for a
    /// sphere or a parallelogram the direction of two draws, for a list a
    /// direction of one of its members, and the first axis for an empty list
    /// and for an object that is not sampled as a light.
    pub open spec fn can_sample(&self, origin: Vec3<S>, r: Vec3<S>) -> bool
        decreases self,
    {
        match self {
            HittableObject::Sphere(object) => exists|b1: u64, b2: u64|
                r == object.random_spec(
                    origin,
                    unit_from_bits_spec::<S>(b1),
                    unit_from_bits_spec::<S>(b2),
                ),
            HittableObject::Quad(object) => exists|b1: u64, b2: u64|
                r == object.random_spec(
                    origin,
                    unit_from_bits_spec::<S>(b1),
                    unit_from_bits_spec::<S>(b2),
                ),
            HittableObject::List(object) => if object.objects.len() == 0 {
                r == first_axis_spec::<S>()
            } else {
                exists|i: int|
                    0 <= i < object.objects.len() && (#[trigger] object.objects[i]).can_sample(
                        origin,
                        r,
                    )
            },
            _ => r == first_axis_spec::<S>(),
        }
    }

    /// A random direction from `origin` towards the object.
    pub fn random(&self, origin: Vec3<S>, rng: &mut SmallRng) -> (r: Vec3<S>)
        ensures
            self.can_sample(origin, r),
        decreases self,
    {
        match self {
            HittableObject::Sphere(object) => object.random(origin, rng),
            HittableObject::Quad(object) => object.random(origin, rng),
            HittableObject::List(object) => object.random(origin, rng),
            _ => first_axis::<S>(),
        }
    }
}

} // verus!
