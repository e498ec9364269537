//! Spheres, at rest or moving.

use vstd::prelude::*;
use crate::scalar::{Scalar, zero, zero_spec, one, one_spec, min, min_spec, max, max_spec};
use crate::aabb::Aabb;
use crate::hittable::HitRecord;
use crate::interval::Interval;
use crate::material::MaterialRef;
use crate::onb::Onb;
use crate::ray::Ray;
use crate::rtweekend::{next_bits, unit_from_bits, unit_from_bits_spec};
use crate::shared::share;
use crate::vec3::{Vec3, dot, dot_spec};
use rand::rngs::SmallRng;

verus! {

/// A sphere whose centre moves along a segment as time runs from 0 to 1.
pub struct Sphere<S: Scalar> {
    /// The centre at time 0, and its displacement until time 1.
    pub center: Ray<S>,
    pub radius: S,
    pub mat: MaterialRef<S>,
    pub bbox: Aabb<S>,
}

/// The lower end of the window in which a ray that leaves a surface looks
/// for its next hit: one thousandth.
pub open spec fn shadow_bias_spec<S: Scalar>() -> S {
    S::from_ratio_spec(1, 1000)
}

/// The window of every ray that the integrator or a light sampler casts:
/// from the bias to infinity.
pub open spec fn forward_window_spec<S: Scalar>() -> Interval<S> {
    Interval { min: shadow_bias_spec::<S>(), max: S::infinity_spec() }
}

pub fn forward_window<S: Scalar>() -> (r: Interval<S>)
    ensures
        r == forward_window_spec::<S>(),
{
    Interval { min: S::from_ratio(1, 1000), max: S::infinity() }
}

/// The two crossings of a ray with a sphere, the earlier one first.
pub struct Crossings<S: Scalar> {
    pub near: S,
    pub far: S,
}

impl<S: Scalar> Sphere<S> {
    /// The radius, or zero where it is negative.
    pub open spec fn held_radius_spec(radius: S) -> S {
        max_spec(radius, zero_spec::<S>())
    }

    pub open spec fn corner_spec(radius: S) -> Vec3<S> {
        Vec3 { e0: radius, e1: radius, e2: radius }
    }

    pub open spec fn box_around_spec(center: Vec3<S>, radius: S) -> Aabb<S> {
        Aabb::from_points_spec(
            center.minus_spec(Self::corner_spec(radius)),
            center.plus_spec(Self::corner_spec(radius)),
        )
    }

    pub open spec fn new_spec(static_center: Vec3<S>, radius: S, mat: MaterialRef<S>) -> Self {
        Sphere {
            center: Ray { orig: static_center, dir: Vec3::<S>::zeros_spec(), tm: zero_spec::<S>() },
            radius: Self::held_radius_spec(radius),
            mat,
            bbox: Self::box_around_spec(static_center, radius),
        }
    }

    /// A sphere at rest.
    pub fn new(static_center: Vec3<S>, radius: S, mat: MaterialRef<S>) -> (r: Self)
        ensures
            r == Self::new_spec(static_center, radius, mat),
    {
        let rvec = Vec3::new(radius, radius, radius);
        let bbox = Aabb::from_points(static_center.minus(rvec), static_center.plus(rvec));
        Sphere {
            center: Ray::new(static_center, Vec3::zeros()),
            radius: max(radius, zero::<S>()),
            mat,
            bbox,
        }
    }

    pub open spec fn new_moving_spec(
        center1: Vec3<S>,
        center2: Vec3<S>,
        radius: S,
        mat: MaterialRef<S>,
    ) -> Self {
        Sphere {
            center: Ray { orig: center1, dir: center2.minus_spec(center1), tm: zero_spec::<S>() },
            radius: Self::held_radius_spec(radius),
            mat,
            bbox: Aabb::from_boxes_spec(
                Self::box_around_spec(center1, radius),
                Self::box_around_spec(center2, radius),
            ),
        }
    }

    /// A sphere that moves from `center1` at time 0 to `center2` at time 1.
    pub fn new_moving(center1: Vec3<S>, center2: Vec3<S>, radius: S, mat: MaterialRef<S>) -> (r:
        Self)
        ensures
            r == Self::new_moving_spec(center1, center2, radius, mat),
    {
        let rvec = Vec3::new(radius, radius, radius);
        let box1 = Aabb::from_points(center1.minus(rvec), center1.plus(rvec));
        let box2 = Aabb::from_points(center2.minus(rvec), center2.plus(rvec));
        let bbox = Aabb::from_boxes(box1, box2);
        Sphere {
            center: Ray::new(center1, center2.minus(center1)),
            radius: max(radius, zero::<S>()),
            mat,
            bbox,
        }
    }

    /// The surface coordinates of the point `p` of the unit sphere: `u` runs
    /// around the second axis, `v` from its lower pole to its upper.
    pub open spec fn get_sphere_uv_spec(p: Vec3<S>) -> (S, S) {
        let theta = p.e1.negate_spec().acos_spec();
        let phi = p.e2.negate_spec().atan2_spec(p.e0).plus_spec(S::pi_spec());
        (
            phi.over_spec(S::from_ratio_spec(2, 1).times_spec(S::pi_spec())),
            theta.over_spec(S::pi_spec()),
        )
    }

    pub fn get_sphere_uv(p: Vec3<S>) -> (r: (S, S))
        ensures
            r == Self::get_sphere_uv_spec(p),
    {
        let theta = p.e1.negate().acos();
        let phi = p.e2.negate().atan2(p.e0).plus(S::pi());
        (phi.over(S::from_ratio(2, 1).times(S::pi())), theta.over(S::pi()))
    }

    /// The direction towards a sphere of the given radius at the given
    /// squared distance along the third axis, for two unit scalars.
    pub open spec fn to_sphere_spec(radius: S, distance_squared: S, r1: S, r2: S) -> Vec3<S> {
        let z = one_spec::<S>().plus_spec(
            r2.times_spec(
                one_spec::<S>().minus_spec(
                    radius.times_spec(radius).over_spec(distance_squared),
                ).sqrt_spec().minus_spec(one_spec::<S>()),
            ),
        );
        let phi = S::from_ratio_spec(2, 1).times_spec(S::pi_spec()).times_spec(r1);
        let s = one_spec::<S>().minus_spec(z.times_spec(z)).sqrt_spec();
        Vec3 { e0: phi.cos_spec().times_spec(s), e1: phi.sin_spec().times_spec(s), e2: z }
    }

    pub fn to_sphere(radius: S, distance_squared: S, r1: S, r2: S) -> (r: Vec3<S>)
        ensures
            r == Self::to_sphere_spec(radius, distance_squared, r1, r2),
    {
        let z = one::<S>().plus(
            r2.times(
                one::<S>().minus(radius.times(radius).over(distance_squared)).sqrt().minus(
                    one::<S>(),
                ),
            ),
        );
        let phi = S::from_ratio(2, 1).times(S::pi()).times(r1);
        let s = one::<S>().minus(z.times(z)).sqrt();
        Vec3 { e0: phi.cos().times(s), e1: phi.sin().times(s), e2: z }
    }

    /// A random direction of the cone under which a sphere is seen.
    pub fn random_to_sphere(rng: &mut SmallRng, radius: S, distance_squared: S) -> (r: Vec3<S>)
        ensures
            exists|b1: u64, b2: u64|
                r == Self::to_sphere_spec(
                    radius,
                    distance_squared,
                    unit_from_bits_spec::<S>(b1),
                    unit_from_bits_spec::<S>(b2),
                ),
    {
        let b1 = next_bits(rng);
        let b2 = next_bits(rng);
        Self::to_sphere(radius, distance_squared, unit_from_bits(b1), unit_from_bits(b2))
    }

    pub open spec fn center_at_spec(&self, r: Ray<S>) -> Vec3<S> {
        self.center.at_spec(r.tm)
    }

    /// The discriminant of the crossing equation; below zero the ray misses.
    pub open spec fn discriminant_spec(&self, r: Ray<S>) -> S {
        let oc = self.center_at_spec(r).minus_spec(r.orig);
        let a = r.dir.length_squared_spec();
        let h = dot_spec(r.dir, oc);
        let c = oc.length_squared_spec().minus_spec(self.radius.times_spec(self.radius));
        h.times_spec(h).minus_spec(a.times_spec(c))
    }

    /// The parameters at which the ray crosses the sphere, ordered.
    pub open spec fn crossings_spec(&self, r: Ray<S>) -> Crossings<S> {
        let oc = self.center_at_spec(r).minus_spec(r.orig);
        let a = r.dir.length_squared_spec();
        let h = dot_spec(r.dir, oc);
        let sqrtd = self.discriminant_spec(r).sqrt_spec();
        let root1 = h.minus_spec(sqrtd).over_spec(a);
        let root2 = h.plus_spec(sqrtd).over_spec(a);
        Crossings { near: min_spec(root1, root2), far: max_spec(root1, root2) }
    }

    /// The record of the crossing at the parameter `root`.
    pub open spec fn record_spec(&self, r: Ray<S>, root: S) -> HitRecord<S> {
        let p = r.at_spec(root);
        let outward_normal = p.minus_spec(self.center_at_spec(r)).over_spec(self.radius);
        let uv = Self::get_sphere_uv_spec(outward_normal);
        HitRecord::new_spec(p, root, r, outward_normal, self.mat, uv.0, uv.1)
    }

    /// The parameter of the first crossing that lies strictly inside the
    /// window.
    pub open spec fn root_spec(&self, r: Ray<S>, ray_t: Interval<S>) -> Option<S> {
        if self.discriminant_spec(r).key() < zero_spec::<S>().key() {
            None
        } else {
            let c = self.crossings_spec(r);
            if ray_t.surrounds_spec(c.near) {
                Some(c.near)
            } else if ray_t.surrounds_spec(c.far) {
                Some(c.far)
            } else {
                None
            }
        }
    }

    /// Where the ray strikes the sphere within the window.
    pub open spec fn hit_spec(&self, r: Ray<S>, ray_t: Interval<S>) -> Option<HitRecord<S>> {
        match self.root_spec(r, ray_t) {
            Some(root) => Some(self.record_spec(r, root)),
            None => None,
        }
    }

    /// The first crossing of the ray with the sphere that lies strictly
    /// inside the window `ray_t`, if there is one. The two crossings are put
    /// in order before they are tried, so that the earlier one is preferred
    /// whatever the arithmetic of the scalars returns.
    pub fn hit(&self, r: &Ray<S>, ray_t: Interval<S>) -> (res: Option<HitRecord<S>>)
        ensures
            res == self.hit_spec(*r, ray_t),
            res matches Some(h) ==> ray_t.surrounds_spec(h.t),
    {
        let current_center = self.center.at(r.time());
        let oc = current_center.minus(r.origin());
        let a = r.direction().length_squared();
        let h = dot(r.direction(), oc);
        let c = oc.length_squared().minus(self.radius.times(self.radius));
        let discriminant = h.times(h).minus(a.times(c));
        if discriminant.lt(zero::<S>()) {
            return None;
        }
        let sqrtd = discriminant.sqrt();
        let root1 = h.minus(sqrtd).over(a);
        let root2 = h.plus(sqrtd).over(a);
        let mut root = min(root1, root2);
        if !ray_t.surrounds(root) {
            root = max(root1, root2);
            if !ray_t.surrounds(root) {
                return None;
            }
        }
        let p = r.at(root);
        let outward_normal = p.minus(current_center).over(self.radius);
        let uv = Self::get_sphere_uv(outward_normal);
        Some(HitRecord::new(p, root, r, outward_normal, share(&self.mat), uv.0, uv.1))
    }

    pub fn bounding_box(&self) -> (r: Aabb<S>)
        ensures
            r == self.bbox,
    {
        self.bbox
    }

    /// The density with which `random` picks `direction` from `origin`:
    /// one over the solid angle of the sphere, and zero for a direction that
    /// misses it.
    pub open spec fn pdf_value_spec(&self, origin: Vec3<S>, direction: Vec3<S>) -> S {
        let ray = Ray { orig: origin, dir: direction, tm: zero_spec::<S>() };
        if self.hit_spec(ray, forward_window_spec::<S>()) is None {
            zero_spec::<S>()
        } else {
            let dist_squared = self.center.at_spec(zero_spec::<S>()).minus_spec(origin)
                .length_squared_spec();
            let cos_theta_max = one_spec::<S>().minus_spec(
                self.radius.times_spec(self.radius).over_spec(dist_squared),
            ).sqrt_spec();
            let solid_angle = S::from_ratio_spec(2, 1).times_spec(S::pi_spec()).times_spec(
                one_spec::<S>().minus_spec(cos_theta_max),
            );
            one_spec::<S>().over_spec(solid_angle)
        }
    }

    pub fn pdf_value(&self, origin: Vec3<S>, direction: Vec3<S>) -> (r: S)
        ensures
            r == self.pdf_value_spec(origin, direction),
    {
        let ray = Ray::new(origin, direction);
        if self.hit(&ray, forward_window::<S>()).is_none() {
            return zero::<S>();
        }
        let dist_squared = self.center.at(zero::<S>()).minus(origin).length_squared();
        let cos_theta_max = one::<S>().minus(self.radius.times(self.radius).over(dist_squared))
            .sqrt();
        let solid_angle = S::from_ratio(2, 1).times(S::pi()).times(
            one::<S>().minus(cos_theta_max),
        );
        one::<S>().over(solid_angle)
    }

    /// The direction from `origin` towards the sphere that two unit scalars
    /// select.
    pub open spec fn random_spec(&self, origin: Vec3<S>, r1: S, r2: S) -> Vec3<S> {
        let direction = self.center.at_spec(zero_spec::<S>()).minus_spec(origin);
        let uvw = Onb {
            axis: [Onb::<S>::u_of(direction), Onb::<S>::v_of(direction), Onb::<S>::w_of(direction)],
        };
        uvw.transform_spec(
            Self::to_sphere_spec(self.radius, direction.length_squared_spec(), r1, r2),
        )
    }

    /// A random direction from `origin` towards the sphere.
    pub fn random(&self, origin: Vec3<S>, rng: &mut SmallRng) -> (r: Vec3<S>)
        ensures
            exists|b1: u64, b2: u64|
                r == self.random_spec(
                    origin,
                    unit_from_bits_spec::<S>(b1),
                    unit_from_bits_spec::<S>(b2),
                ),
    {
        let direction = self.center.at(zero::<S>()).minus(origin);
        let distance_squared = direction.length_squared();
        let uvw = Onb::new(direction);
        assert(uvw.axis =~= [
            Onb::<S>::u_of(direction),
            Onb::<S>::v_of(direction),
            Onb::<S>::w_of(direction),
        ]);
        let d = Self::random_to_sphere(rng, self.radius, distance_squared);
        let r = uvw.transform(d);
        proof {
            let (b1, b2) = choose|b1: u64, b2: u64|
                d == Self::to_sphere_spec(
                    self.radius,
                    distance_squared,
                    unit_from_bits_spec::<S>(b1),
                    unit_from_bits_spec::<S>(b2),
                );
            assert(r == self.random_spec(
                origin,
                unit_from_bits_spec::<S>(b1),
                unit_from_bits_spec::<S>(b2),
            ));
        }
        r
    }
}

} // verus!
