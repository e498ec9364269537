//! Volumes of constant density.

use vstd::prelude::*;
use crate::scalar::{Scalar, zero, zero_spec, one, one_spec};
use crate::aabb::Aabb;
use crate::hittable::{HitRecord, HittableRef};
use crate::interval::Interval;
use crate::material::{Isotropic, MaterialObject, MaterialRef, make_mat};
use crate::ray::Ray;
use crate::rtweekend::{next_bits, unit_from_bits, unit_from_bits_spec};
use crate::shared::share;
use crate::texture::{Texture, TextureRef};
use crate::vec3::{Vec3, first_axis, first_axis_spec};
use rand::rngs::SmallRng;

verus! {

/// A volume of constant density, such as smoke, inside a boundary. A ray
/// that passes through it is scattered at a random depth.
pub struct ConstantMedium<S: Scalar> {
    pub boundary: HittableRef<S>,
    /// Minus one over the density.
    pub neg_inv_density: S,
    pub phase_function: MaterialRef<S>,
}

/// The step beyond the entry at which the exit from a boundary is sought:
/// one ten-thousandth.
pub open spec fn exit_step_spec<S: Scalar>() -> S {
    S::from_ratio_spec(1, 10_000)
}

impl<S: Scalar> ConstantMedium<S> {
    pub open spec fn neg_inv_spec(density: S) -> S {
        one_spec::<S>().negate_spec().over_spec(density)
    }

    /// The volume inside `boundary` with the colours of `tex`.
    pub fn new(boundary: HittableRef<S>, density: S, tex: TextureRef<S>) -> (r: Self)
        ensures
            r.boundary == boundary,
            r.neg_inv_density == Self::neg_inv_spec(density),
            *r.phase_function == MaterialObject::Isotropic(Isotropic { tex }),
    {
        ConstantMedium {
            boundary,
            neg_inv_density: one::<S>().negate().over(density),
            phase_function: make_mat(MaterialObject::Isotropic(Isotropic::from_texture(tex))),
        }
    }

    /// The volume inside `boundary` of one colour.
    pub fn from_color(boundary: HittableRef<S>, density: S, albedo: Vec3<S>) -> (r: Self)
        ensures
            r.boundary == boundary,
            r.neg_inv_density == Self::neg_inv_spec(density),
            *r.phase_function == MaterialObject::Isotropic(Isotropic::new_spec(albedo)),
    {
        ConstantMedium {
            boundary,
            neg_inv_density: one::<S>().negate().over(density),
            phase_function: make_mat(MaterialObject::Isotropic(Isotropic::new(albedo))),
        }
    }

    /// The parameter at which the ray enters the volume, held within the
    /// window.
    pub open spec fn held_spec(ray_t: Interval<S>, t1: S) -> S {
        if t1.key() < ray_t.min.key() {
            ray_t.min
        } else {
            t1
        }
    }

    /// The parameter at which the ray enters the volume, held within the
    /// window and not before the origin of the ray.
    pub open spec fn entry_spec(ray_t: Interval<S>, t1: S) -> S {
        let held = Self::held_spec(ray_t, t1);
        if held.key() < zero_spec::<S>().key() {
            zero_spec::<S>()
        } else {
            held
        }
    }

    /// The parameter at which the ray leaves the volume, held within the
    /// window.
    pub open spec fn exit_spec(ray_t: Interval<S>, t2: S) -> S {
        if t2.key() > ray_t.max.key() {
            ray_t.max
        } else {
            t2
        }
    }

    /// The ray passes no part of the volume inside the window: held within
    /// the window, its entry does not stand before its exit.
    pub open spec fn misses_spec(ray_t: Interval<S>, t1: S, t2: S) -> bool {
        Self::held_spec(ray_t, t1).key() >= Self::exit_spec(ray_t, t2).key()
    }

    /// The parameter at which the ray is scattered, for the unit scalar
    /// `draw`: the depth drawn beyond the entry, held between the entry and
    /// the exit as the window holds them.
    pub open spec fn scatter_t_spec(&self, r: Ray<S>, ray_t: Interval<S>, t1: S, t2: S, draw: S)
        -> S {
        (Interval { min: Self::held_spec(ray_t, t1), max: Self::exit_spec(ray_t, t2) }).clamp_spec(
            Self::entry_spec(ray_t, t1).plus_spec(
                self.hit_distance_spec(draw).over_spec(r.dir.length_spec()),
            ),
        )
    }

    /// The depth at which the ray is scattered, for the unit scalar `draw`.
    pub open spec fn hit_distance_spec(&self, draw: S) -> S {
        self.neg_inv_density.times_spec(draw.ln_spec())
    }

    /// What becomes of a ray that crosses the boundary at the parameters
    /// `t1` and `t2`, for the unit scalar `draw`: it is scattered where the
    /// depth drawn does not exceed its way through the volume.
    pub open spec fn scatter_within_spec(&self, r: Ray<S>, ray_t: Interval<S>, t1: S, t2: S, draw: S)
        -> Option<HitRecord<S>> {
        if Self::misses_spec(ray_t, t1, t2) {
            None
        } else {
            let entry = Self::entry_spec(ray_t, t1);
            let ray_length = r.dir.length_spec();
            let distance_inside_boundary = Self::exit_spec(ray_t, t2).minus_spec(entry).times_spec(
                ray_length,
            );
            let hit_distance = self.hit_distance_spec(draw);
            if hit_distance.key() > distance_inside_boundary.key() {
                None
            } else {
                let t = self.scatter_t_spec(r, ray_t, t1, t2, draw);
                Some(
                    HitRecord {
                        p: r.at_spec(t),
                        normal: first_axis_spec::<S>(),
                        mat: self.phase_function,
                        t,
                        u: zero_spec::<S>(),
                        v: zero_spec::<S>(),
                        front_face: true,
                    },
                )
            }
        }
    }

    /// Decides, for a ray that crosses the boundary at `t1` and `t2` and for
    /// a given draw, whether and where the volume scatters it.
    pub fn scatter_within(&self, r: &Ray<S>, ray_t: Interval<S>, t1: S, t2: S, draw: S) -> (res:
        Option<HitRecord<S>>)
        ensures
            res == self.scatter_within_spec(*r, ray_t, t1, t2, draw),
            res matches Some(h) ==> ray_t.contains_spec(h.t),
    {
        let mut t1 = t1;
        let mut t2 = t2;
        if t1.lt(ray_t.min) {
            t1 = ray_t.min;
        }
        if ray_t.max.lt(t2) {
            t2 = ray_t.max;
        }
        if t2.le(t1) {
            return None;
        }
        let between = Interval::new(t1, t2);
        if t1.lt(zero::<S>()) {
            t1 = zero::<S>();
        }
        let ray_length = r.direction().length();
        let distance_inside_boundary = t2.minus(t1).times(ray_length);
        let hit_distance = self.neg_inv_density.times(draw.ln());
        if distance_inside_boundary.lt(hit_distance) {
            return None;
        }
        let t = between.clamp(t1.plus(hit_distance.over(ray_length)));
        let p = r.at(t);
        Some(
            HitRecord {
                p,
                normal: first_axis::<S>(),
                mat: share(&self.phase_function),
                t,
                u: zero::<S>(),
                v: zero::<S>(),
                front_face: true,
            },
        )
    }

    /// The window in which the exit is sought, after an entry at `t1`.
    pub open spec fn exit_window_spec(t1: S) -> Interval<S> {
        Interval { min: t1.plus_spec(exit_step_spec::<S>()), max: S::infinity_spec() }
    }

    /// What the volume answers where the boundary answers `first` to the ray
    /// and `second` beyond the entry, for the draw `bits`: nothing where the ray
    /// does not enter and leave the boundary, else what `scatter_within_spec`
    /// says.
    pub open spec fn answer_spec(
        &self,
        r: Ray<S>,
        ray_t: Interval<S>,
        first: Option<HitRecord<S>>,
        second: Option<HitRecord<S>>,
        bits: u64,
    ) -> Option<HitRecord<S>> {
        match (first, second) {
            (Some(rec1), Some(rec2)) => self.scatter_within_spec(
                r,
                ray_t,
                rec1.t,
                rec2.t,
                unit_from_bits_spec::<S>(bits),
            ),
            _ => None,
        }
    }

    /// The answer `res` is one that the volume can give to the ray: for an
    /// answer `first` of the boundary in the whole line, an answer `second` of
    /// the boundary beyond that entry, and some draw, it is `answer_spec`.
    pub open spec fn can_answer(&self, r: Ray<S>, ray_t: Interval<S>, res: Option<HitRecord<S>>)
        -> bool
        decreases self, 0nat,
    {
        exists|first: Option<HitRecord<S>>, second: Option<HitRecord<S>>, bits: u64|
            self.boundary.can_answer(r, Interval::<S>::universe_spec(), first) && (first matches Some(
                rec1,
            ) ==> self.boundary.can_answer(r, Self::exit_window_spec(rec1.t), second)) && res
                == #[trigger] self.answer_spec(r, ray_t, first, second, bits)
    }

    /// Where the volume scatters the ray, if it does: the ray has to enter
    /// and leave the boundary, and the depth drawn has to lie within the
    /// volume and the window.
    pub fn hit(&self, r: &Ray<S>, ray_t: Interval<S>, rng: &mut SmallRng) -> (res: Option<
        HitRecord<S>,
    >)
        ensures
            self.can_answer(*r, ray_t, res),
            res matches Some(h) ==> ray_t.contains_spec(h.t),
        decreases self,
    {
        let first = self.boundary.hit(r, Interval::universe(), rng);
        let ghost seen_first = first;
        let rec1 = match first {
            Some(rec) => rec,
            None => {
                assert(None::<HitRecord<S>> == self.answer_spec(*r, ray_t, seen_first, None, 0));
                return None;
            },
        };
        let after = Interval::new(rec1.t.plus(S::from_ratio(1, 10_000)), S::infinity());
        let second = self.boundary.hit(r, after, rng);
        let ghost seen_second = second;
        let rec2 = match second {
            Some(rec) => rec,
            None => {
                assert(None::<HitRecord<S>> == self.answer_spec(
                    *r,
                    ray_t,
                    seen_first,
                    seen_second,
                    0,
                ));
                return None;
            },
        };
        let bits = next_bits(rng);
        let res = self.scatter_within(r, ray_t, rec1.t, rec2.t, unit_from_bits(bits));
        assert(res == self.answer_spec(*r, ray_t, seen_first, seen_second, bits));
        res
    }

    pub fn bounding_box(&self) -> (r: Aabb<S>)
        ensures
            r == self.boundary.bounding_box_spec(),
        decreases self,
    {
        self.boundary.bounding_box()
    }
}

} // verus!
