//! Vectors of three scalars, and the random directions that the renderer draws.

use vstd::prelude::*;
use crate::scalar::{Scalar, zero, zero_spec, one, one_spec};
use crate::rtweekend::{next_bits, unit_from_bits, unit_from_bits_spec, spread, spread_spec};
use rand::rngs::SmallRng;

verus! {

/// A vector of three scalars; also a point in space and a colour.
#[derive(Clone, Copy)]
pub struct Vec3<S: Scalar> {
    pub e0: S,
    pub e1: S,
    pub e2: S,
}

/// How often a rejection sampler draws before it falls back on a fixed value.
pub const SAMPLE_ATTEMPTS: usize = 256;

impl<S: Scalar> Vec3<S> {
    pub fn new(e0: S, e1: S, e2: S) -> (r: Self)
        ensures
            r == (Vec3 { e0, e1, e2 }),
    {
        Vec3 { e0, e1, e2 }
    }

    pub fn x(self) -> (r: S)
        ensures
            r == self.e0,
    {
        self.e0
    }

    pub fn y(self) -> (r: S)
        ensures
            r == self.e1,
    {
        self.e1
    }

    pub fn z(self) -> (r: S)
        ensures
            r == self.e2,
    {
        self.e2
    }

    /// The component on axis `i`: 0, 1 or 2.
    pub open spec fn axis_spec(self, i: int) -> S {
        if i == 0 {
            self.e0
        } else if i == 1 {
            self.e1
        } else {
            self.e2
        }
    }

    pub fn axis(self, i: usize) -> (r: S)
        requires
            i < 3,
        ensures
            r == self.axis_spec(i as int),
    {
        if i == 0 {
            self.e0
        } else if i == 1 {
            self.e1
        } else {
            self.e2
        }
    }

    pub open spec fn zeros_spec() -> Self {
        Vec3 { e0: zero_spec(), e1: zero_spec(), e2: zero_spec() }
    }

    pub fn zeros() -> (r: Self)
        ensures
            r == Self::zeros_spec(),
    {
        Vec3 { e0: zero(), e1: zero(), e2: zero() }
    }

    pub open spec fn length_squared_spec(self) -> S {
        self.e0.times_spec(self.e0).plus_spec(self.e1.times_spec(self.e1)).plus_spec(
            self.e2.times_spec(self.e2),
        )
    }

    pub fn length_squared(self) -> (r: S)
        ensures
            r == self.length_squared_spec(),
    {
        self.e0.times(self.e0).plus(self.e1.times(self.e1)).plus(self.e2.times(self.e2))
    }

    pub open spec fn length_spec(self) -> S {
        self.length_squared_spec().sqrt_spec()
    }

    pub fn length(self) -> (r: S)
        ensures
            r == self.length_spec(),
    {
        self.length_squared().sqrt()
    }

    /// Every component is closer to zero than 10⁻⁸.
    pub open spec fn near_zero_spec(self) -> bool {
        let s = S::from_ratio_spec(1, 100_000_000);
        self.e0.abs_spec().key() < s.key() && self.e1.abs_spec().key() < s.key()
            && self.e2.abs_spec().key() < s.key()
    }

    pub fn near_zero(self) -> (r: bool)
        ensures
            r == self.near_zero_spec(),
    {
        let s = S::from_ratio(1, 100_000_000);
        self.e0.abs().lt(s) && self.e1.abs().lt(s) && self.e2.abs().lt(s)
    }

    /// The vector whose components are the unit scalars of three draws.
    pub open spec fn from_bits_spec(b0: u64, b1: u64, b2: u64) -> Self {
        Vec3 {
            e0: unit_from_bits_spec::<S>(b0),
            e1: unit_from_bits_spec::<S>(b1),
            e2: unit_from_bits_spec::<S>(b2),
        }
    }

    /// A vector with each component random in `[0, 1)`.
    pub fn random(rng: &mut SmallRng) -> (r: Self)
        ensures
            exists|b0: u64, b1: u64, b2: u64| r == Self::from_bits_spec(b0, b1, b2),
    {
        let b0 = next_bits(rng);
        let b1 = next_bits(rng);
        let b2 = next_bits(rng);
        let r = Vec3 { e0: unit_from_bits(b0), e1: unit_from_bits(b1), e2: unit_from_bits(b2) };
        assert(r == Self::from_bits_spec(b0, b1, b2));
        r
    }

    /// The vector of three draws, each spread over `[min, max)`.
    pub open spec fn from_bits_range_spec(min: S, max: S, b0: u64, b1: u64, b2: u64) -> Self {
        Vec3 {
            e0: spread_spec(min, max, unit_from_bits_spec::<S>(b0)),
            e1: spread_spec(min, max, unit_from_bits_spec::<S>(b1)),
            e2: spread_spec(min, max, unit_from_bits_spec::<S>(b2)),
        }
    }

    /// A vector with each component random in `[min, max)`.
    pub fn random_range(rng: &mut SmallRng, min: S, max: S) -> (r: Self)
        ensures
            exists|b0: u64, b1: u64, b2: u64| r == Self::from_bits_range_spec(min, max, b0, b1, b2),
    {
        let b0 = next_bits(rng);
        let b1 = next_bits(rng);
        let b2 = next_bits(rng);
        let r = Vec3 {
            e0: spread(min, max, unit_from_bits(b0)),
            e1: spread(min, max, unit_from_bits(b1)),
            e2: spread(min, max, unit_from_bits(b2)),
        };
        assert(r == Self::from_bits_range_spec(min, max, b0, b1, b2));
        r
    }

    pub open spec fn negate_spec(self) -> Self {
        Vec3 { e0: self.e0.negate_spec(), e1: self.e1.negate_spec(), e2: self.e2.negate_spec() }
    }

    pub fn negate(self) -> (r: Self)
        ensures
            r == self.negate_spec(),
    {
        Vec3 { e0: self.e0.negate(), e1: self.e1.negate(), e2: self.e2.negate() }
    }

    pub open spec fn plus_spec(self, rhs: Self) -> Self {
        Vec3 {
            e0: self.e0.plus_spec(rhs.e0),
            e1: self.e1.plus_spec(rhs.e1),
            e2: self.e2.plus_spec(rhs.e2),
        }
    }

    pub fn plus(self, rhs: Self) -> (r: Self)
        ensures
            r == self.plus_spec(rhs),
    {
        Vec3 { e0: self.e0.plus(rhs.e0), e1: self.e1.plus(rhs.e1), e2: self.e2.plus(rhs.e2) }
    }

    pub open spec fn minus_spec(self, rhs: Self) -> Self {
        Vec3 {
            e0: self.e0.minus_spec(rhs.e0),
            e1: self.e1.minus_spec(rhs.e1),
            e2: self.e2.minus_spec(rhs.e2),
        }
    }

    pub fn minus(self, rhs: Self) -> (r: Self)
        ensures
            r == self.minus_spec(rhs),
    {
        Vec3 { e0: self.e0.minus(rhs.e0), e1: self.e1.minus(rhs.e1), e2: self.e2.minus(rhs.e2) }
    }

    /// The product, component by component.
    pub open spec fn times_spec(self, rhs: Self) -> Self {
        Vec3 {
            e0: self.e0.times_spec(rhs.e0),
            e1: self.e1.times_spec(rhs.e1),
            e2: self.e2.times_spec(rhs.e2),
        }
    }

    pub fn times(self, rhs: Self) -> (r: Self)
        ensures
            r == self.times_spec(rhs),
    {
        Vec3 { e0: self.e0.times(rhs.e0), e1: self.e1.times(rhs.e1), e2: self.e2.times(rhs.e2) }
    }

    /// `self` with every component multiplied by `t`; the factor stands on
    /// the right of each product.
    pub open spec fn scale_spec(self, t: S) -> Self {
        Vec3 { e0: self.e0.times_spec(t), e1: self.e1.times_spec(t), e2: self.e2.times_spec(t) }
    }

    pub fn scale(self, t: S) -> (r: Self)
        ensures
            r == self.scale_spec(t),
    {
        Vec3 { e0: self.e0.times(t), e1: self.e1.times(t), e2: self.e2.times(t) }
    }

    /// `self` divided by `t`: scaled by the reciprocal of `t`.
    pub open spec fn over_spec(self, t: S) -> Self {
        self.scale_spec(one_spec::<S>().over_spec(t))
    }

    pub fn over(self, t: S) -> (r: Self)
        ensures
            r == self.over_spec(t),
    {
        self.scale(one::<S>().over(t))
    }
}

pub open spec fn dot_spec<S: Scalar>(u: Vec3<S>, v: Vec3<S>) -> S {
    u.e0.times_spec(v.e0).plus_spec(u.e1.times_spec(v.e1)).plus_spec(u.e2.times_spec(v.e2))
}

pub fn dot<S: Scalar>(u: Vec3<S>, v: Vec3<S>) -> (r: S)
    ensures
        r == dot_spec(u, v),
{
    u.e0.times(v.e0).plus(u.e1.times(v.e1)).plus(u.e2.times(v.e2))
}

pub open spec fn cross_spec<S: Scalar>(u: Vec3<S>, v: Vec3<S>) -> Vec3<S> {
    Vec3 {
        e0: u.e1.times_spec(v.e2).minus_spec(u.e2.times_spec(v.e1)),
        e1: u.e2.times_spec(v.e0).minus_spec(u.e0.times_spec(v.e2)),
        e2: u.e0.times_spec(v.e1).minus_spec(u.e1.times_spec(v.e0)),
    }
}

pub fn cross<S: Scalar>(u: Vec3<S>, v: Vec3<S>) -> (r: Vec3<S>)
    ensures
        r == cross_spec(u, v),
{
    Vec3 {
        e0: u.e1.times(v.e2).minus(u.e2.times(v.e1)),
        e1: u.e2.times(v.e0).minus(u.e0.times(v.e2)),
        e2: u.e0.times(v.e1).minus(u.e1.times(v.e0)),
    }
}

pub open spec fn unit_vector_spec<S: Scalar>(v: Vec3<S>) -> Vec3<S> {
    v.over_spec(v.length_spec())
}

pub fn unit_vector<S: Scalar>(v: Vec3<S>) -> (r: Vec3<S>)
    ensures
        r == unit_vector_spec(v),
{
    v.over(v.length())
}

/// The point of the square `[-1, 1) x [-1, 1)` that two draws select.
pub open spec fn disk_candidate_spec<S: Scalar>(b0: u64, b1: u64) -> Vec3<S> {
    let low = one_spec::<S>().negate_spec();
    Vec3 {
        e0: spread_spec(low, one_spec::<S>(), unit_from_bits_spec::<S>(b0)),
        e1: spread_spec(low, one_spec::<S>(), unit_from_bits_spec::<S>(b1)),
        e2: zero_spec::<S>(),
    }
}

/// A candidate lies in the unit disk: its squared length is below one.
pub open spec fn in_unit_disk<S: Scalar>(p: Vec3<S>) -> bool {
    p.length_squared_spec().key() < one_spec::<S>().key()
}

/// A random point of the unit disk in the plane `z = 0`: the first candidate
/// of the square around it that lies in the disk. The centre of the disk
/// stands in after `SAMPLE_ATTEMPTS` rejected candidates.
pub fn random_in_unit_disk<S: Scalar>(rng: &mut SmallRng) -> (r: Vec3<S>)
    ensures
        r == Vec3::<S>::zeros_spec() || exists|b0: u64, b1: u64|
            r == disk_candidate_spec::<S>(b0, b1) && in_unit_disk(r),
{
    let mut attempt: usize = 0;
    while attempt < SAMPLE_ATTEMPTS
        invariant
            attempt <= SAMPLE_ATTEMPTS,
        decreases SAMPLE_ATTEMPTS - attempt,
    {
        let b0 = next_bits(rng);
        let b1 = next_bits(rng);
        let low = one::<S>().negate();
        let p = Vec3 {
            e0: spread(low, one::<S>(), unit_from_bits(b0)),
            e1: spread(low, one::<S>(), unit_from_bits(b1)),
            e2: zero::<S>(),
        };
        if p.length_squared().lt(one::<S>()) {
            assert(p == disk_candidate_spec::<S>(b0, b1));
            return p;
        }
        attempt += 1;
    }
    Vec3::zeros()
}

/// The smallest squared length from which a candidate is normalised: ten
/// factors of 10⁻¹⁶.
pub open spec fn tiny_spec<S: Scalar>() -> S {
    let f = S::from_ratio_spec(1, 10_000_000_000_000_000);
    let f2 = f.times_spec(f);
    let f4 = f2.times_spec(f2);
    let f8 = f4.times_spec(f4);
    f8.times_spec(f2)
}

pub fn tiny<S: Scalar>() -> (r: S)
    ensures
        r == tiny_spec::<S>(),
{
    let f = S::from_ratio(1, 10_000_000_000_000_000);
    let f2 = f.times(f);
    let f4 = f2.times(f2);
    let f8 = f4.times(f4);
    f8.times(f2)
}

/// The candidate can be normalised: its squared length lies in `(tiny, 1]`.
pub open spec fn in_unit_ball<S: Scalar>(p: Vec3<S>) -> bool {
    let lensq = p.length_squared_spec();
    tiny_spec::<S>().key() < lensq.key() && lensq.key() <= one_spec::<S>().key()
}

/// The candidate `p` brought to length one.
pub open spec fn normalized_spec<S: Scalar>(p: Vec3<S>) -> Vec3<S> {
    p.over_spec(p.length_squared_spec().sqrt_spec())
}

/// The first axis, which stands in where a sampler gives up.
pub open spec fn first_axis_spec<S: Scalar>() -> Vec3<S> {
    Vec3 { e0: one_spec::<S>(), e1: zero_spec::<S>(), e2: zero_spec::<S>() }
}

pub fn first_axis<S: Scalar>() -> (r: Vec3<S>)
    ensures
        r == first_axis_spec::<S>(),
{
    Vec3 { e0: one::<S>(), e1: zero::<S>(), e2: zero::<S>() }
}

/// The point of the cube `[-1, 1)³` that three draws select.
pub open spec fn ball_candidate_spec<S: Scalar>(b0: u64, b1: u64, b2: u64) -> Vec3<S> {
    Vec3::<S>::from_bits_range_spec(one_spec::<S>().negate_spec(), one_spec::<S>(), b0, b1, b2)
}

/// `r` is a direction that the rejection sampler of the unit sphere can
/// return: a normalised candidate of the cube `[-1, 1)³` that lies in the unit
/// ball, or the first axis.
pub open spec fn is_unit_sample<S: Scalar>(r: Vec3<S>) -> bool {
    r == first_axis_spec::<S>() || exists|b0: u64, b1: u64, b2: u64|
        in_unit_ball(#[trigger] ball_candidate_spec::<S>(b0, b1, b2)) && r == normalized_spec(
            ball_candidate_spec::<S>(b0, b1, b2),
        )
}

/// A random direction of length one: the first candidate of the cube around
/// the unit ball that lies in the ball, normalised. The first axis stands in
/// after `SAMPLE_ATTEMPTS` rejected candidates.
pub fn random_unit_vector<S: Scalar>(rng: &mut SmallRng) -> (r: Vec3<S>)
    ensures
        is_unit_sample(r),
{
    let mut attempt: usize = 0;
    while attempt < SAMPLE_ATTEMPTS
        invariant
            attempt <= SAMPLE_ATTEMPTS,
        decreases SAMPLE_ATTEMPTS - attempt,
    {
        let b0 = next_bits(rng);
        let b1 = next_bits(rng);
        let b2 = next_bits(rng);
        let low = one::<S>().negate();
        let p = Vec3 {
            e0: spread(low, one::<S>(), unit_from_bits(b0)),
            e1: spread(low, one::<S>(), unit_from_bits(b1)),
            e2: spread(low, one::<S>(), unit_from_bits(b2)),
        };
        let lensq = p.length_squared();
        if tiny::<S>().lt(lensq) && lensq.le(one::<S>()) {
            let r = p.over(lensq.sqrt());
            assert(p == ball_candidate_spec::<S>(b0, b1, b2));
            assert(in_unit_ball(p) && r == normalized_spec(p));
            return r;
        }
        attempt += 1;
    }
    first_axis()
}

/// `v`, turned to the side of `normal` where it points away from it.
pub open spec fn toward_spec<S: Scalar>(v: Vec3<S>, normal: Vec3<S>) -> Vec3<S> {
    if dot_spec(v, normal).key() > zero_spec::<S>().key() {
        v
    } else {
        v.negate_spec()
    }
}

/// A random unit direction in the hemisphere around `normal`.
pub fn random_on_hemisphere<S: Scalar>(rng: &mut SmallRng, normal: Vec3<S>) -> (r: Vec3<S>)
    ensures
        exists|v: Vec3<S>| is_unit_sample(v) && r == toward_spec(v, normal),
{
    let on_unit_sphere = random_unit_vector(rng);
    if zero::<S>().lt(dot(on_unit_sphere, normal)) {
        on_unit_sphere
    } else {
        on_unit_sphere.negate()
    }
}

/// The direction around the third axis that the unit scalars `r1` and `r2`
/// select, with a density proportional to the cosine of its angle to that axis.
pub open spec fn cosine_direction_spec<S: Scalar>(r1: S, r2: S) -> Vec3<S> {
    let phi = S::from_ratio_spec(2, 1).times_spec(S::pi_spec()).times_spec(r1);
    Vec3 {
        e0: phi.cos_spec().times_spec(r2.sqrt_spec()),
        e1: phi.sin_spec().times_spec(r2.sqrt_spec()),
        e2: one_spec::<S>().minus_spec(r2).sqrt_spec(),
    }
}

pub fn cosine_direction<S: Scalar>(r1: S, r2: S) -> (r: Vec3<S>)
    ensures
        r == cosine_direction_spec(r1, r2),
{
    let phi = S::from_ratio(2, 1).times(S::pi()).times(r1);
    Vec3 {
        e0: phi.cos().times(r2.sqrt()),
        e1: phi.sin().times(r2.sqrt()),
        e2: one::<S>().minus(r2).sqrt(),
    }
}

/// A random direction around the third axis, cosine-weighted.
pub fn random_cosine_direction<S: Scalar>(rng: &mut SmallRng) -> (r: Vec3<S>)
    ensures
        exists|b1: u64, b2: u64|
            r == cosine_direction_spec(unit_from_bits_spec::<S>(b1), unit_from_bits_spec::<S>(b2)),
{
    let b1 = next_bits(rng);
    let b2 = next_bits(rng);
    cosine_direction(unit_from_bits(b1), unit_from_bits(b2))
}

/// `v` mirrored at the plane with normal `n`.
pub open spec fn reflect_spec<S: Scalar>(v: Vec3<S>, n: Vec3<S>) -> Vec3<S> {
    v.minus_spec(n.scale_spec(S::from_ratio_spec(2, 1).times_spec(dot_spec(v, n))))
}

pub fn reflect<S: Scalar>(v: Vec3<S>, n: Vec3<S>) -> (r: Vec3<S>)
    ensures
        r == reflect_spec(v, n),
{
    v.minus(n.scale(S::from_ratio(2, 1).times(dot(v, n))))
}

/// The unit direction `uv` bent at a surface with normal `n`, by Snell's law
/// with the ratio `etai_over_etat` of the refractive indices.
pub open spec fn refract_spec<S: Scalar>(uv: Vec3<S>, n: Vec3<S>, etai_over_etat: S) -> Vec3<S> {
    let cos_theta = crate::scalar::min_spec(dot_spec(uv, n).negate_spec(), one_spec::<S>());
    let r_out_perp = uv.plus_spec(n.scale_spec(cos_theta)).scale_spec(etai_over_etat);
    let r_out_parallel = n.scale_spec(
        one_spec::<S>().minus_spec(r_out_perp.length_squared_spec()).abs_spec().sqrt_spec()
            .negate_spec(),
    );
    r_out_perp.plus_spec(r_out_parallel)
}

pub fn refract<S: Scalar>(uv: Vec3<S>, n: Vec3<S>, etai_over_etat: S) -> (r: Vec3<S>)
    ensures
        r == refract_spec(uv, n, etai_over_etat),
{
    let cos_theta = crate::scalar::min(dot(uv, n).negate(), one::<S>());
    let r_out_perp = uv.plus(n.scale(cos_theta)).scale(etai_over_etat);
    let r_out_parallel = n.scale(
        one::<S>().minus(r_out_perp.length_squared()).abs().sqrt().negate(),
    );
    r_out_perp.plus(r_out_parallel)
}

} // verus!
