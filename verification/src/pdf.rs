//! Distributions over directions, from which the integrator samples.

use vstd::prelude::*;
use crate::scalar::{Scalar, zero, zero_spec, one, one_spec};
use crate::hittable::HittableRef;
use crate::onb::Onb;
use crate::rtweekend::{next_bits, unit_from_bits, unit_from_bits_spec};
use crate::vec3::{
    Vec3, cosine_direction_spec, dot, dot_spec, is_unit_sample, random_cosine_direction,
    random_unit_vector, unit_vector, unit_vector_spec,
};
use rand::rngs::SmallRng;
use std::sync::Arc;

verus! {

/// The uniform distribution over all directions.
pub struct SpherePdf;

/// The cosine-weighted distribution around the third vector of a basis.
pub struct CosinePdf<S: Scalar> {
    pub uvw: Onb<S>,
}

/// The distribution of the directions from `origin` towards an object, as
/// the object itself samples them.
pub struct HittablePdf<S: Scalar> {
    pub objects: HittableRef<S>,
    pub origin: Vec3<S>,
}

/// An even blend of two distributions.
pub struct MixturePdf<S: Scalar> {
    pub p0: PdfRef<S>,
    pub p1: PdfRef<S>,
}

/// A distribution over directions, from which the integrator samples.
pub enum PdfObject<S: Scalar> {
    SpherePdf(SpherePdf),
    CosinePdf(CosinePdf<S>),
    HittablePdf(HittablePdf<S>),
    MixturePdf(MixturePdf<S>),
}

pub type PdfRef<S> = Arc<PdfObject<S>>;

/// A shared distribution.
pub fn make_pdf<S: Scalar>(pdf: PdfObject<S>) -> (r: PdfRef<S>)
    ensures
        *r == pdf,
{
    Arc::new(pdf)
}

impl SpherePdf {
    /// One over the area of the unit sphere.
    pub open spec fn value_spec<S: Scalar>() -> S {
        one_spec::<S>().over_spec(S::from_ratio_spec(4, 1).times_spec(S::pi_spec()))
    }

    pub fn value<S: Scalar>(&self, direction: Vec3<S>) -> (r: S)
        ensures
            r == Self::value_spec::<S>(),
    {
        one::<S>().over(S::from_ratio(4, 1).times(S::pi()))
    }

    pub fn generate<S: Scalar>(&self, rng: &mut SmallRng) -> (r: Vec3<S>)
        ensures
            is_unit_sample(r),
    {
        random_unit_vector(rng)
    }
}

impl<S: Scalar> CosinePdf<S> {
    pub fn new(w: Vec3<S>) -> (r: Self)
        ensures
            r.uvw.axis@ == seq![Onb::<S>::u_of(w), Onb::<S>::v_of(w), Onb::<S>::w_of(w)],
    {
        CosinePdf { uvw: Onb::new(w) }
    }

    /// The cosine of the angle between `direction` and the axis, over pi;
    /// zero from a right angle on.
    pub open spec fn value_spec(&self, direction: Vec3<S>) -> S {
        let cosine_theta = dot_spec(unit_vector_spec(direction), self.uvw.axis[2]);
        if cosine_theta.key() <= zero_spec::<S>().key() {
            zero_spec::<S>()
        } else {
            cosine_theta.over_spec(S::pi_spec())
        }
    }

    pub fn value(&self, direction: Vec3<S>) -> (r: S)
        ensures
            r == self.value_spec(direction),
    {
        let cosine_theta = dot(unit_vector(direction), self.uvw.w());
        if cosine_theta.le(zero::<S>()) {
            zero::<S>()
        } else {
            cosine_theta.over(S::pi())
        }
    }

    /// The direction that two unit scalars select.
    pub open spec fn generate_spec(&self, r1: S, r2: S) -> Vec3<S> {
        self.uvw.transform_spec(cosine_direction_spec(r1, r2))
    }

    pub fn generate(&self, rng: &mut SmallRng) -> (r: Vec3<S>)
        ensures
            exists|b1: u64, b2: u64|
                r == self.generate_spec(unit_from_bits_spec::<S>(b1), unit_from_bits_spec::<S>(b2)),
    {
        let d = random_cosine_direction(rng);
        let r = self.uvw.transform(d);
        proof {
            let (b1, b2) = choose|b1: u64, b2: u64|
                d == cosine_direction_spec(
                    unit_from_bits_spec::<S>(b1),
                    unit_from_bits_spec::<S>(b2),
                );
            assert(r == self.generate_spec(
                unit_from_bits_spec::<S>(b1),
                unit_from_bits_spec::<S>(b2),
            ));
        }
        r
    }
}

impl<S: Scalar> HittablePdf<S> {
    pub fn new(objects: HittableRef<S>, origin: Vec3<S>) -> (r: Self)
        ensures
            r.objects == objects,
            r.origin == origin,
    {
        HittablePdf { objects, origin }
    }

    pub fn value(&self, direction: Vec3<S>) -> (r: S)
        ensures
            r == self.objects.pdf_value_spec(self.origin, direction),
    {
        self.objects.pdf_value(self.origin, direction)
    }

    pub fn generate(&self, rng: &mut SmallRng) -> (r: Vec3<S>)
        ensures
            self.objects.can_sample(self.origin, r),
    {
        self.objects.random(self.origin, rng)
    }
}

/// One half.
pub open spec fn half_spec<S: Scalar>() -> S {
    S::from_ratio_spec(1, 2)
}

impl<S: Scalar> MixturePdf<S> {
    pub fn new(p0: PdfRef<S>, p1: PdfRef<S>) -> (r: Self)
        ensures
            r.p0 == p0,
            r.p1 == p1,
    {
        MixturePdf { p0, p1 }
    }

    /// The blend of two densities, each with the weight one half.
    pub open spec fn blend_spec(v0: S, v1: S) -> S {
        half_spec::<S>().times_spec(v0).plus_spec(half_spec::<S>().times_spec(v1))
    }

    pub fn blend(v0: S, v1: S) -> (r: S)
        ensures
            r == Self::blend_spec(v0, v1),
    {
        S::from_ratio(1, 2).times(v0).plus(S::from_ratio(1, 2).times(v1))
    }

    /// The draw selects the first distribution: it lies below one half.
    pub open spec fn picks_first_spec(draw: S) -> bool {
        draw.key() < half_spec::<S>().key()
    }

    pub fn picks_first(draw: S) -> (r: bool)
        ensures
            r == Self::picks_first_spec(draw),
    {
        draw.lt(S::from_ratio(1, 2))
    }

    /// The density of `direction`: the blend of the densities of both parts.
    pub open spec fn value_spec(&self, direction: Vec3<S>) -> S
        decreases self, 0nat,
    {
        Self::blend_spec(self.p0.value_spec(direction), self.p1.value_spec(direction))
    }

    pub fn value(&self, direction: Vec3<S>) -> (r: S)
        ensures
            r == self.value_spec(direction),
        decreases self,
    {
        let v0 = self.p0.value(direction);
        let v1 = self.p1.value(direction);
        Self::blend(v0, v1)
    }

    /// A random direction: of the first part where a unit draw lies below
    /// one half, else of the second.
    pub fn generate(&self, rng: &mut SmallRng) -> (r: Vec3<S>)
        ensures
            self.p0.can_generate(r) || self.p1.can_generate(r),
        decreases self,
    {
        let bits = next_bits(rng);
        if Self::picks_first(unit_from_bits(bits)) {
            self.p0.generate(rng)
        } else {
            self.p1.generate(rng)
        }
    }
}

impl<S: Scalar> PdfObject<S> {
    /// The cosine-weighted distribution around `w`.
    pub open spec fn cosine_spec(w: Vec3<S>) -> Self {
        PdfObject::CosinePdf(
            CosinePdf {
                uvw: Onb { axis: [Onb::<S>::u_of(w), Onb::<S>::v_of(w), Onb::<S>::w_of(w)] },
            },
        )
    }

    pub fn cosine(w: Vec3<S>) -> (r: Self)
        ensures
            r == Self::cosine_spec(w),
    {
        let c = CosinePdf::new(w);
        assert(c.uvw.axis =~= [Onb::<S>::u_of(w), Onb::<S>::v_of(w), Onb::<S>::w_of(w)]);
        PdfObject::CosinePdf(c)
    }

    /// The density of `direction`.
    pub open spec fn value_spec(&self, direction: Vec3<S>) -> S
        decreases self, 1nat,
    {
        match self {
            PdfObject::SpherePdf(_) => SpherePdf::value_spec::<S>(),
            PdfObject::CosinePdf(pdf) => pdf.value_spec(direction),
            PdfObject::HittablePdf(pdf) => pdf.objects.pdf_value_spec(pdf.origin, direction),
            PdfObject::MixturePdf(pdf) => pdf.value_spec(direction),
        }
    }

    pub fn value(&self, direction: Vec3<S>) -> (r: S)
        ensures
            r == self.value_spec(direction),
        decreases self,
    {
        match self {
            PdfObject::SpherePdf(pdf) => pdf.value(direction),
            PdfObject::CosinePdf(pdf) => pdf.value(direction),
            PdfObject::HittablePdf(pdf) => pdf.value(direction),
            PdfObject::MixturePdf(pdf) => pdf.value(direction),
        }
    }

    /// `r` is a direction that the distribution can produce: a sample of
    /// the unit sphere, a cosine-weighted direction of two draws, a direction
    /// that the object samples, or a direction of either part of a mixture.
    pub open spec fn can_generate(&self, r: Vec3<S>) -> bool
        decreases self,
    {
        match self {
            PdfObject::SpherePdf(_) => is_unit_sample(r),
            PdfObject::CosinePdf(pdf) => exists|b1: u64, b2: u64|
                r == pdf.generate_spec(unit_from_bits_spec::<S>(b1), unit_from_bits_spec::<S>(b2)),
            PdfObject::HittablePdf(pdf) => pdf.objects.can_sample(pdf.origin, r),
            PdfObject::MixturePdf(pdf) => pdf.p0.can_generate(r) || pdf.p1.can_generate(r),
        }
    }

    /// A random direction of the distribution.
    pub fn generate(&self, rng: &mut SmallRng) -> (r: Vec3<S>)
        ensures
            self.can_generate(r),
        decreases self,
    {
        match self {
            PdfObject::SpherePdf(pdf) => pdf.generate(rng),
            PdfObject::CosinePdf(pdf) => pdf.generate(rng),
            PdfObject::HittablePdf(pdf) => pdf.generate(rng),
            PdfObject::MixturePdf(pdf) => pdf.generate(rng),
        }
    }
}

} // verus!
