//! Orthonormal bases.

use vstd::prelude::*;
use crate::scalar::{Scalar, zero, zero_spec, one, one_spec};
use crate::vec3::{Vec3, cross, cross_spec, unit_vector, unit_vector_spec};

verus! {

/// An orthonormal basis: three unit vectors at right angles, the third along
/// a given direction.
#[derive(Clone, Copy)]
pub struct Onb<S: Scalar> {
    pub axis: [Vec3<S>; 3],
}

impl<S: Scalar> Onb<S> {
    /// The helper axis that is not parallel to `w`: the second axis where the
    /// first component of `w` is beyond nine tenths, else the first.
    pub open spec fn helper_spec(w: Vec3<S>) -> Vec3<S> {
        if w.e0.abs_spec().key() > S::from_ratio_spec(9, 10).key() {
            Vec3 { e0: zero_spec::<S>(), e1: one_spec::<S>(), e2: zero_spec::<S>() }
        } else {
            Vec3 { e0: one_spec::<S>(), e1: zero_spec::<S>(), e2: zero_spec::<S>() }
        }
    }

    pub open spec fn w_of(n: Vec3<S>) -> Vec3<S> {
        unit_vector_spec(n)
    }

    pub open spec fn v_of(n: Vec3<S>) -> Vec3<S> {
        unit_vector_spec(cross_spec(Self::w_of(n), Self::helper_spec(Self::w_of(n))))
    }

    pub open spec fn u_of(n: Vec3<S>) -> Vec3<S> {
        cross_spec(Self::w_of(n), Self::v_of(n))
    }

    /// The basis whose third vector is the direction of `n`.
    pub fn new(n: Vec3<S>) -> (r: Self)
        ensures
            r.axis@ == seq![Self::u_of(n), Self::v_of(n), Self::w_of(n)],
    {
        let w = unit_vector(n);
        let a = if S::from_ratio(9, 10).lt(w.e0.abs()) {
            Vec3 { e0: zero::<S>(), e1: one::<S>(), e2: zero::<S>() }
        } else {
            Vec3 { e0: one::<S>(), e1: zero::<S>(), e2: zero::<S>() }
        };
        let v = unit_vector(cross(w, a));
        let u = cross(w, v);
        let r = Onb { axis: [u, v, w] };
        assert(r.axis@ =~= seq![Self::u_of(n), Self::v_of(n), Self::w_of(n)]);
        r
    }

    pub fn u(&self) -> (r: Vec3<S>)
        ensures
            r == self.axis[0],
    {
        self.axis[0]
    }

    pub fn v(&self) -> (r: Vec3<S>)
        ensures
            r == self.axis[1],
    {
        self.axis[1]
    }

    pub fn w(&self) -> (r: Vec3<S>)
        ensures
            r == self.axis[2],
    {
        self.axis[2]
    }

    /// The vector with the coordinates `v` in this basis.
    pub open spec fn transform_spec(&self, v: Vec3<S>) -> Vec3<S> {
        self.axis[0].scale_spec(v.e0).plus_spec(self.axis[1].scale_spec(v.e1)).plus_spec(
            self.axis[2].scale_spec(v.e2),
        )
    }

    pub fn transform(&self, v: Vec3<S>) -> (r: Vec3<S>)
        ensures
            r == self.transform_spec(v),
    {
        self.axis[0].scale(v.e0).plus(self.axis[1].scale(v.e1)).plus(self.axis[2].scale(v.e2))
    }
}

} // verus!
