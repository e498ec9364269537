//! Rays.

use vstd::prelude::*;
use crate::scalar::{Scalar, zero, zero_spec};
use crate::vec3::Vec3;

verus! {

/// A half-line through space, with the moment at which it is cast.
#[derive(Clone, Copy)]
pub struct Ray<S: Scalar> {
    pub orig: Vec3<S>,
    pub dir: Vec3<S>,
    pub tm: S,
}

impl<S: Scalar> Ray<S> {
    /// A ray cast at time zero.
    pub fn new(origin: Vec3<S>, direction: Vec3<S>) -> (r: Self)
        ensures
            r == (Ray { orig: origin, dir: direction, tm: zero_spec::<S>() }),
    {
        Ray { orig: origin, dir: direction, tm: zero() }
    }

    pub fn new_with_time(origin: Vec3<S>, direction: Vec3<S>, time: S) -> (r: Self)
        ensures
            r == (Ray { orig: origin, dir: direction, tm: time }),
    {
        Ray { orig: origin, dir: direction, tm: time }
    }

    pub fn origin(&self) -> (r: Vec3<S>)
        ensures
            r == self.orig,
    {
        self.orig
    }

    pub fn direction(&self) -> (r: Vec3<S>)
        ensures
            r == self.dir,
    {
        self.dir
    }

    pub fn time(&self) -> (r: S)
        ensures
            r == self.tm,
    {
        self.tm
    }

    /// The point of the ray at the parameter `t`.
    pub open spec fn at_spec(self, t: S) -> Vec3<S> {
        self.orig.plus_spec(self.dir.scale_spec(t))
    }

    pub fn at(&self, t: S) -> (r: Vec3<S>)
        ensures
            r == self.at_spec(t),
    {
        self.orig.plus(self.dir.scale(t))
    }
}

} // verus!
