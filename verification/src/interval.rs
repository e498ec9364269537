//! Intervals of scalars.

use vstd::prelude::*;
use crate::scalar::Scalar;
use crate::fixed::Fixed;

verus! {

/// The scalars from `min` to `max`. It holds nothing where `max` stands
/// before `min`.
#[derive(Clone, Copy)]
pub struct Interval<S: Scalar> {
    pub min: S,
    pub max: S,
}

impl<S: Scalar> Interval<S> {
    pub fn new(min: S, max: S) -> (r: Self)
        ensures
            r == (Interval { min, max }),
    {
        Interval { min, max }
    }

    /// The interval from infinity down to its negation.
    pub open spec fn empty_spec() -> Self {
        Interval { min: S::infinity_spec(), max: S::infinity_spec().negate_spec() }
    }

    pub fn empty() -> (r: Self)
        ensures
            r == Self::empty_spec(),
    {
        Interval { min: S::infinity(), max: S::infinity().negate() }
    }

    /// The interval from the negation of infinity up to infinity.
    pub open spec fn universe_spec() -> Self {
        Interval { min: S::infinity_spec().negate_spec(), max: S::infinity_spec() }
    }

    pub fn universe() -> (r: Self)
        ensures
            r == Self::universe_spec(),
    {
        Interval { min: S::infinity().negate(), max: S::infinity() }
    }

    /// Some scalar lies in the interval.
    pub open spec fn is_inhabited(self) -> bool {
        self.min.key() <= self.max.key()
    }

    /// The smallest interval around `a` and `b`: the earlier of the two lower
    /// ends and the later of the two upper ends.
    pub open spec fn from_intervals_spec(a: Self, b: Self) -> Self {
        Interval {
            min: if a.min.key() <= b.min.key() {
                a.min
            } else {
                b.min
            },
            max: if a.max.key() >= b.max.key() {
                a.max
            } else {
                b.max
            },
        }
    }

    pub fn from_intervals(a: Self, b: Self) -> (r: Self)
        ensures
            r == Self::from_intervals_spec(a, b),
    {
        Interval {
            min: if a.min.le(b.min) {
                a.min
            } else {
                b.min
            },
            max: if b.max.le(a.max) {
                a.max
            } else {
                b.max
            },
        }
    }

    pub open spec fn size_spec(self) -> S {
        self.max.minus_spec(self.min)
    }

    pub fn size(self) -> (r: S)
        ensures
            r == self.size_spec(),
    {
        self.max.minus(self.min)
    }

    /// `x` lies in the interval, its ends included.
    pub open spec fn contains_spec(self, x: S) -> bool {
        self.min.key() <= x.key() && x.key() <= self.max.key()
    }

    pub fn contains(self, x: S) -> (r: bool)
        ensures
            r == self.contains_spec(x),
    {
        self.min.le(x) && x.le(self.max)
    }

    /// `x` lies in the interval, and on neither of its ends.
    pub open spec fn surrounds_spec(self, x: S) -> bool {
        self.min.key() < x.key() && x.key() < self.max.key()
    }

    pub fn surrounds(self, x: S) -> (r: bool)
        ensures
            r == self.surrounds_spec(x),
    {
        self.min.lt(x) && x.lt(self.max)
    }

    /// `x`, or the end of the interval beyond which `x` lies.
    pub open spec fn clamp_spec(self, x: S) -> S {
        if x.key() < self.min.key() {
            self.min
        } else if x.key() > self.max.key() {
            self.max
        } else {
            x
        }
    }

    pub fn clamp(self, x: S) -> (r: S)
        ensures
            r == self.clamp_spec(x),
    {
        if x.lt(self.min) {
            self.min
        } else if self.max.lt(x) {
            self.max
        } else {
            x
        }
    }

    /// The interval with half of `delta` added at each end.
    pub open spec fn expand_spec(self, delta: S) -> Self {
        let padding = delta.over_spec(S::from_ratio_spec(2, 1));
        Interval { min: self.min.minus_spec(padding), max: self.max.plus_spec(padding) }
    }

    pub fn expand(self, delta: S) -> (r: Self)
        ensures
            r == self.expand_spec(delta),
    {
        let padding = delta.over(S::from_ratio(2, 1));
        Interval { min: self.min.minus(padding), max: self.max.plus(padding) }
    }

    /// The interval moved by `displacement`.
    pub open spec fn shift_spec(self, displacement: S) -> Self {
        Interval { min: self.min.plus_spec(displacement), max: self.max.plus_spec(displacement) }
    }

    pub fn shift(self, displacement: S) -> (r: Self)
        ensures
            r == self.shift_spec(displacement),
    {
        Interval { min: self.min.plus(displacement), max: self.max.plus(displacement) }
    }

    /// Each end of `inner` lies within `self`, or beside an end of it.
    pub open spec fn encloses(self, inner: Self) -> bool {
        self.min.key() <= inner.min.key() && inner.max.key() <= self.max.key()
    }
}

/// The interval around two intervals holds every scalar that either holds.
pub proof fn lemma_union_contains<S: Scalar>(a: Interval<S>, b: Interval<S>, x: S)
    requires
        a.contains_spec(x) || b.contains_spec(x),
    ensures
        Interval::from_intervals_spec(a, b).contains_spec(x),
{
}

/// The interval around two inhabited intervals is the tightest one: an
/// interval that holds every scalar of both holds every scalar of it.
pub proof fn lemma_union_tightest<S: Scalar>(a: Interval<S>, b: Interval<S>, c: Interval<S>, x: S)
    requires
        a.is_inhabited(),
        b.is_inhabited(),
        forall|y: S| a.contains_spec(y) || b.contains_spec(y) ==> c.contains_spec(y),
        Interval::from_intervals_spec(a, b).contains_spec(x),
    ensures
        c.contains_spec(x),
{
    assert(a.contains_spec(a.min) && a.contains_spec(a.max));
    assert(b.contains_spec(b.min) && b.contains_spec(b.max));
    assert(c.contains_spec(a.min) && c.contains_spec(a.max));
    assert(c.contains_spec(b.min) && c.contains_spec(b.max));
}

/// The interval around two intervals encloses both, whatever they are.
pub proof fn lemma_union_encloses<S: Scalar>(a: Interval<S>, b: Interval<S>)
    ensures
        Interval::from_intervals_spec(a, b).encloses(a),
        Interval::from_intervals_spec(a, b).encloses(b),
{
}

/// The interval around two intervals does not depend on their order, as far
/// as the order of the scalars tells: taken either way round, its ends stand
/// at the same places, at the earlier of the two lower ends and at the later
/// of the two upper ends.
pub proof fn lemma_union_commutes<S: Scalar>(a: Interval<S>, b: Interval<S>)
    ensures
        Interval::from_intervals_spec(a, b).min.key() == Interval::from_intervals_spec(b, a).min.key(),
        Interval::from_intervals_spec(a, b).max.key() == Interval::from_intervals_spec(b, a).max.key(),
        Interval::from_intervals_spec(a, b).min.key() == if a.min.key() <= b.min.key() {
            a.min.key()
        } else {
            b.min.key()
        },
        Interval::from_intervals_spec(a, b).max.key() == if a.max.key() >= b.max.key() {
            a.max.key()
        } else {
            b.max.key()
        },
{
}

/// In fixed point, the interval around the empty interval and another is
/// that other: no number stands after infinity or, but for the lower end of
/// the range itself, before its negation.
pub proof fn lemma_empty_is_neutral_in_fixed_point(b: Interval<Fixed>)
    requires
        b.max.raw > i64::MIN,
    ensures
        Interval::from_intervals_spec(Interval::<Fixed>::empty_spec(), b) == b,
        Interval::from_intervals_spec(b, Interval::<Fixed>::empty_spec()) == b,
{
}

} // verus!
