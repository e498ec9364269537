//! The numbers of the renderer: an abstract scalar with its operations and its
//! order.

use vstd::prelude::*;

verus! {

/// The numbers that the renderer computes with.
///
/// The library never looks inside a scalar. It combines scalars through the
/// operations below and orders them by [`Scalar::key`]. Each operation is a
/// function of its operands: the `*_spec` function beside it names the value it
/// returns, and nothing more is assumed of that value. Every contract in this
/// crate that speaks of a number speaks of it through these names.
///
/// An implementation for IEEE floating point has to pick one key for every
/// value, so that `lt` and `le` are total (for instance the usual order of the
/// numbers, with both zeros on one key and not-a-number below negative
/// infinity). Outside verified code the `*_spec` functions and `key` are
/// ordinary methods: an implementation lets each return what the operation
/// beside it returns, and lets `lt` and `le` compare keys.
pub trait Scalar: Sized + Copy {
    /// The place of `self` in the order of the scalars.
    spec fn key(self) -> i64;

    spec fn from_ratio_spec(num: i64, den: i64) -> Self;

    /// The quotient of two integers, `num / den`.
    fn from_ratio(num: i64, den: i64) -> (r: Self)
        ensures
            r == Self::from_ratio_spec(num, den),
    ;

    spec fn infinity_spec() -> Self;

    /// A value above every finite scalar.
    fn infinity() -> (r: Self)
        ensures
            r == Self::infinity_spec(),
    ;

    spec fn pi_spec() -> Self;

    /// The ratio of a circle's circumference to its diameter.
    fn pi() -> (r: Self)
        ensures
            r == Self::pi_spec(),
    ;

    spec fn plus_spec(self, rhs: Self) -> Self;

    fn plus(self, rhs: Self) -> (r: Self)
        ensures
            r == self.plus_spec(rhs),
    ;

    spec fn minus_spec(self, rhs: Self) -> Self;

    fn minus(self, rhs: Self) -> (r: Self)
        ensures
            r == self.minus_spec(rhs),
    ;

    spec fn times_spec(self, rhs: Self) -> Self;

    fn times(self, rhs: Self) -> (r: Self)
        ensures
            r == self.times_spec(rhs),
    ;

    spec fn over_spec(self, rhs: Self) -> Self;

    /// Division. It is total: what it returns for a zero divisor is the
    /// implementation's choice.
    fn over(self, rhs: Self) -> (r: Self)
        ensures
            r == self.over_spec(rhs),
    ;

    spec fn negate_spec(self) -> Self;

    fn negate(self) -> (r: Self)
        ensures
            r == self.negate_spec(),
    ;

    spec fn abs_spec(self) -> Self;

    fn abs(self) -> (r: Self)
        ensures
            r == self.abs_spec(),
    ;

    spec fn sqrt_spec(self) -> Self;

    fn sqrt(self) -> (r: Self)
        ensures
            r == self.sqrt_spec(),
    ;

    spec fn sin_spec(self) -> Self;

    fn sin(self) -> (r: Self)
        ensures
            r == self.sin_spec(),
    ;

    spec fn cos_spec(self) -> Self;

    fn cos(self) -> (r: Self)
        ensures
            r == self.cos_spec(),
    ;

    spec fn tan_spec(self) -> Self;

    fn tan(self) -> (r: Self)
        ensures
            r == self.tan_spec(),
    ;

    spec fn acos_spec(self) -> Self;

    fn acos(self) -> (r: Self)
        ensures
            r == self.acos_spec(),
    ;

    spec fn atan2_spec(self, x: Self) -> Self;

    /// The angle of the point `(x, self)`, `self` being the ordinate.
    fn atan2(self, x: Self) -> (r: Self)
        ensures
            r == self.atan2_spec(x),
    ;

    spec fn ln_spec(self) -> Self;

    fn ln(self) -> (r: Self)
        ensures
            r == self.ln_spec(),
    ;

    spec fn truncate_spec(self) -> i64;

    /// The integer part of `self`, cut towards zero and held within `i64`.
    fn truncate(self) -> (r: i64)
        ensures
            r == self.truncate_spec(),
    ;

    spec fn is_finite_spec(self) -> bool;

    fn is_finite(self) -> (r: bool)
        ensures
            r == self.is_finite_spec(),
    ;

    /// `self` stands strictly before `rhs`.
    fn lt(self, rhs: Self) -> (r: bool)
        ensures
            r == (self.key() < rhs.key()),
    ;

    /// `self` stands before `rhs`, or beside it.
    fn le(self, rhs: Self) -> (r: bool)
        ensures
            r == (self.key() <= rhs.key()),
    ;
}

/// The smaller of two scalars; `a` where they stand on one key.
pub open spec fn min_spec<S: Scalar>(a: S, b: S) -> S {
    if a.key() <= b.key() {
        a
    } else {
        b
    }
}

/// The larger of two scalars; `a` where they stand on one key.
pub open spec fn max_spec<S: Scalar>(a: S, b: S) -> S {
    if a.key() >= b.key() {
        a
    } else {
        b
    }
}

pub fn min<S: Scalar>(a: S, b: S) -> (r: S)
    ensures
        r == min_spec(a, b),
{
    if a.le(b) {
        a
    } else {
        b
    }
}

pub fn max<S: Scalar>(a: S, b: S) -> (r: S)
    ensures
        r == max_spec(a, b),
{
    if b.le(a) {
        a
    } else {
        b
    }
}

/// The integer `n` as a scalar.
pub open spec fn whole_spec<S: Scalar>(n: i64) -> S {
    S::from_ratio_spec(n, 1)
}

pub fn whole<S: Scalar>(n: i64) -> (r: S)
    ensures
        r == whole_spec::<S>(n),
{
    S::from_ratio(n, 1)
}

pub open spec fn zero_spec<S: Scalar>() -> S {
    whole_spec::<S>(0)
}

pub fn zero<S: Scalar>() -> (r: S)
    ensures
        r == zero_spec::<S>(),
{
    whole(0)
}

pub open spec fn one_spec<S: Scalar>() -> S {
    whole_spec::<S>(1)
}

pub fn one<S: Scalar>() -> (r: S)
    ensures
        r == one_spec::<S>(),
{
    whole(1)
}

} // verus!
