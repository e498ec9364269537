//! Fixed-point numbers, a scalar whose results are the same on every machine.

use vstd::prelude::*;
use crate::scalar::Scalar;

verus! {

/// A fixed-point number: a whole number of steps of 2⁻³², held in 64 bits.
///
/// Its arithmetic never fails: a result beyond the range is held at the end
/// of the range, and the two ends stand for the infinities. Its order is the
/// order of the steps. It lets the renderer run where the same image has to
/// come out on every machine, bit for bit.
#[derive(Clone, Copy, Debug)]
pub struct Fixed {
    /// The number of steps.
    pub raw: i64,
}

/// The number of steps in one: 2³².
pub const ONE_RAW: i64 = 0x1_0000_0000;

/// The steps of pi.
pub const PI_RAW: i64 = 13_493_037_705;

/// The steps of the natural logarithm of two.
pub const LN2_RAW: i64 = 2_977_044_472;

/// A whole number held within the range of `i64`.
pub open spec fn saturate_spec(n: int) -> i64 {
    if n > i64::MAX {
        i64::MAX
    } else if n < i64::MIN {
        i64::MIN
    } else {
        n as i64
    }
}

pub fn saturate(n: i128) -> (r: i64)
    ensures
        r == saturate_spec(n as int),
{
    if n > i64::MAX as i128 {
        i64::MAX
    } else if n < i64::MIN as i128 {
        i64::MIN
    } else {
        n as i64
    }
}

/// The distance of a number of steps from zero.
pub open spec fn magnitude_spec(raw: i64) -> nat {
    if raw < 0 {
        (-raw) as nat
    } else {
        raw as nat
    }
}

pub fn magnitude(raw: i64) -> (m: u128)
    ensures
        m == magnitude_spec(raw),
        m <= 0x8000_0000_0000_0000,
{
    if raw < 0 {
        (-(raw as i128)) as u128
    } else {
        raw as u128
    }
}

/// The number of steps with the given sign and magnitude, held within range.
pub open spec fn signed_spec(negative: bool, m: nat) -> i64 {
    saturate_spec(
        if negative {
            -(m as int)
        } else {
            m as int
        },
    )
}

pub fn signed(negative: bool, m: u128) -> (r: i64)
    ensures
        r == signed_spec(negative, m as nat),
{
    if m > i64::MAX as u128 {
        if negative {
            i64::MIN
        } else {
            i64::MAX
        }
    } else if negative {
        -(m as i64)
    } else {
        m as i64
    }
}

/// The quotient of two whole numbers in steps; a quotient by zero is the
/// end of the range on the side of the dividend, and zero for zero by zero.
pub open spec fn ratio_raw_spec(num: i64, den: i64) -> i64 {
    if den == 0 {
        if num > 0 {
            i64::MAX
        } else if num < 0 {
            i64::MIN
        } else {
            0
        }
    } else {
        signed_spec(
            (num < 0) != (den < 0),
            ((magnitude_spec(num) * 0x1_0000_0000) / magnitude_spec(den)) as nat,
        )
    }
}

pub fn ratio_raw(num: i64, den: i64) -> (r: i64)
    ensures
        r == ratio_raw_spec(num, den),
{
    if den == 0 {
        if num > 0 {
            i64::MAX
        } else if num < 0 {
            i64::MIN
        } else {
            0
        }
    } else {
        let n = magnitude(num);
        let d = magnitude(den);
        signed((num < 0) != (den < 0), (n * 0x1_0000_0000) / d)
    }
}

/// The product of two numbers of steps, in steps.
pub open spec fn product_raw_spec(a: i64, b: i64) -> i64 {
    signed_spec(
        (a < 0) != (b < 0),
        ((magnitude_spec(a) * magnitude_spec(b)) / 0x1_0000_0000) as nat,
    )
}

pub fn product_raw(a: i64, b: i64) -> (r: i64)
    ensures
        r == product_raw_spec(a, b),
{
    let x = magnitude(a);
    let y = magnitude(b);
    assert(x * y <= 0x8000_0000_0000_0000 * 0x8000_0000_0000_0000) by (nonlinear_arith)
        requires
            0 <= x <= 0x8000_0000_0000_0000,
            0 <= y <= 0x8000_0000_0000_0000,
    ;
    signed((a < 0) != (b < 0), (x * y) / 0x1_0000_0000)
}

/// The greatest whole number, built from `res` and the bits from `bit`
/// down, whose square does not exceed `x`.
pub open spec fn sqrt_from_spec(x: nat, res: nat, bit: nat) -> nat
    decreases bit,
{
    if bit == 0 {
        res
    } else if (res + bit) * (res + bit) <= x {
        sqrt_from_spec(x, res + bit, bit / 2)
    } else {
        sqrt_from_spec(x, res, bit / 2)
    }
}

/// The square root of a number of steps, in steps; zero for a number that
/// is not above zero.
pub open spec fn root_raw_spec(raw: i64) -> i64 {
    if raw <= 0 {
        0
    } else {
        sqrt_from_spec((raw * 0x1_0000_0000) as nat, 0, 0x8000_0000_0000) as i64
    }
}

/// The number is a power of two.
pub open spec fn is_power_of_two(n: nat) -> bool
    decreases n,
{
    n == 1 || (n > 1 && n % 2 == 0 && is_power_of_two(n / 2))
}

/// Built up bit by bit from a power of two down, the root is the greatest
/// whole number whose square does not exceed `x`.
pub proof fn lemma_sqrt_from_is_floor(x: nat, res: nat, bit: nat)
    requires
        bit == 0 || is_power_of_two(bit),
        res * res <= x,
        bit == 0 ==> x < (res + 1) * (res + 1),
        bit > 0 ==> x < (res + 2 * bit) * (res + 2 * bit),
    ensures
        sqrt_from_spec(x, res, bit) * sqrt_from_spec(x, res, bit) <= x,
        x < (sqrt_from_spec(x, res, bit) + 1) * (sqrt_from_spec(x, res, bit) + 1),
    decreases bit,
{
    if bit != 0 {
        let half = bit / 2;
        if bit == 1 {
            assert(half == 0);
        } else {
            assert(2 * half == bit);
            assert(is_power_of_two(half));
        }
        if (res + bit) * (res + bit) <= x {
            lemma_sqrt_from_is_floor(x, res + bit, half);
        } else {
            lemma_sqrt_from_is_floor(x, res, half);
        }
    }
}

/// The root of a number above zero is the greatest number of steps whose
/// square, in steps, does not exceed the number.
pub proof fn lemma_root_is_floor(raw: i64)
    requires
        raw > 0,
    ensures
        root_raw_spec(raw) * root_raw_spec(raw) <= raw * 0x1_0000_0000,
        raw * 0x1_0000_0000 < (root_raw_spec(raw) + 1) * (root_raw_spec(raw) + 1),
        0 <= root_raw_spec(raw) < 0x1_0000_0000_0000,
{
    let x = (raw * 0x1_0000_0000) as nat;
    let top: nat = 0x8000_0000_0000;
    reveal_with_fuel(is_power_of_two, 50);
    assert(is_power_of_two(top));
    assert(x < (0 + 2 * top) * (0 + 2 * top)) by (nonlinear_arith)
        requires
            x < 0x8000_0000_0000_0000 * 0x1_0000_0000,
            top == 0x8000_0000_0000,
    ;
    lemma_sqrt_from_is_floor(x, 0, top);
    let r = sqrt_from_spec(x, 0, top);
    if r >= 0x1_0000_0000_0000 {
        assert(r * r >= 0x1_0000_0000_0000 * 0x1_0000_0000_0000) by (nonlinear_arith)
            requires
                r >= 0x1_0000_0000_0000,
        ;
    }
}

pub fn root_raw(raw: i64) -> (r: i64)
    ensures
        r == root_raw_spec(raw),
{
    if raw <= 0 {
        return 0;
    }
    let x: u128 = (raw as u128) * 0x1_0000_0000;
    let mut res: u128 = 0;
    let mut bit: u128 = 0x8000_0000_0000;
    while bit > 0
        invariant
            res + 2 * bit <= 0x1_0000_0000_0000,
            sqrt_from_spec(x as nat, res as nat, bit as nat) == sqrt_from_spec(
                x as nat,
                0,
                0x8000_0000_0000,
            ),
        decreases bit,
    {
        let t = res + bit;
        assert(t * t <= 0x1_0000_0000_0000 * 0x1_0000_0000_0000) by (nonlinear_arith)
            requires
                0 <= t <= 0x1_0000_0000_0000,
        ;
        if t * t <= x {
            res = t;
        }
        bit = bit / 2;
    }
    res as i64
}

/// The greatest power of two among `t`, its half, its quarter and so on
/// that does not exceed `raw`, or one where there is none; and `n` plus the
/// number of times that `t` was halved to reach it, counted up to 62.
pub open spec fn top_bit_spec(raw: nat, t: nat, n: nat) -> (nat, nat)
    decreases t,
{
    if t <= 1 || t <= raw {
        (t, n)
    } else {
        top_bit_spec(
            raw,
            t / 2,
            if n < 62 {
                n + 1
            } else {
                n
            },
        )
    }
}

impl Fixed {
    /// The number of the given steps.
    pub fn from_raw(raw: i64) -> (r: Self)
        ensures
            r.raw == raw,
    {
        Fixed { raw }
    }

    pub open spec fn sum_spec(self, rhs: Self) -> Self {
        Fixed { raw: saturate_spec(self.raw + rhs.raw) }
    }

    pub fn sum(self, rhs: Self) -> (r: Self)
        ensures
            r == self.sum_spec(rhs),
    {
        Fixed { raw: saturate(self.raw as i128 + rhs.raw as i128) }
    }

    pub open spec fn difference_spec(self, rhs: Self) -> Self {
        Fixed { raw: saturate_spec(self.raw - rhs.raw) }
    }

    pub fn difference(self, rhs: Self) -> (r: Self)
        ensures
            r == self.difference_spec(rhs),
    {
        Fixed { raw: saturate(self.raw as i128 - rhs.raw as i128) }
    }

    pub open spec fn product_spec(self, rhs: Self) -> Self {
        Fixed { raw: product_raw_spec(self.raw, rhs.raw) }
    }

    pub fn product(self, rhs: Self) -> (r: Self)
        ensures
            r == self.product_spec(rhs),
    {
        Fixed { raw: product_raw(self.raw, rhs.raw) }
    }

    pub open spec fn quotient_spec(self, rhs: Self) -> Self {
        Fixed { raw: ratio_raw_spec(self.raw, rhs.raw) }
    }

    pub fn quotient(self, rhs: Self) -> (r: Self)
        ensures
            r == self.quotient_spec(rhs),
    {
        Fixed { raw: ratio_raw(self.raw, rhs.raw) }
    }

    pub open spec fn negated_spec(self) -> Self {
        Fixed { raw: saturate_spec(-self.raw) }
    }

    pub fn negated(self) -> (r: Self)
        ensures
            r == self.negated_spec(),
    {
        Fixed { raw: saturate(-(self.raw as i128)) }
    }

    pub open spec fn absolute_spec(self) -> Self {
        if self.raw < 0 {
            self.negated_spec()
        } else {
            self
        }
    }

    pub fn absolute(self) -> (r: Self)
        ensures
            r == self.absolute_spec(),
    {
        if self.raw < 0 {
            self.negated()
        } else {
            self
        }
    }

    pub open spec fn root_spec(self) -> Self {
        Fixed { raw: root_raw_spec(self.raw) }
    }

    pub fn root(self) -> (r: Self)
        ensures
            r == self.root_spec(),
    {
        Fixed { raw: root_raw(self.raw) }
    }

    /// The quotient of two whole numbers.
    pub open spec fn ratio_spec(num: i64, den: i64) -> Self {
        Fixed {
            raw: ratio_raw_spec(
                saturate_spec(num * 0x1_0000_0000),
                saturate_spec(den * 0x1_0000_0000),
            ),
        }
    }

    pub fn ratio(num: i64, den: i64) -> (r: Self)
        ensures
            r == Self::ratio_spec(num, den),
    {
        Fixed {
            raw: ratio_raw(
                saturate(num as i128 * 0x1_0000_0000),
                saturate(den as i128 * 0x1_0000_0000),
            ),
        }
    }

    /// The whole part, cut towards zero.
    pub open spec fn whole_part_spec(self) -> i64 {
        signed_spec(self.raw < 0, magnitude_spec(self.raw) / 0x1_0000_0000)
    }

    pub fn whole_part(self) -> (r: i64)
        ensures
            r == self.whole_part_spec(),
    {
        signed(self.raw < 0, magnitude(self.raw) / 0x1_0000_0000)
    }

    pub open spec fn pi_value_spec() -> Self {
        Fixed { raw: PI_RAW }
    }

    pub fn pi_value() -> (r: Self)
        ensures
            r == Self::pi_value_spec(),
    {
        Fixed { raw: PI_RAW }
    }

    /// The angle brought into the range from zero to two pi.
    pub open spec fn turn_spec(self) -> Self {
        let two_pi = Self::pi_value_spec().sum_spec(Self::pi_value_spec());
        let turns = self.quotient_spec(two_pi).whole_part_spec();
        let rest = self.difference_spec(Self::ratio_spec(turns, 1).product_spec(two_pi));
        if rest.raw < 0 {
            rest.sum_spec(two_pi)
        } else {
            rest
        }
    }

    pub fn turn(self) -> (r: Self)
        ensures
            r == self.turn_spec(),
    {
        let two_pi = Self::pi_value().sum(Self::pi_value());
        let turns = self.quotient(two_pi).whole_part();
        let rest = self.difference(Self::ratio(turns, 1).product(two_pi));
        if rest.raw < 0 {
            rest.sum(two_pi)
        } else {
            rest
        }
    }

    /// The sine of an angle between zero and pi, by Bhaskara's formula:
    /// `16 y (pi - y) / (5 pi² - 4 y (pi - y))`.
    pub open spec fn half_wave_spec(self) -> Self {
        let pi = Self::pi_value_spec();
        let bend = self.product_spec(pi.difference_spec(self));
        Self::ratio_spec(16, 1).product_spec(bend).quotient_spec(
            Self::ratio_spec(5, 1).product_spec(pi.product_spec(pi)).difference_spec(
                Self::ratio_spec(4, 1).product_spec(bend),
            ),
        )
    }

    pub fn half_wave(self) -> (r: Self)
        ensures
            r == self.half_wave_spec(),
    {
        let pi = Self::pi_value();
        let bend = self.product(pi.difference(self));
        Self::ratio(16, 1).product(bend).quotient(
            Self::ratio(5, 1).product(pi.product(pi)).difference(Self::ratio(4, 1).product(bend)),
        )
    }

    /// The sine: the half wave of the angle within its turn, negated in the
    /// second half of the turn.
    pub open spec fn sine_spec(self) -> Self {
        let y = self.turn_spec();
        if y.raw > PI_RAW {
            y.difference_spec(Self::pi_value_spec()).half_wave_spec().negated_spec()
        } else {
            y.half_wave_spec()
        }
    }

    pub fn sine(self) -> (r: Self)
        ensures
            r == self.sine_spec(),
    {
        let y = self.turn();
        if y.raw > PI_RAW {
            y.difference(Self::pi_value()).half_wave().negated()
        } else {
            y.half_wave()
        }
    }

    /// The cosine: the sine a quarter turn on.
    pub open spec fn cosine_spec(self) -> Self {
        self.sum_spec(Self::pi_value_spec().quotient_spec(Self::ratio_spec(2, 1))).sine_spec()
    }

    pub fn cosine(self) -> (r: Self)
        ensures
            r == self.cosine_spec(),
    {
        self.sum(Self::pi_value().quotient(Self::ratio(2, 1))).sine()
    }

    /// The tangent: the sine over the cosine.
    pub open spec fn tangent_spec(self) -> Self {
        self.sine_spec().quotient_spec(self.cosine_spec())
    }

    pub fn tangent(self) -> (r: Self)
        ensures
            r == self.tangent_spec(),
    {
        self.sine().quotient(self.cosine())
    }

    /// The arc cosine of a number between zero and one: the root of one
    /// minus the number, times a polynomial of the third degree in it.
    pub open spec fn arc_cosine_upper_spec(self) -> Self {
        let a0 = Self::ratio_spec(15_707_288, 10_000_000);
        let a1 = Self::ratio_spec(-2_121_144i64, 10_000_000);
        let a2 = Self::ratio_spec(742_610, 10_000_000);
        let a3 = Self::ratio_spec(-187_293i64, 10_000_000);
        let poly = a0.sum_spec(
            self.product_spec(a1.sum_spec(self.product_spec(a2.sum_spec(self.product_spec(a3))))),
        );
        Self::ratio_spec(1, 1).difference_spec(self).root_spec().product_spec(poly)
    }

    pub fn arc_cosine_upper(self) -> (r: Self)
        ensures
            r == self.arc_cosine_upper_spec(),
    {
        let a0 = Self::ratio(15_707_288, 10_000_000);
        let a1 = Self::ratio(-2_121_144, 10_000_000);
        let a2 = Self::ratio(742_610, 10_000_000);
        let a3 = Self::ratio(-187_293, 10_000_000);
        let poly = a0.sum(self.product(a1.sum(self.product(a2.sum(self.product(a3))))));
        Self::ratio(1, 1).difference(self).root().product(poly)
    }

    /// The arc cosine of the number, held within minus one and one.
    pub open spec fn arc_cosine_spec(self) -> Self {
        if self.raw < 0 {
            let x = if self.raw < -ONE_RAW {
                Fixed { raw: ONE_RAW }
            } else {
                self.negated_spec()
            };
            Self::pi_value_spec().difference_spec(x.arc_cosine_upper_spec())
        } else {
            let x = if self.raw > ONE_RAW {
                Fixed { raw: ONE_RAW }
            } else {
                self
            };
            x.arc_cosine_upper_spec()
        }
    }

    pub fn arc_cosine(self) -> (r: Self)
        ensures
            r == self.arc_cosine_spec(),
    {
        if self.raw < 0 {
            let x = if self.raw < -ONE_RAW {
                Fixed { raw: ONE_RAW }
            } else {
                self.negated()
            };
            Self::pi_value().difference(x.arc_cosine_upper())
        } else {
            let x = if self.raw > ONE_RAW {
                Fixed { raw: ONE_RAW }
            } else {
                self
            };
            x.arc_cosine_upper()
        }
    }

    /// The arc tangent of a number between zero and one:
    /// `z (pi / 4 + 0.273 (1 - z))`.
    pub open spec fn arc_tangent_unit_spec(self) -> Self {
        self.product_spec(
            Self::pi_value_spec().quotient_spec(Self::ratio_spec(4, 1)).sum_spec(
                Self::ratio_spec(273, 1000).product_spec(
                    Self::ratio_spec(1, 1).difference_spec(self),
                ),
            ),
        )
    }

    pub fn arc_tangent_unit(self) -> (r: Self)
        ensures
            r == self.arc_tangent_unit_spec(),
    {
        self.product(
            Self::pi_value().quotient(Self::ratio(4, 1)).sum(
                Self::ratio(273, 1000).product(Self::ratio(1, 1).difference(self)),
            ),
        )
    }

    /// The angle of the point `(x, self)`: the arc tangent of the smaller
    /// coordinate over the larger, brought into the octant of the point.
    pub open spec fn arc_tangent2_spec(self, x: Self) -> Self {
        if self.raw == 0 && x.raw == 0 {
            Fixed { raw: 0 }
        } else {
            let ax = x.absolute_spec();
            let ay = self.absolute_spec();
            let first = if ax.raw >= ay.raw {
                ay.quotient_spec(ax).arc_tangent_unit_spec()
            } else {
                Self::pi_value_spec().quotient_spec(Self::ratio_spec(2, 1)).difference_spec(
                    ax.quotient_spec(ay).arc_tangent_unit_spec(),
                )
            };
            let upper = if x.raw < 0 {
                Self::pi_value_spec().difference_spec(first)
            } else {
                first
            };
            if self.raw < 0 {
                upper.negated_spec()
            } else {
                upper
            }
        }
    }

    pub fn arc_tangent2(self, x: Self) -> (r: Self)
        ensures
            r == self.arc_tangent2_spec(x),
    {
        if self.raw == 0 && x.raw == 0 {
            return Fixed { raw: 0 };
        }
        let ax = x.absolute();
        let ay = self.absolute();
        let first = if ax.raw >= ay.raw {
            ay.quotient(ax).arc_tangent_unit()
        } else {
            Self::pi_value().quotient(Self::ratio(2, 1)).difference(
                ax.quotient(ay).arc_tangent_unit(),
            )
        };
        let upper = if x.raw < 0 {
            Self::pi_value().difference(first)
        } else {
            first
        };
        if self.raw < 0 {
            upper.negated()
        } else {
            upper
        }
    }

    /// The logarithm of a number between one and two, by the series of the
    /// inverse hyperbolic tangent: with `s = (m - 1) / (m + 1)`, twice
    /// `s + s³ / 3 + s⁵ / 5`.
    pub open spec fn logarithm_unit_spec(self) -> Self {
        let one = Self::ratio_spec(1, 1);
        let s = self.difference_spec(one).quotient_spec(self.sum_spec(one));
        let s2 = s.product_spec(s);
        let s3 = s2.product_spec(s);
        let s5 = s3.product_spec(s2);
        Self::ratio_spec(2, 1).product_spec(
            s.sum_spec(s3.quotient_spec(Self::ratio_spec(3, 1))).sum_spec(
                s5.quotient_spec(Self::ratio_spec(5, 1)),
            ),
        )
    }

    pub fn logarithm_unit(self) -> (r: Self)
        ensures
            r == self.logarithm_unit_spec(),
    {
        let one = Self::ratio(1, 1);
        let s = self.difference(one).quotient(self.sum(one));
        let s2 = s.product(s);
        let s3 = s2.product(s);
        let s5 = s3.product(s2);
        Self::ratio(2, 1).product(
            s.sum(s3.quotient(Self::ratio(3, 1))).sum(s5.quotient(Self::ratio(5, 1))),
        )
    }

    /// The natural logarithm: the lower end of the range for a number that
    /// is not above zero; else the exponent of the greatest power of two in the
    /// number times the logarithm of two, and the logarithm of what is left.
    pub open spec fn logarithm_spec(self) -> Self {
        if self.raw <= 0 {
            Fixed { raw: i64::MIN }
        } else {
            let top = top_bit_spec(self.raw as nat, 0x4000_0000_0000_0000, 0);
            let rest = self.quotient_spec(Fixed { raw: top.0 as i64 });
            Self::ratio_spec((30 - top.1) as i64, 1).product_spec(Fixed { raw: LN2_RAW }).sum_spec(
                rest.logarithm_unit_spec(),
            )
        }
    }

    pub fn logarithm(self) -> (r: Self)
        ensures
            r == self.logarithm_spec(),
    {
        if self.raw <= 0 {
            return Fixed { raw: i64::MIN };
        }
        let mut t: i64 = 0x4000_0000_0000_0000;
        let mut halvings: i64 = 0;
        while t > 1 && t > self.raw
            invariant
                1 <= t <= 0x4000_0000_0000_0000,
                0 <= halvings <= 62,
                self.raw > 0,
                top_bit_spec(self.raw as nat, t as nat, halvings as nat) == top_bit_spec(
                    self.raw as nat,
                    0x4000_0000_0000_0000,
                    0,
                ),
            decreases t,
        {
            t = t / 2;
            if halvings < 62 {
                halvings = halvings + 1;
            }
        }
        let rest = self.quotient(Fixed { raw: t });
        Self::ratio(30 - halvings, 1).product(Fixed { raw: LN2_RAW }).sum(rest.logarithm_unit())
    }
}

impl Scalar for Fixed {
    open spec fn key(self) -> i64 {
        self.raw
    }

    open spec fn from_ratio_spec(num: i64, den: i64) -> Self {
        Fixed::ratio_spec(num, den)
    }

    fn from_ratio(num: i64, den: i64) -> (r: Self) {
        Fixed::ratio(num, den)
    }

    open spec fn infinity_spec() -> Self {
        Fixed { raw: i64::MAX }
    }

    fn infinity() -> (r: Self) {
        Fixed { raw: i64::MAX }
    }

    open spec fn pi_spec() -> Self {
        Fixed::pi_value_spec()
    }

    fn pi() -> (r: Self) {
        Fixed::pi_value()
    }

    open spec fn plus_spec(self, rhs: Self) -> Self {
        self.sum_spec(rhs)
    }

    fn plus(self, rhs: Self) -> (r: Self) {
        self.sum(rhs)
    }

    open spec fn minus_spec(self, rhs: Self) -> Self {
        self.difference_spec(rhs)
    }

    fn minus(self, rhs: Self) -> (r: Self) {
        self.difference(rhs)
    }

    open spec fn times_spec(self, rhs: Self) -> Self {
        self.product_spec(rhs)
    }

    fn times(self, rhs: Self) -> (r: Self) {
        self.product(rhs)
    }

    open spec fn over_spec(self, rhs: Self) -> Self {
        self.quotient_spec(rhs)
    }

    fn over(self, rhs: Self) -> (r: Self) {
        self.quotient(rhs)
    }

    open spec fn negate_spec(self) -> Self {
        self.negated_spec()
    }

    fn negate(self) -> (r: Self) {
        self.negated()
    }

    open spec fn abs_spec(self) -> Self {
        self.absolute_spec()
    }

    fn abs(self) -> (r: Self) {
        self.absolute()
    }

    open spec fn sqrt_spec(self) -> Self {
        self.root_spec()
    }

    fn sqrt(self) -> (r: Self) {
        self.root()
    }

    open spec fn sin_spec(self) -> Self {
        self.sine_spec()
    }

    fn sin(self) -> (r: Self) {
        self.sine()
    }

    open spec fn cos_spec(self) -> Self {
        self.cosine_spec()
    }

    fn cos(self) -> (r: Self) {
        self.cosine()
    }

    open spec fn tan_spec(self) -> Self {
        self.tangent_spec()
    }

    fn tan(self) -> (r: Self) {
        self.tangent()
    }

    open spec fn acos_spec(self) -> Self {
        self.arc_cosine_spec()
    }

    fn acos(self) -> (r: Self) {
        self.arc_cosine()
    }

    open spec fn atan2_spec(self, x: Self) -> Self {
        self.arc_tangent2_spec(x)
    }

    fn atan2(self, x: Self) -> (r: Self) {
        self.arc_tangent2(x)
    }

    open spec fn ln_spec(self) -> Self {
        self.logarithm_spec()
    }

    fn ln(self) -> (r: Self) {
        self.logarithm()
    }

    open spec fn truncate_spec(self) -> i64 {
        self.whole_part_spec()
    }

    fn truncate(self) -> (r: i64) {
        self.whole_part()
    }

    open spec fn is_finite_spec(self) -> bool {
        self.raw != i64::MAX && self.raw != i64::MIN
    }

    fn is_finite(self) -> (r: bool) {
        self.raw != i64::MAX && self.raw != i64::MIN
    }

    fn lt(self, rhs: Self) -> (r: bool) {
        self.raw < rhs.raw
    }

    fn le(self, rhs: Self) -> (r: bool) {
        self.raw <= rhs.raw
    }
}

/// Zero, as the scalars spell it, is no step.
pub proof fn lemma_zero_is_no_step()
    ensures
        crate::scalar::zero_spec::<Fixed>() == (Fixed { raw: 0 }),
{
    assert(magnitude_spec(0) * 0x1_0000_0000 == 0);
    assert(0int / (0x1_0000_0000int * 0x1_0000_0000int) == 0);
    assert(ratio_raw_spec(0, saturate_spec(0x1_0000_0000)) == 0);
}

/// Zero times a number, and zero plus zero, are zero.
pub proof fn lemma_zero_absorbs(x: Fixed)
    ensures
        (Fixed { raw: 0 }).product_spec(x) == (Fixed { raw: 0 }),
        x.product_spec(Fixed { raw: 0 }) == (Fixed { raw: 0 }),
        (Fixed { raw: 0 }).sum_spec(Fixed { raw: 0 }) == (Fixed { raw: 0 }),
{
    let m = magnitude_spec(x.raw);
    assert(0 * m == 0 && m * 0 == 0) by (nonlinear_arith);
    assert(0int / 0x1_0000_0000int == 0);
}

} // verus!
