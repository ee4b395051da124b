//! Exact rational scalars and the integer floor/ceiling arithmetic on
//! them that the grid generator is built on.

use vstd::prelude::*;
use vstd::arithmetic::div_mod::{lemma_fundamental_div_mod, lemma_mod_division_less_than_divisor};

verus! {

/// An exact rational number `num / den` with `den > 0`.
///
/// The viewport core does all of its coordinate arithmetic on these
/// fractions, so no conversion between pixel, world and data units
/// ever rounds.
#[derive(Clone, Copy, PartialEq, Eq, Structural, Debug)]
#[verifier::ext_equal]
pub struct Rat {
    pub num: i128,
    pub den: i128,
}

/// Largest magnitude accepted for a camera-position numerator or denominator.
pub const POS_BOUND: i128 = 0x100_0000_0000;

/// Largest magnitude accepted for a zoom-scale numerator or denominator.
pub const ZOOM_BOUND: i128 = 0x10_0000;

/// Largest magnitude accepted for a grid-spacing numerator or denominator.
pub const SPACING_BOUND: i128 = 0x4000_0000;

/// Bound within which every side of a visible rectangle derived from a
/// bounded camera is guaranteed to stay.
pub const RECT_BOUND: i128 = 0x2000_0000_0000_0000_0000_0000;

/// Largest pointer pixel coordinate magnitude the pan controller accepts.
pub const PIXEL_BOUND: i64 = 0x8000_0000;

/// `x` is representable as an `i128`.
pub open spec fn fits_i128(x: int) -> bool {
    i128::MIN <= x <= i128::MAX
}

/// `x` is strictly inside the `i64` range, so that `x + 1` and `x - 1`
/// are representable as well.
pub open spec fn fits_i64(x: int) -> bool {
    i64::MIN < x < i64::MAX
}

/// Numerator and denominator are no larger in magnitude than `b`, and
/// the denominator is positive.
pub open spec fn in_bound(r: Rat, b: int) -> bool {
    &&& -b <= r.num <= b
    &&& 0 < r.den <= b
}

/// The fraction `an / ad` equals the fraction `bn / bd`
/// (both denominators positive).
pub open spec fn eq_frac(an: int, ad: int, bn: int, bd: int) -> bool {
    an * bd == bn * ad
}

/// The fraction `an / ad` is at most the fraction `bn / bd`
/// (both denominators positive).
pub open spec fn le_frac(an: int, ad: int, bn: int, bd: int) -> bool {
    an * bd <= bn * ad
}

/// Floor of the fraction `p / q`, for `q > 0`; spec division on `int`
/// is Euclidean, which rounds toward negative infinity for a positive
/// divisor.
pub open spec fn floor_frac(p: int, q: int) -> int {
    p / q
}

/// Ceiling of the fraction `p / q`, for `q > 0`.
pub open spec fn ceil_frac(p: int, q: int) -> int {
    -((-p) / q)
}

impl Rat {
    /// Structural validity: a positive denominator.
    pub open spec fn wf(self) -> bool {
        self.den > 0
    }

    /// The two fractions denote the same rational value.
    pub open spec fn eqv(self, other: Rat) -> bool {
        eq_frac(self.num as int, self.den as int, other.num as int, other.den as int)
    }

    /// This fraction is at most `other`.
    pub open spec fn le(self, other: Rat) -> bool {
        le_frac(self.num as int, self.den as int, other.num as int, other.den as int)
    }

    pub fn new(num: i128, den: i128) -> (r: Rat)
        requires
            den > 0,
        ensures
            r.num == num,
            r.den == den,
            r.wf(),
    {
        Rat { num, den }
    }

    pub fn from_int(n: i64) -> (r: Rat)
        ensures
            r.num == n,
            r.den == 1,
            r.wf(),
    {
        Rat { num: n as i128, den: 1 }
    }

    /// Exact sum, as the cross-multiplied fraction over the product
    /// denominator.
    pub fn plus(&self, other: &Rat) -> (r: Rat)
        requires
            self.wf(),
            other.wf(),
            fits_i128(self.num * other.den),
            fits_i128(other.num * self.den),
            fits_i128(self.num * other.den + other.num * self.den),
            fits_i128(self.den * other.den),
        ensures
            r.num == self.num * other.den + other.num * self.den,
            r.den == self.den * other.den,
            r.wf(),
    {
        proof {
            assert(self.den * other.den > 0) by (nonlinear_arith)
                requires
                    self.den > 0,
                    other.den > 0,
            ;
        }
        Rat { num: self.num * other.den + other.num * self.den, den: self.den * other.den }
    }

    /// Exact difference, as the cross-multiplied fraction over the
    /// product denominator.
    pub fn minus(&self, other: &Rat) -> (r: Rat)
        requires
            self.wf(),
            other.wf(),
            fits_i128(self.num * other.den),
            fits_i128(other.num * self.den),
            fits_i128(self.num * other.den - other.num * self.den),
            fits_i128(self.den * other.den),
        ensures
            r.num == self.num * other.den - other.num * self.den,
            r.den == self.den * other.den,
            r.wf(),
    {
        proof {
            assert(self.den * other.den > 0) by (nonlinear_arith)
                requires
                    self.den > 0,
                    other.den > 0,
            ;
        }
        Rat { num: self.num * other.den - other.num * self.den, den: self.den * other.den }
    }

    /// Exact product.
    pub fn times(&self, other: &Rat) -> (r: Rat)
        requires
            self.wf(),
            other.wf(),
            fits_i128(self.num * other.num),
            fits_i128(self.den * other.den),
        ensures
            r.num == self.num * other.num,
            r.den == self.den * other.den,
            r.wf(),
    {
        proof {
            assert(self.den * other.den > 0) by (nonlinear_arith)
                requires
                    self.den > 0,
                    other.den > 0,
            ;
        }
        Rat { num: self.num * other.num, den: self.den * other.den }
    }

    /// Exact quotient by a positive fraction.
    pub fn div_by(&self, other: &Rat) -> (r: Rat)
        requires
            self.wf(),
            other.wf(),
            other.num > 0,
            fits_i128(self.num * other.den),
            fits_i128(self.den * other.num),
        ensures
            r.num == self.num * other.den,
            r.den == self.den * other.num,
            r.wf(),
    {
        proof {
            assert(self.den * other.num > 0) by (nonlinear_arith)
                requires
                    self.den > 0,
                    other.num > 0,
            ;
        }
        Rat { num: self.num * other.den, den: self.den * other.num }
    }

    /// Largest integer at most this fraction.
    pub fn floor_int(&self) -> (i: i128)
        requires
            self.wf(),
            self.num > i128::MIN,
        ensures
            self.den * i <= self.num < self.den * (i + 1),
    {
        let d = self.den as u128;
        if self.num >= 0 {
            let q = (self.num as u128) / d;
            proof {
                lemma_fundamental_div_mod(self.num as int, self.den as int);
                lemma_mod_division_less_than_divisor(self.num as int, self.den as int);
                assert(self.den * ((self.num as int) / (self.den as int) + 1)
                    == self.den * ((self.num as int) / (self.den as int)) + self.den)
                    by (nonlinear_arith);
            }
            q as i128
        } else {
            let a = (-self.num) as u128;
            let q = (a + d - 1) / d;
            proof {
                lemma_fundamental_div_mod(a as int + d as int - 1, self.den as int);
                lemma_mod_division_less_than_divisor(a as int + d as int - 1, self.den as int);
                let qq = (a as int + d as int - 1) / (d as int);
                assert(0 <= qq) by (nonlinear_arith)
                    requires
                        d as int > 0,
                        a as int >= 1,
                        a as int + d as int - 1 == (d as int) * qq + (a as int + d as int - 1) % (d as int),
                        0 <= (a as int + d as int - 1) % (d as int) < d as int,
                ;
                assert(qq <= a as int) by (nonlinear_arith)
                    requires
                        d as int > 0,
                        a as int >= 1,
                        a as int + d as int - 1 == (d as int) * qq + (a as int + d as int - 1) % (d as int),
                        0 <= (a as int + d as int - 1) % (d as int) < d as int,
                ;
                assert(self.den * (-qq) <= self.num < self.den * (-qq + 1)) by (nonlinear_arith)
                    requires
                        self.den == d as int,
                        self.num == -(a as int),
                        d as int > 0,
                        a as int >= 1,
                        a as int + d as int - 1 == (d as int) * qq + (a as int + d as int - 1) % (d as int),
                        0 <= (a as int + d as int - 1) % (d as int) < d as int,
                ;
            }
            -(q as i128)
        }
    }

    /// Smallest integer at least this fraction.
    pub fn ceil_int(&self) -> (i: i128)
        requires
            self.wf(),
            self.num > i128::MIN,
        ensures
            self.den * (i - 1) < self.num <= self.den * i,
    {
        let d = self.den as u128;
        if self.num > 0 {
            let a = self.num as u128;
            let q = (a + d - 1) / d;
            proof {
                lemma_fundamental_div_mod(a as int + d as int - 1, self.den as int);
                lemma_mod_division_less_than_divisor(a as int + d as int - 1, self.den as int);
                let qq = (a as int + d as int - 1) / (d as int);
                assert(0 <= qq && qq <= a as int) by (nonlinear_arith)
                    requires
                        d as int > 0,
                        a as int >= 1,
                        a as int + d as int - 1 == (d as int) * qq + (a as int + d as int - 1) % (d as int),
                        0 <= (a as int + d as int - 1) % (d as int) < d as int,
                ;
                assert(self.den * (qq - 1) < self.num <= self.den * qq) by (nonlinear_arith)
                    requires
                        self.den == d as int,
                        self.num == a as int,
                        d as int > 0,
                        a as int >= 1,
                        a as int + d as int - 1 == (d as int) * qq + (a as int + d as int - 1) % (d as int),
                        0 <= (a as int + d as int - 1) % (d as int) < d as int,
                ;
            }
            q as i128
        } else {
            let a = (-self.num) as u128;
            let q = a / d;
            proof {
                lemma_fundamental_div_mod(a as int, self.den as int);
                lemma_mod_division_less_than_divisor(a as int, self.den as int);
                let qq = (a as int) / (d as int);
                assert(0 <= qq && qq <= a as int) by (nonlinear_arith)
                    requires
                        d as int > 0,
                        a as int >= 0,
                        a as int == (d as int) * qq + (a as int) % (d as int),
                        0 <= (a as int) % (d as int) < d as int,
                ;
                assert(self.den * (-qq - 1) < self.num <= self.den * (-qq)) by (nonlinear_arith)
                    requires
                        self.den == d as int,
                        self.num == -(a as int),
                        d as int > 0,
                        a as int >= 0,
                        a as int == (d as int) * qq + (a as int) % (d as int),
                        0 <= (a as int) % (d as int) < d as int,
                ;
            }
            -(q as i128)
        }
    }

    /// Decides `self <= other` on the rational values.
    pub fn le_than(&self, other: &Rat) -> (r: bool)
        requires
            self.wf(),
            other.wf(),
            fits_i128(self.num * other.den),
            fits_i128(other.num * self.den),
        ensures
            r == self.le(*other),
    {
        self.num * other.den <= other.num * self.den
    }

    /// Decides whether the two fractions denote the same rational value.
    pub fn eqv_to(&self, other: &Rat) -> (r: bool)
        requires
            self.wf(),
            other.wf(),
            fits_i128(self.num * other.den),
            fits_i128(other.num * self.den),
        ensures
            r == self.eqv(*other),
    {
        self.num * other.den == other.num * self.den
    }
}

/// A product of values bounded in magnitude is bounded by the product
/// of the bounds.
pub proof fn lemma_mul_bound(a: int, b: int, ba: int, bb: int)
    by (nonlinear_arith)
    requires
        -ba <= a <= ba,
        -bb <= b <= bb,
        0 <= ba,
        0 <= bb,
    ensures
        -(ba * bb) <= a * b <= ba * bb,
{
}

/// A product of positive values is positive.
pub proof fn lemma_mul_pos(a: int, b: int)
    by (nonlinear_arith)
    requires
        a > 0,
        b > 0,
    ensures
        a * b > 0,
{
}

/// The floor of `p / q` is the unique integer whose multiples of `q`
/// bracket `p` from below.
pub proof fn lemma_floor_frac_bounds(p: int, q: int)
    requires
        q > 0,
    ensures
        q * floor_frac(p, q) <= p < q * (floor_frac(p, q) + 1),
{
    lemma_fundamental_div_mod(p, q);
    lemma_mod_division_less_than_divisor(p, q);
    assert(q * (floor_frac(p, q) + 1) == q * floor_frac(p, q) + q) by (nonlinear_arith);
}

/// The ceiling of `p / q` is the unique integer whose multiples of `q`
/// bracket `p` from above.
pub proof fn lemma_ceil_frac_bounds(p: int, q: int)
    requires
        q > 0,
    ensures
        q * (ceil_frac(p, q) - 1) < p <= q * ceil_frac(p, q),
{
    lemma_floor_frac_bounds(-p, q);
    let f = floor_frac(-p, q);
    assert(q * (ceil_frac(p, q) - 1) < p <= q * ceil_frac(p, q)) by (nonlinear_arith)
        requires
            q > 0,
            q * f <= -p < q * (f + 1),
            ceil_frac(p, q) == -f,
    ;
}

/// Any integer bracketing `p` the way the floor does is the floor.
pub proof fn lemma_floor_frac_unique(p: int, q: int, i: int)
    requires
        q > 0,
        q * i <= p < q * (i + 1),
    ensures
        i == floor_frac(p, q),
{
    lemma_floor_frac_bounds(p, q);
    let f = floor_frac(p, q);
    assert(i == f) by (nonlinear_arith)
        requires
            q > 0,
            q * i <= p < q * (i + 1),
            q * f <= p < q * (f + 1),
    ;
}

/// Any integer bracketing `p` the way the ceiling does is the ceiling.
pub proof fn lemma_ceil_frac_unique(p: int, q: int, i: int)
    requires
        q > 0,
        q * (i - 1) < p <= q * i,
    ensures
        i == ceil_frac(p, q),
{
    lemma_ceil_frac_bounds(p, q);
    let c = ceil_frac(p, q);
    assert(i == c) by (nonlinear_arith)
        requires
            q > 0,
            q * (i - 1) < p <= q * i,
            q * (c - 1) < p <= q * c,
    ;
}

/// An integer is at most the floor of `p / q` exactly when its product
/// with `q` is at most `p`.
pub proof fn lemma_le_floor_iff(p: int, q: int, i: int)
    requires
        q > 0,
    ensures
        i <= floor_frac(p, q) <==> i * q <= p,
{
    lemma_floor_frac_bounds(p, q);
    let f = floor_frac(p, q);
    assert((i <= f) <==> (i * q <= p)) by (nonlinear_arith)
        requires
            q > 0,
            q * f <= p < q * (f + 1),
    ;
}

/// An integer is at least the ceiling of `p / q` exactly when its
/// product with `q` is at least `p`.
pub proof fn lemma_ge_ceil_iff(p: int, q: int, i: int)
    requires
        q > 0,
    ensures
        i >= ceil_frac(p, q) <==> i * q >= p,
{
    lemma_ceil_frac_bounds(p, q);
    let c = ceil_frac(p, q);
    assert((i >= c) <==> (i * q >= p)) by (nonlinear_arith)
        requires
            q > 0,
            q * (c - 1) < p <= q * c,
    ;
}

} // verus!
