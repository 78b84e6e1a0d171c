//! Exact rational values.
//!
//! The scale-conversion tables map between two numeric scales whose
//! breakpoints are given in thousandths of a unit.  Interpolating between two
//! breakpoints produces a quotient of integers, so results are kept as exact
//! rationals rather than rounded to a fixed grid.

use vstd::prelude::*;

verus! {

/// Mathematical model of a rational number: a numerator and a positive
/// denominator, compared by cross-multiplication.  Two models denote the same
/// rational exactly when `rat_eq` holds; no canonical (reduced) form is kept.
pub struct Ratio {
    pub num: int,
    pub den: int,
}

/// A model denotes a rational only if its denominator is positive.
pub open spec fn rat_wf(r: Ratio) -> bool {
    r.den > 0
}

/// The rational `x/1`.
pub open spec fn rat_int(x: int) -> Ratio {
    Ratio { num: x, den: 1 }
}

/// `a` and `b` denote the same rational.
pub open spec fn rat_eq(a: Ratio, b: Ratio) -> bool {
    a.num * b.den == b.num * a.den
}

/// `a <= b` as rationals (for well-formed `a`, `b`).
pub open spec fn rat_le(a: Ratio, b: Ratio) -> bool {
    a.num * b.den <= b.num * a.den
}

/// `a < b` as rationals (for well-formed `a`, `b`).
pub open spec fn rat_lt(a: Ratio, b: Ratio) -> bool {
    a.num * b.den < b.num * a.den
}

/// An exact rational with machine-integer components.  The view is the
/// mathematical `Ratio` it denotes.
pub struct Frac {
    num: i128,
    den: i128,
}

impl View for Frac {
    type V = Ratio;

    closed spec fn view(&self) -> Ratio {
        Ratio { num: self.num as int, den: self.den as int }
    }
}

impl Clone for Frac {
    fn clone(&self) -> (r: Self)
        ensures
            r@ == self@,
    {
        Frac { num: self.num, den: self.den }
    }
}

impl Frac {
    /// Builds the rational `num/den`.
    pub fn new(num: i128, den: i128) -> (r: Frac)
        requires
            den > 0,
        ensures
            r@ == (Ratio { num: num as int, den: den as int }),
    {
        Frac { num, den }
    }

    /// The numerator, as stored.
    pub fn num(&self) -> (r: i128)
        ensures
            r as int == self@.num,
    {
        self.num
    }

    /// The denominator, as stored.
    pub fn den(&self) -> (r: i128)
        ensures
            r as int == self@.den,
    {
        self.den
    }

    /// Whether `self` and `other` denote the same rational.
    pub fn same_value(&self, other: &Frac) -> (r: bool)
        requires
            rat_wf(self@),
            rat_wf(other@),
            self@.num * other@.den <= i128::MAX && self@.num * other@.den >= i128::MIN,
            other@.num * self@.den <= i128::MAX && other@.num * self@.den >= i128::MIN,
        ensures
            r == rat_eq(self@, other@),
    {
        self.num * other.den == other.num * self.den
    }
}

} // verus!
