//! Exact fractions of unsigned integers.

use vstd::prelude::*;

verus! {

/// The fraction `num / den`. A well-formed ratio has a positive
/// denominator; it is not kept in lowest terms.
#[derive(Debug, Clone, Copy, PartialEq, Eq)]
pub struct Ratio {
    pub num: u128,
    pub den: u128,
}

impl Ratio {
    /// A ratio that stands for a number: its denominator is positive.
    pub open spec fn wf(self) -> bool {
        self.den > 0
    }

    /// Whether the ratio lies between 0 and 1, both included.
    pub open spec fn is_fraction(self) -> bool {
        self.wf() && self.num <= self.den
    }

    /// The largest whole number that does not exceed the ratio.
    pub open spec fn floor(self) -> nat {
        (self.num / self.den) as nat
    }

    /// The ratio `num / den`.
    pub fn new(num: u128, den: u128) -> (r: Ratio)
        requires
            den > 0,
        ensures
            r.num == num,
            r.den == den,
            r.wf(),
    {
        Ratio { num, den }
    }

    /// The ratio 0.
    pub fn zero() -> (r: Ratio)
        ensures
            r.num == 0,
            r.den == 1,
    {
        Ratio { num: 0, den: 1 }
    }

    /// Whether the ratio is 0.
    pub fn is_zero(&self) -> (r: bool)
        ensures
            r == (self.num == 0),
    {
        self.num == 0
    }

    /// The largest whole number that does not exceed the ratio.
    pub fn whole(&self) -> (r: u128)
        requires
            self.wf(),
        ensures
            r == self.floor(),
    {
        self.num / self.den
    }
}

} // verus!
