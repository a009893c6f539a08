//! Exact binary rationals: an integer significand scaled by a power of two.

use vstd::prelude::*;

verus! {

/// The number `significand * 2^exponent`.
#[derive(Clone, Copy, Debug, PartialEq, Eq, Structural)]
pub struct Dyadic {
    pub significand: i64,
    pub exponent: i32,
}

impl View for Dyadic {
    /// The pair (significand, exponent) as mathematical integers.
    type V = (int, int);

    open spec fn view(&self) -> (int, int) {
        (self.significand as int, self.exponent as int)
    }
}

/// The product of `a.0 * 2^a.1` and `b.0 * 2^b.1`, in the same form:
/// significands multiply, exponents add.
pub open spec fn product(a: (int, int), b: (int, int)) -> (int, int) {
    (a.0 * b.0, a.1 + b.1)
}

impl Dyadic {
    /// Exact product of two binary rationals.
    pub fn mul(self, other: Dyadic) -> (r: Dyadic)
        requires
            i64::MIN <= self.significand * other.significand <= i64::MAX,
            i32::MIN <= self.exponent + other.exponent <= i32::MAX,
        ensures
            r@ == product(self@, other@),
    {
        Dyadic {
            significand: self.significand * other.significand,
            exponent: self.exponent + other.exponent,
        }
    }
}

} // verus!
