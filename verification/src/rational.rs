//! Exact rational values for derived analytics figures.

use vstd::prelude::*;

verus! {

/// A rational number held as a numerator over a strictly positive
/// denominator.
///
/// The analytics in this crate divide one observed price by another. Holding
/// the two sides of that division apart keeps every derived figure exact,
/// where a fixed-width quotient would have to round: the contracts below pin
/// `num` and `den` themselves, so a caller knows the value to full precision.
#[derive(Clone, Copy, Debug, PartialEq, Eq, Structural)]
pub struct Rat {
    pub num: i128,
    pub den: i128,
}

impl View for Rat {
    type V = (int, int);

    open spec fn view(&self) -> (int, int) {
        (self.num as int, self.den as int)
    }
}

impl Rat {
    /// A denominator of zero or below denotes no rational at all.
    pub open spec fn wf(self) -> bool {
        self.den >= 1
    }

    /// The exact value zero, in lowest terms.
    pub fn zero() -> (r: Rat)
        ensures
            r@ == (0int, 1int),
            r.wf(),
    {
        Rat { num: 0, den: 1 }
    }
}

/// Two numerator/denominator pairs denote the same rational
/// (by cross-multiplication, so neither side need be in lowest terms).
pub open spec fn frac_eq(a: (int, int), b: (int, int)) -> bool {
    a.0 * b.1 == b.0 * a.1
}

/// The pair `a` denotes exactly the integer `v`.
pub open spec fn frac_is_int(a: (int, int), v: int) -> bool {
    a.0 == v * a.1
}

} // verus!
