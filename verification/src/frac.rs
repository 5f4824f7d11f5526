//! Exact unit-interval fractions.
//!
//! Normalized channel values in `[0, 1]` are represented exactly as a
//! numerator over a positive denominator, so that the color-space and level
//! computations stay exact integer arithmetic.

use vstd::prelude::*;

verus! {

/// A fraction `num / den` in the unit interval.
#[derive(Clone, Copy, PartialEq, Eq, Structural, Debug)]
pub struct Frac {
    pub num: u64,
    pub den: u64,
}

/// Two fractions denote the same rational value.
pub open spec fn eq_val(a: Frac, b: Frac) -> bool {
    a.num * b.den == b.num * a.den
}

impl Frac {
    /// The fraction is well formed and lies in `[0, 1]`.
    pub open spec fn ok(self) -> bool {
        1 <= self.den && self.num <= self.den
    }

    /// The byte nearest to `255 * self`, i.e.
    /// `floor((510 * num + den) / (2 * den))`.
    pub open spec fn round255(self) -> int {
        (510 * self.num + self.den) / (2 * self.den)
    }

    /// Builds a fraction from a numerator and a positive denominator.
    pub fn new(num: u64, den: u64) -> (f: Frac)
        requires
            1 <= den,
            num <= den,
        ensures
            f.num == num,
            f.den == den,
            f.ok(),
    {
        Frac { num, den }
    }

    /// Rounds the fraction to a byte in `0..=255`.
    pub fn to_byte(self) -> (r: u8)
        requires
            self.ok(),
            self.den < 0x20_0000_0000_0000,
        ensures
            r == self.round255(),
    {
        proof {
            lemma_round255_in_range(self);
        }
        ((510 * self.num + self.den) / (2 * self.den)) as u8
    }
}

/// The rounded byte of a unit fraction stays within `0..=255`.
pub proof fn lemma_round255_in_range(f: Frac)
    requires
        f.ok(),
    ensures
        0 <= f.round255() <= 255,
{
    lemma_div_below(510 * f.num + f.den, 2 * f.den, 256);
    lemma_div_nonneg(510 * f.num + f.den, 2 * f.den);
}

/// If `0 <= a < q * b` then `a / b < q`.
pub proof fn lemma_div_below(a: int, b: int, q: int) by (nonlinear_arith)
    requires
        b >= 1,
        0 <= a,
        a < q * b,
    ensures
        a / b < q,
{
}

/// A quotient of non-negative numbers is non-negative.
pub proof fn lemma_div_nonneg(a: int, b: int) by (nonlinear_arith)
    requires
        b >= 1,
        0 <= a,
    ensures
        0 <= a / b,
{
}

/// Division of ordered numerators by a common positive denominator keeps the
/// order.
pub proof fn lemma_div_mono(a: int, b: int, d: int) by (nonlinear_arith)
    requires
        d >= 1,
        a <= b,
    ensures
        a / d <= b / d,
{
}

} // verus!
