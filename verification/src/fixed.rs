//! Fixed-point numbers for scores, weights and ratios.

use vstd::prelude::*;

verus! {

/// Number of units in one whole point.
pub const SCALE: u64 = 1_000_000;

/// The units of the largest raw score, 100 points.
pub const FULL_SCORE: u64 = 100_000_000;

/// A non-negative decimal number with six fractional digits.
///
/// The number stands for `units / SCALE`. Scores, weights and ratios are all
/// carried in this form, so that sums and comparisons are exact. A quotient
/// is rounded down to the next millionth.
#[derive(Clone, Copy, Debug, PartialEq, Eq, Structural)]
pub struct Fixed {
    pub units: u64,
}

/// `num * factor / den`, rounded down and capped at `cap`.
pub open spec fn capped_ratio(num: nat, den: nat, factor: nat, cap: nat) -> nat {
    if den == 0 {
        0
    } else if (num * factor) / den >= cap {
        cap
    } else {
        (num * factor) / den
    }
}

/// The product of two fixed-point numbers in units, rounded down.
pub open spec fn product_units(a: nat, b: nat) -> nat {
    (a * b) / (SCALE as nat)
}

/// `num * factor / den`, rounded down and capped at `cap`; 0 where `den` is 0.
pub fn ratio_units(num: u128, den: u128, factor: u64, cap: u64) -> (r: u64)
    requires
        num * factor <= u128::MAX,
    ensures
        r == capped_ratio(num as nat, den as nat, factor as nat, cap as nat),
        r <= cap,
{
    if den == 0 {
        return 0;
    }
    let q: u128 = (num * (factor as u128)) / den;
    if q >= cap as u128 {
        cap
    } else {
        q as u64
    }
}

impl Fixed {
    /// The number whose millionths are `units`.
    pub fn from_units(units: u64) -> (r: Fixed)
        ensures
            r.units == units,
    {
        Fixed { units }
    }

    /// The whole number `n`.
    pub fn from_int(n: u32) -> (r: Fixed)
        ensures
            r.units == n * SCALE,
    {
        Fixed { units: (n as u64) * SCALE }
    }

    /// Zero.
    pub fn zero() -> (r: Fixed)
        ensures
            r.units == 0,
    {
        Fixed { units: 0 }
    }

    /// The millionths of this number.
    pub fn units(&self) -> (u: u64)
        ensures
            u == self.units,
    {
        self.units
    }

    /// The whole part of this number.
    pub fn whole(&self) -> (n: u64)
        ensures
            n == self.units / SCALE,
    {
        self.units / SCALE
    }

    /// The product with `other`, rounded down to the next millionth.
    pub fn times(&self, other: Fixed) -> (r: Fixed)
        requires
            product_units(self.units as nat, other.units as nat) <= u64::MAX,
        ensures
            r.units == product_units(self.units as nat, other.units as nat),
    {
        let p: u128 = (self.units as u128) * (other.units as u128);
        Fixed { units: (p / (SCALE as u128)) as u64 }
    }
}

/// A product of a score of at most 100 and a weight of at most 1 is at most
/// the score.
pub proof fn lemma_product_bound(a: nat, b: nat)
    requires
        b <= SCALE,
    ensures
        product_units(a, b) <= a,
{
    assert(a * b <= a * (SCALE as nat)) by (nonlinear_arith)
        requires
            b <= SCALE,
    ;
    assert((a * (SCALE as nat)) / (SCALE as nat) == a) by (nonlinear_arith);
    assert((a * b) / (SCALE as nat) <= (a * (SCALE as nat)) / (SCALE as nat)) by (nonlinear_arith)
        requires
            a * b <= a * (SCALE as nat),
    ;
}

} // verus!
