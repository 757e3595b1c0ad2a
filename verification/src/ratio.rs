//! Plain ratios: what dividing one amount by another gives.

use vstd::prelude::*;

verus! {

/// A ratio of two counts, kept exact as numerator over denominator.
///
/// A ratio over zero stands for no finite number: it is beyond every count
/// when its numerator is positive, and counts as nothing when that is zero
/// too.
#[derive(Debug, Clone, Copy)]
pub struct Ratio {
    pub numerator: u64,
    pub denominator: u64,
}

/// The least whole number that is not below `numerator / denominator`, for a
/// positive denominator.
pub open spec fn ceil_div(numerator: int, denominator: int) -> int {
    (numerator + denominator - 1) / denominator
}

impl Ratio {
    /// The ratio rounded up to a whole count, as far as a `u32` reaches.
    pub open spec fn spec_ceil(self) -> int {
        if self.denominator == 0 {
            if self.numerator == 0 {
                0
            } else {
                u32::MAX as int
            }
        } else if ceil_div(self.numerator as int, self.denominator as int) > u32::MAX {
            u32::MAX as int
        } else {
            ceil_div(self.numerator as int, self.denominator as int)
        }
    }

    /// `count` times the ratio, rounded down to a whole count, as far as a
    /// `u16` reaches.
    pub open spec fn spec_floor_of(self, count: int) -> int {
        if self.denominator == 0 {
            if self.numerator == 0 || count == 0 {
                0
            } else {
                u16::MAX as int
            }
        } else if self.numerator * count / (self.denominator as int) > u16::MAX {
            u16::MAX as int
        } else {
            self.numerator * count / (self.denominator as int)
        }
    }

    /// The least count that is not below the ratio. A ratio beyond the
    /// largest `u32` gives that largest count.
    pub fn ceil(&self) -> (count: u32)
        ensures
            count == self.spec_ceil(),
    {
        if self.denominator == 0 {
            if self.numerator == 0 {
                0
            } else {
                u32::MAX
            }
        } else {
            let quotient: u64 = self.numerator / self.denominator;
            let remainder: u64 = self.numerator % self.denominator;
            proof {
                lemma_ceil_div(self.numerator as int, self.denominator as int);
            }
            if quotient >= 0xffff_ffff {
                u32::MAX
            } else if remainder == 0 {
                quotient as u32
            } else {
                (quotient + 1) as u32
            }
        }
    }

    /// The whole part of `count` times the ratio. A product beyond the
    /// largest `u16` gives that largest count.
    pub fn floor_of(&self, count: u16) -> (part: u16)
        ensures
            part == self.spec_floor_of(count as int),
    {
        if self.denominator == 0 {
            if self.numerator == 0 || count == 0 {
                0
            } else {
                u16::MAX
            }
        } else {
            assert(self.numerator * count <= u64::MAX * u16::MAX) by (nonlinear_arith)
                requires
                    self.numerator <= u64::MAX,
                    count <= u16::MAX,
            ;
            let product: u128 = (self.numerator as u128) * (count as u128);
            let quotient: u128 = product / (self.denominator as u128);
            if quotient > 0xffff {
                u16::MAX
            } else {
                quotient as u16
            }
        }
    }
}

/// Rounding up is rounding down, plus one where something is left over.
pub proof fn lemma_ceil_div(numerator: int, denominator: int)
    requires
        0 <= numerator,
        0 < denominator,
    ensures
        numerator % denominator == 0 ==> ceil_div(numerator, denominator) == numerator
            / denominator,
        numerator % denominator != 0 ==> ceil_div(numerator, denominator) == numerator
            / denominator + 1,
{
    let q = numerator / denominator;
    let r = numerator % denominator;
    assert(numerator == q * denominator + r) by (nonlinear_arith)
        requires
            q == numerator / denominator,
            r == numerator % denominator,
            denominator > 0,
    ;
    if r == 0 {
        assert((q * denominator + denominator - 1) / denominator == q) by (nonlinear_arith)
            requires
                denominator > 0,
        ;
    } else {
        assert(0 < r < denominator) by (nonlinear_arith)
            requires
                r == numerator % denominator,
                r != 0,
                denominator > 0,
        ;
        assert((q * denominator + r + denominator - 1) / denominator == q + 1)
            by (nonlinear_arith)
            requires
                0 < r < denominator,
        ;
    }
}

} // verus!
