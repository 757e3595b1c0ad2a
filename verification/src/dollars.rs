//! Exact currency amounts: whole dollars and cents, with arithmetic that
//! never drifts and never wraps.

use crate::ratio::Ratio;
use std::cmp::Ordering;
use std::ops::{Add, Div, Mul, Sub};
use vstd::prelude::*;
use vstd::std_specs::ops::{AddSpec, SubSpec};

verus! {

/// The largest amount a `Dollars` can hold, in cents.
pub const MAX_CENTS: u64 = 429496729599;

/// A currency amount of whole dollars and cents.
///
/// The cents part is always below one dollar, so every amount has exactly
/// one representation and comparing the parts compares the amounts.
#[derive(Debug, Clone, Copy, PartialEq, Eq, Structural, Hash, Ord)]
pub struct Dollars {
    whole: u32,
    cents: u8,
}

/// A plain number with two decimal digits, counted in hundredths:
/// `Hundredths(2343)` stands for 23.43 and `Hundredths(32)` for 32 percent.
#[derive(Debug, Clone, Copy, PartialEq, Eq, Structural)]
pub struct Hundredths(pub u32);

impl View for Dollars {
    type V = nat;

    /// The amount in cents.
    closed spec fn view(&self) -> nat {
        (self.whole * 100 + self.cents) as nat
    }
}

/// A number of cents brought into the range of what a `Dollars` can hold:
/// nothing for a negative number, `MAX_CENTS` for what lies beyond it.
pub open spec fn capped(cents: int) -> nat {
    if cents <= 0 {
        0
    } else if cents >= MAX_CENTS {
        MAX_CENTS as nat
    } else {
        cents as nat
    }
}

/// What all of `amounts` are worth together, in cents.
pub open spec fn sum_cents(amounts: Seq<Dollars>) -> nat
    decreases amounts.len(),
{
    if amounts.len() == 0 {
        0
    } else {
        sum_cents(amounts.drop_last()) + amounts.last()@
    }
}

impl Dollars {
    /// The cents part stays below one dollar.
    #[verifier::type_invariant]
    pub closed spec fn wf(&self) -> bool {
        self.cents <= 99
    }

    /// The amount of `cents` cents, for a number within the range of the
    /// type.
    pub closed spec fn of_cents(cents: nat) -> Dollars {
        if cents >= MAX_CENTS {
            Dollars { whole: u32::MAX, cents: 99 }
        } else {
            Dollars { whole: (cents / 100) as u32, cents: (cents % 100) as u8 }
        }
    }

    /// `of_cents` gives a proper amount, worth what was asked.
    pub proof fn lemma_of_cents(cents: nat)
        ensures
            Dollars::of_cents(cents).wf(),
            cents <= MAX_CENTS ==> Dollars::of_cents(cents)@ == cents,
    {
    }

    /// No proper amount is worth more than `MAX_CENTS`.
    pub proof fn lemma_bounded(self)
        requires
            self.wf(),
        ensures
            self@ <= MAX_CENTS,
    {
    }

    /// A proper amount is the one `of_cents` makes of its worth, so two
    /// proper amounts of the same worth are the same amount.
    pub proof fn lemma_of_view(self)
        requires
            self.wf(),
        ensures
            Dollars::of_cents(self@) == self,
    {
    }

    /// The largest representable amount, as contracts speak of it.
    pub open spec fn spec_max() -> Dollars {
        Dollars::of_cents(MAX_CENTS as nat)
    }

    /// The amount of nothing, as contracts speak of it.
    pub open spec fn spec_zero() -> Dollars {
        Dollars::of_cents(0)
    }

    /// The largest representable amount. It stands for "no upper bound"
    /// where a bound is wanted.
    #[verifier::when_used_as_spec(spec_max)]
    pub fn max() -> (amount: Dollars)
        ensures
            amount == Dollars::spec_max(),
            amount@ == MAX_CENTS,
    {
        Dollars { whole: u32::MAX, cents: 99 }
    }

    /// The amount of nothing.
    #[verifier::when_used_as_spec(spec_zero)]
    pub fn zero() -> (amount: Dollars)
        ensures
            amount == Dollars::spec_zero(),
            amount@ == 0,
    {
        Dollars { whole: 0, cents: 0 }
    }

    /// An amount from a number of dollars and a number of cents, which may
    /// be a dollar or more: the surplus is carried into the dollars. What
    /// goes beyond the largest amount is cut to it.
    pub fn from_parts(whole: u32, cents: u32) -> (amount: Dollars)
        ensures
            amount == Dollars::of_cents(capped(whole * 100 + cents)),
            amount@ == capped(whole * 100 + cents),
    {
        let carried: u32 = cents / 100;
        let rest: u32 = cents % 100;
        match whole.checked_add(carried) {
            Some(dollars) => Dollars { whole: dollars, cents: rest as u8 },
            None => Dollars::max(),
        }
    }

    /// An amount from a number of cents. What goes beyond the largest amount
    /// is cut to it.
    pub fn from_cents(cents: u64) -> (amount: Dollars)
        ensures
            amount == Dollars::of_cents(capped(cents as int)),
            amount@ == capped(cents as int),
    {
        if cents >= MAX_CENTS {
            Dollars::max()
        } else {
            Dollars { whole: (cents / 100) as u32, cents: (cents % 100) as u8 }
        }
    }

    /// The amount counted in cents.
    pub fn as_cents(&self) -> (cents: u64)
        ensures
            cents == self@,
            cents <= MAX_CENTS,
    {
        proof {
            use_type_invariant(self);
        }
        (self.whole as u64) * 100 + (self.cents as u64)
    }

    /// The whole dollars of the amount.
    pub fn whole(&self) -> (whole: u32)
        ensures
            whole == self@ / 100,
    {
        proof {
            use_type_invariant(self);
        }
        self.whole
    }

    /// The cents of the amount beyond its whole dollars.
    pub fn cents(&self) -> (cents: u8)
        ensures
            cents == self@ % 100,
            cents <= 99,
    {
        proof {
            use_type_invariant(self);
        }
        self.cents
    }

    /// The sum of `amounts`, as contracts speak of it: what they are worth
    /// together, or the largest amount where that is beyond it.
    pub open spec fn spec_sum(amounts: Seq<Dollars>) -> Dollars {
        Dollars::of_cents(capped(sum_cents(amounts) as int))
    }

    /// One more amount added to a sum is the sum with that amount in it.
    pub proof fn lemma_sum_push(amounts: Seq<Dollars>, next: Dollars)
        ensures
            sum_cents(amounts.push(next)) == sum_cents(amounts) + next@,
            Dollars::spec_sum(amounts).add_spec(next) == Dollars::spec_sum(amounts.push(next)),
    {
        assert(amounts.push(next).drop_last() == amounts);
    }

    /// An amount put before a list adds its worth to what the list is
    /// worth.
    pub proof fn lemma_sum_prepend(first: Dollars, rest: Seq<Dollars>)
        ensures
            sum_cents(seq![first] + rest) == first@ + sum_cents(rest),
        decreases rest.len(),
    {
        let all = seq![first] + rest;
        if rest.len() == 0 {
            assert(all.drop_last() == Seq::<Dollars>::empty());
            assert(all.last() == first);
            assert(sum_cents(all.drop_last()) == 0);
        } else {
            Dollars::lemma_sum_prepend(first, rest.drop_last());
            assert(all.drop_last() == seq![first] + rest.drop_last());
            assert(all.last() == rest.last());
        }
    }

    /// The sum of `amounts`. A sum beyond the largest amount is cut to it.
    pub fn sum(amounts: &Vec<Dollars>) -> (total: Dollars)
        ensures
            total == Dollars::spec_sum(amounts@),
            total@ == capped(sum_cents(amounts@) as int),
    {
        let mut total: Dollars = Dollars::zero();
        let mut k: usize = 0;
        assert(amounts@.take(0) == Seq::<Dollars>::empty());
        while k < amounts.len()
            invariant
                k <= amounts@.len(),
                total == Dollars::spec_sum(amounts@.take(k as int)),
            decreases amounts@.len() - k,
        {
            proof {
                Dollars::lemma_sum_push(amounts@.take(k as int), amounts@[k as int]);
                assert(amounts@.take(k as int).push(amounts@[k as int]) == amounts@.take(k + 1));
            }
            total = total + amounts[k];
            k += 1;
        }
        assert(amounts@.take(k as int) == amounts@);
        total
    }
}

impl Add for Dollars {
    type Output = Dollars;

    /// The sum of two amounts. A sum beyond the largest amount is cut to it.
    fn add(self, adder: Dollars) -> (total: Dollars)
        ensures
            total == Dollars::of_cents(capped((self@ + adder@) as int)),
            total@ == capped((self@ + adder@) as int),
    {
        proof {
            use_type_invariant(&self);
            use_type_invariant(&adder);
        }
        let cents: u8 = self.cents + adder.cents;
        let (carry, cents): (u32, u8) = if cents > 99 {
            (1, (cents - 100) as u8)
        } else {
            (0, cents)
        };
        match self.whole.checked_add(adder.whole) {
            Some(whole) => match whole.checked_add(carry) {
                Some(whole) => Dollars { whole, cents },
                None => Dollars::max(),
            },
            None => Dollars::max(),
        }
    }
}

impl vstd::std_specs::ops::AddSpecImpl for Dollars {
    open spec fn obeys_add_spec() -> bool {
        true
    }

    open spec fn add_req(self, adder: Dollars) -> bool {
        true
    }

    open spec fn add_spec(self, adder: Dollars) -> Dollars {
        Dollars::of_cents(capped((self@ + adder@) as int))
    }
}

impl std::ops::AddAssign for Dollars {
    /// Adds `adder` to the amount. A sum beyond the largest amount is cut
    /// to it.
    fn add_assign(&mut self, adder: Dollars)
        ensures
            *final(self) == Dollars::of_cents(capped((old(self)@ + adder@) as int)),
            final(self)@ == capped((old(self)@ + adder@) as int),
    {
        *self = *self + adder
    }
}

impl Sub for Dollars {
    type Output = Dollars;

    /// What is left of an amount when `subtrahend`, which is no larger, is
    /// taken away.
    fn sub(self, subtrahend: Dollars) -> (rest: Dollars)
        ensures
            rest == Dollars::of_cents(capped(self@ - subtrahend@)),
            rest@ == self@ - subtrahend@,
    {
        proof {
            use_type_invariant(&self);
            use_type_invariant(&subtrahend);
        }
        if self.cents < subtrahend.cents {
            Dollars {
                whole: self.whole - subtrahend.whole - 1,
                cents: self.cents + 100 - subtrahend.cents,
            }
        } else {
            Dollars {
                whole: self.whole - subtrahend.whole,
                cents: self.cents - subtrahend.cents,
            }
        }
    }
}

impl vstd::std_specs::ops::SubSpecImpl for Dollars {
    open spec fn obeys_sub_spec() -> bool {
        true
    }

    /// Nothing larger can be taken from an amount.
    open spec fn sub_req(self, subtrahend: Dollars) -> bool {
        self@ >= subtrahend@
    }

    open spec fn sub_spec(self, subtrahend: Dollars) -> Dollars {
        Dollars::of_cents(capped(self@ - subtrahend@))
    }
}

impl Mul<u16> for Dollars {
    type Output = Dollars;

    /// The amount taken `multiplier` times, exactly. A product beyond the
    /// largest amount is cut to it.
    fn mul(self, multiplier: u16) -> (product: Dollars)
        ensures
            product == Dollars::of_cents(capped(self@ * multiplier)),
            product@ == capped(self@ * multiplier),
    {
        let times: u32 = multiplier as u32;
        proof {
            use_type_invariant(&self);
            assert(self@ * multiplier == times * self.whole * 100 + times * self.cents)
                by (nonlinear_arith)
                requires
                    self@ == self.whole * 100 + self.cents,
                    times == multiplier,
            ;
            assert(0 <= times * self.cents <= 99 * 65535) by (nonlinear_arith)
                requires
                    self.cents <= 99,
                    times <= 65535,
            ;
            assert(times * self.whole >= 0) by (nonlinear_arith);
        }
        let cents: u32 = times * (self.cents as u32);
        match times.checked_mul(self.whole) {
            Some(whole) => Dollars::from_parts(whole, cents),
            None => Dollars::max(),
        }
    }
}

impl vstd::std_specs::ops::MulSpecImpl<u16> for Dollars {
    open spec fn obeys_mul_spec() -> bool {
        true
    }

    open spec fn mul_req(self, multiplier: u16) -> bool {
        true
    }

    open spec fn mul_spec(self, multiplier: u16) -> Dollars {
        Dollars::of_cents(capped(self@ * multiplier))
    }
}

impl Mul<Hundredths> for Dollars {
    type Output = Dollars;

    /// The amount times a number with two decimal digits. The dollars and
    /// the cents are multiplied apart: the dollars give whole cents, and of
    /// what the cents give the fraction of a cent is dropped, so the product
    /// is cut to whole cents and never rounded up. A product beyond the
    /// largest amount is cut to it.
    fn mul(self, multiplier: Hundredths) -> (product: Dollars)
        ensures
            product == Dollars::of_cents(capped(self@ * multiplier.0 / 100)),
            product@ == capped(self@ * multiplier.0 / 100),
    {
        proof {
            use_type_invariant(&self);
            lemma_scale_by_parts(self.whole as int, self.cents as int, multiplier.0 as int);
        }
        let factor: u64 = multiplier.0 as u64;
        let of_cents: u64 = factor * (self.cents as u64) / 100;
        let of_whole: u64 = factor * (self.whole as u64);
        Dollars::from_cents(of_whole + of_cents)
    }
}

impl vstd::std_specs::ops::MulSpecImpl<Hundredths> for Dollars {
    open spec fn obeys_mul_spec() -> bool {
        true
    }

    open spec fn mul_req(self, multiplier: Hundredths) -> bool {
        true
    }

    open spec fn mul_spec(self, multiplier: Hundredths) -> Dollars {
        Dollars::of_cents(capped(self@ * multiplier.0 / 100))
    }
}

impl Div for Dollars {
    type Output = Ratio;

    /// How many times `divisor` goes into the amount: a plain ratio, no
    /// amount of money.
    fn div(self, divisor: Dollars) -> (ratio: Ratio)
        ensures
            ratio.numerator == self@,
            ratio.denominator == divisor@,
    {
        Ratio { numerator: self.as_cents(), denominator: divisor.as_cents() }
    }
}

impl vstd::std_specs::ops::DivSpecImpl for Dollars {
    open spec fn obeys_div_spec() -> bool {
        true
    }

    open spec fn div_req(self, divisor: Dollars) -> bool {
        true
    }

    open spec fn div_spec(self, divisor: Dollars) -> Ratio {
        Ratio { numerator: self@ as u64, denominator: divisor@ as u64 }
    }
}

/// Multiplying dollars and cents apart, and dropping the fraction of a cent
/// of the cents' share, gives the product of the whole amount cut to cents.
proof fn lemma_scale_by_parts(whole: int, cents: int, factor: int)
    requires
        0 <= whole <= u32::MAX,
        0 <= cents <= 99,
        0 <= factor <= u32::MAX,
    ensures
        factor * whole + factor * cents / 100 == (whole * 100 + cents) * factor / 100,
        factor * cents <= 99 * u32::MAX,
        factor * whole <= u32::MAX * u32::MAX,
        factor * whole >= 0,
        factor * cents >= 0,
{
    assert(factor * cents <= 99 * u32::MAX && factor * cents >= 0) by (nonlinear_arith)
        requires
            0 <= cents <= 99,
            0 <= factor <= u32::MAX,
    ;
    assert(factor * whole <= u32::MAX * u32::MAX && factor * whole >= 0) by (nonlinear_arith)
        requires
            0 <= whole <= u32::MAX,
            0 <= factor <= u32::MAX,
    ;
    let a = factor * whole;
    let b = factor * cents;
    assert((whole * 100 + cents) * factor == a * 100 + b) by (nonlinear_arith)
        requires
            a == factor * whole,
            b == factor * cents,
    ;
    assert((a * 100 + b) / 100 == a + b / 100) by (nonlinear_arith);
}

impl Default for Dollars {
    /// The amount of nothing.
    fn default() -> (amount: Dollars)
        ensures
            amount == Dollars::spec_zero(),
            amount@ == 0,
    {
        Dollars::zero()
    }
}

/// Taking an amount away and giving it back leaves what there was.
pub proof fn law_sub_then_add(a: Dollars, b: Dollars)
    requires
        a.wf(),
        b.wf(),
        a@ >= b@,
    ensures
        a.sub_spec(b).add_spec(b) == a,
{
}

/// A sum is the same whichever term comes first.
pub proof fn law_add_commutes(a: Dollars, b: Dollars)
    ensures
        a.add_spec(b) == b.add_spec(a),
{
}

impl PartialOrd for Dollars {
    /// Orders two amounts by their worth.
    fn partial_cmp(&self, other: &Dollars) -> (order: Option<Ordering>)
        ensures
            order == Some(Ordering::Less) <==> self@ < other@,
            order == Some(Ordering::Equal) <==> self@ == other@,
            order == Some(Ordering::Greater) <==> self@ > other@,
    {
        proof {
            use_type_invariant(self);
            use_type_invariant(other);
        }
        if self.whole < other.whole {
            Some(Ordering::Less)
        } else if self.whole > other.whole {
            Some(Ordering::Greater)
        } else if self.cents < other.cents {
            Some(Ordering::Less)
        } else if self.cents > other.cents {
            Some(Ordering::Greater)
        } else {
            Some(Ordering::Equal)
        }
    }
}

impl vstd::std_specs::cmp::PartialOrdSpecImpl for Dollars {
    open spec fn obeys_partial_cmp_spec() -> bool {
        true
    }

    /// Amounts are ordered as their worth in cents is.
    open spec fn partial_cmp_spec(&self, other: &Dollars) -> Option<Ordering> {
        if self@ < other@ {
            Some(Ordering::Less)
        } else if self@ > other@ {
            Some(Ordering::Greater)
        } else {
            Some(Ordering::Equal)
        }
    }
}

} // verus!
