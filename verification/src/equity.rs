//! What a grant is worth on a given day: the vested and the unvested part.

use crate::calendar::{CalendarDate, CLIFF_MONTHS, VESTING_MONTHS};
use crate::dollars::{capped, Dollars};
use crate::ratio::Ratio;
use crate::user_data::Grant;
use std::ops::Add;
use vstd::prelude::*;
use vstd::std_specs::ops::{AddSpec, MulSpec, SubSpec};

verus! {

/// The vested and the unvested shares of a grant, or of several.
#[derive(Debug, Clone, Copy, PartialEq, Eq, Structural)]
pub struct Equity {
    pub vested: Stock,
    pub unvested: Stock,
}

/// A number of shares with what they cost at the grant's price and what
/// they bring at the share price.
#[derive(Debug, Clone, Copy, PartialEq, Eq, Structural)]
pub struct Stock {
    pub cost: Dollars,
    pub revenue: Dollars,
    pub count: u16,
}

/// The shares that have vested of a grant of `total` shares, `elapsed`
/// months after it was made: none in the first twelve months, then a 48th
/// of the grant for each month, whole shares only, and all of them from 48
/// months on.
pub open spec fn vested_shares(total: int, elapsed: int) -> int {
    if elapsed < CLIFF_MONTHS {
        0
    } else if elapsed >= VESTING_MONTHS {
        total
    } else {
        elapsed * total / (VESTING_MONTHS as int)
    }
}

/// A count of shares brought into the range of a `u16`.
pub open spec fn capped_count(count: int) -> u16 {
    if count <= 0 {
        0
    } else if count >= u16::MAX {
        u16::MAX
    } else {
        count as u16
    }
}

/// The shares of all `stocks` together.
pub open spec fn sum_counts(stocks: Seq<Stock>) -> nat
    decreases stocks.len(),
{
    if stocks.len() == 0 {
        0
    } else {
        sum_counts(stocks.drop_last()) + stocks.last().count as nat
    }
}

impl Stock {
    /// `count` shares, bought at `grant_price` and sold at `stock_price`.
    pub open spec fn spec_new(count: u16, grant_price: Dollars, stock_price: Dollars) -> Stock {
        Stock {
            count,
            cost: grant_price.mul_spec(count),
            revenue: stock_price.mul_spec(count),
        }
    }

    /// No shares, as contracts speak of them.
    pub open spec fn spec_default() -> Stock {
        Stock { cost: Dollars::zero(), revenue: Dollars::zero(), count: 0 }
    }

    /// All of `stocks` taken together, as contracts speak of it: the costs,
    /// the revenues and the counts added up, each cut to the largest value
    /// it can hold.
    pub open spec fn spec_sum(stocks: Seq<Stock>) -> Stock {
        Stock {
            cost: Dollars::spec_sum(stocks.map_values(|stock: Stock| stock.cost)),
            revenue: Dollars::spec_sum(stocks.map_values(|stock: Stock| stock.revenue)),
            count: capped_count(sum_counts(stocks) as int),
        }
    }

    /// One more position added to a sum is the sum with that position in
    /// it.
    pub proof fn lemma_sum_push(stocks: Seq<Stock>, next: Stock)
        ensures
            Stock::spec_sum(stocks).add_spec(next) == Stock::spec_sum(stocks.push(next)),
    {
        let costs = stocks.map_values(|stock: Stock| stock.cost);
        let revenues = stocks.map_values(|stock: Stock| stock.revenue);
        Dollars::lemma_sum_push(costs, next.cost);
        Dollars::lemma_sum_push(revenues, next.revenue);
        assert(stocks.push(next).map_values(|stock: Stock| stock.cost) == costs.push(next.cost));
        assert(stocks.push(next).map_values(|stock: Stock| stock.revenue) == revenues.push(
            next.revenue,
        ));
        assert(stocks.push(next).drop_last() == stocks);
    }

    /// `count` shares with their cost at `grant_price` a share and their
    /// revenue at `stock_price` a share.
    pub fn new(count: u16, grant_price: Dollars, stock_price: Dollars) -> (stock: Stock)
        ensures
            stock == Stock::spec_new(count, grant_price, stock_price),
            stock.count == count,
            stock.cost@ == capped(grant_price@ * count),
            stock.revenue@ == capped(stock_price@ * count),
    {
        Stock { count, cost: grant_price * count, revenue: stock_price * count }
    }

    /// What selling the shares leaves once they are paid for. The shares
    /// must bring at least what they cost.
    pub fn gross_profit(&self) -> (profit: Dollars)
        requires
            self.revenue@ >= self.cost@,
        ensures
            profit == self.revenue.sub_spec(self.cost),
            profit@ == self.revenue@ - self.cost@,
    {
        self.revenue - self.cost
    }
}

impl Add for Stock {
    type Output = Stock;

    /// Two positions taken together: costs, revenues and counts add up,
    /// each cut to the largest value it can hold.
    fn add(self, adder: Stock) -> (total: Stock)
        ensures
            total.cost == self.cost.add_spec(adder.cost),
            total.revenue == self.revenue.add_spec(adder.revenue),
            total.cost@ == capped((self.cost@ + adder.cost@) as int),
            total.revenue@ == capped((self.revenue@ + adder.revenue@) as int),
            total.count == capped_count(self.count + adder.count),
    {
        Stock {
            cost: self.cost + adder.cost,
            revenue: self.revenue + adder.revenue,
            count: self.count.saturating_add(adder.count),
        }
    }
}

impl vstd::std_specs::ops::AddSpecImpl for Stock {
    open spec fn obeys_add_spec() -> bool {
        true
    }

    open spec fn add_req(self, adder: Stock) -> bool {
        true
    }

    open spec fn add_spec(self, adder: Stock) -> Stock {
        Stock {
            cost: AddSpec::add_spec(self.cost, adder.cost),
            revenue: AddSpec::add_spec(self.revenue, adder.revenue),
            count: capped_count(self.count + adder.count),
        }
    }
}

impl Default for Stock {
    /// No shares.
    fn default() -> (stock: Stock)
        ensures
            stock == Stock::spec_default(),
            stock.count == 0,
            stock.cost@ == 0,
            stock.revenue@ == 0,
    {
        Stock { cost: Dollars::zero(), revenue: Dollars::zero(), count: 0 }
    }
}

impl Equity {
    /// What `grant` is worth on `date` at `stock_price` a share.
    pub open spec fn spec_new(grant: Grant, date: CalendarDate, stock_price: Dollars) -> Equity {
        let vested = vested_shares(grant.total as int, grant.start.spec_months_until(date));
        Equity {
            vested: Stock::spec_new(vested as u16, grant.price, stock_price),
            unvested: Stock::spec_new((grant.total - vested) as u16, grant.price, stock_price),
        }
    }

    /// All of `equities` taken together, as contracts speak of it: the
    /// vested positions added up, and the unvested ones.
    pub open spec fn spec_sum(equities: Seq<Equity>) -> Equity {
        Equity {
            vested: Stock::spec_sum(equities.map_values(|equity: Equity| equity.vested)),
            unvested: Stock::spec_sum(equities.map_values(|equity: Equity| equity.unvested)),
        }
    }

    /// All of `equities` taken together. Where a cost, a revenue or a count
    /// of shares grows beyond what can be held, it is cut to the largest
    /// value.
    pub fn sum(equities: &Vec<Equity>) -> (total: Equity)
        ensures
            total == Equity::spec_sum(equities@),
    {
        let mut total: Equity = Equity::default();
        let mut k: usize = 0;
        assert(equities@.take(0) == Seq::<Equity>::empty());
        assert(Seq::<Equity>::empty().map_values(|equity: Equity| equity.vested) == Seq::<
            Stock,
        >::empty());
        assert(Seq::<Equity>::empty().map_values(|equity: Equity| equity.unvested) == Seq::<
            Stock,
        >::empty());
        assert(Seq::<Stock>::empty().map_values(|stock: Stock| stock.cost) == Seq::<
            Dollars,
        >::empty());
        assert(Seq::<Stock>::empty().map_values(|stock: Stock| stock.revenue) == Seq::<
            Dollars,
        >::empty());
        while k < equities.len()
            invariant
                k <= equities@.len(),
                total == Equity::spec_sum(equities@.take(k as int)),
            decreases equities@.len() - k,
        {
            proof {
                let before = equities@.take(k as int);
                let next = equities@[k as int];
                assert(before.push(next) == equities@.take(k + 1));
                Stock::lemma_sum_push(
                    before.map_values(|equity: Equity| equity.vested),
                    next.vested,
                );
                Stock::lemma_sum_push(
                    before.map_values(|equity: Equity| equity.unvested),
                    next.unvested,
                );
                assert(before.push(next).map_values(|equity: Equity| equity.vested)
                    == before.map_values(|equity: Equity| equity.vested).push(next.vested));
                assert(before.push(next).map_values(|equity: Equity| equity.unvested)
                    == before.map_values(|equity: Equity| equity.unvested).push(next.unvested));
            }
            total = total + equities[k];
            k += 1;
        }
        assert(equities@.take(k as int) == equities@);
        total
    }

    /// What `grant` is worth on `date` at `stock_price` a share: the shares
    /// that have vested by then, and those that have not.
    pub fn new(grant: &Grant, date: &CalendarDate, stock_price: Dollars) -> (equity: Equity)
        ensures
            equity == Equity::spec_new(*grant, *date, stock_price),
            equity.vested.count == vested_shares(
                grant.total as int,
                grant.start.spec_months_until(*date),
            ),
            equity.vested.count + equity.unvested.count == grant.total,
            grant.start.spec_months_until(*date) == 0 ==> equity.vested.count == 0,
            grant.start.spec_months_until(*date) == 12 ==> equity.vested.count == grant.total / 4,
            grant.start.spec_months_until(*date) >= 48 ==> equity.vested.count == grant.total,
            equity.vested.cost@ == capped(grant.price@ * equity.vested.count),
            equity.vested.revenue@ == capped(stock_price@ * equity.vested.count),
            equity.unvested.cost@ == capped(grant.price@ * equity.unvested.count),
            equity.unvested.revenue@ == capped(stock_price@ * equity.unvested.count),
    {
        let awarded: Ratio = grant.start.percent_awarded(date);
        let part: u16 = awarded.floor_of(grant.total);
        let vested: u16 = if part > grant.total {
            grant.total
        } else {
            part
        };
        let unvested: u16 = grant.total - vested;
        proof {
            lemma_awarded_part(grant.total as int, grant.start.spec_months_until(*date));
            law_vesting(*grant, *date, stock_price);
        }
        Equity {
            vested: Stock::new(vested, grant.price, stock_price),
            unvested: Stock::new(unvested, grant.price, stock_price),
        }
    }
}

impl Add for Equity {
    type Output = Equity;

    /// Two holdings taken together, vested with vested and unvested with
    /// unvested.
    fn add(self, adder: Equity) -> (total: Equity)
        ensures
            total.vested == self.vested.add_spec(adder.vested),
            total.unvested == self.unvested.add_spec(adder.unvested),
    {
        Equity { vested: self.vested + adder.vested, unvested: self.unvested + adder.unvested }
    }
}

impl vstd::std_specs::ops::AddSpecImpl for Equity {
    open spec fn obeys_add_spec() -> bool {
        true
    }

    open spec fn add_req(self, adder: Equity) -> bool {
        true
    }

    open spec fn add_spec(self, adder: Equity) -> Equity {
        Equity {
            vested: AddSpec::add_spec(self.vested, adder.vested),
            unvested: AddSpec::add_spec(self.unvested, adder.unvested),
        }
    }
}

impl Default for Equity {
    /// No shares at all.
    fn default() -> (equity: Equity)
        ensures
            equity.vested == Stock::spec_default(),
            equity.unvested == Stock::spec_default(),
    {
        Equity { vested: Stock::default(), unvested: Stock::default() }
    }
}

/// How a grant vests: nothing where no month has gone by, a quarter of the
/// shares, whole shares only, after exactly twelve months, all of them and
/// no more from 48 months on, and at any time the vested and the unvested
/// shares together are the shares of the grant.
pub proof fn law_vesting(grant: Grant, date: CalendarDate, stock_price: Dollars)
    ensures
        grant.start.spec_months_until(date) == 0 ==> Equity::spec_new(
            grant,
            date,
            stock_price,
        ).vested.count == 0,
        grant.start.spec_months_until(date) == 12 ==> Equity::spec_new(
            grant,
            date,
            stock_price,
        ).vested.count == grant.total / 4,
        grant.start.spec_months_until(date) >= 48 ==> Equity::spec_new(
            grant,
            date,
            stock_price,
        ).vested.count == grant.total,
        Equity::spec_new(grant, date, stock_price).vested.count + Equity::spec_new(
            grant,
            date,
            stock_price,
        ).unvested.count == grant.total,
{
    let total = grant.total as int;
    let elapsed = grant.start.spec_months_until(date);
    if CLIFF_MONTHS <= elapsed < VESTING_MONTHS {
        assert(0 <= elapsed * total / 48 <= total) by (nonlinear_arith)
            requires
                0 <= elapsed < 48,
                total >= 0,
        ;
        if elapsed == 12 {
            assert(12 * total / 48 == total / 4);
        }
    }
}

/// The awarded share of a grant, taken of its shares and held to their
/// number, is the number of vested shares.
proof fn lemma_awarded_part(total: int, elapsed: int)
    requires
        0 <= total <= u16::MAX,
        i64::MIN <= elapsed <= i64::MAX,
    ensures
        0 <= vested_shares(total, elapsed) <= total,
        ({
            let numerator: u64 = if elapsed < CLIFF_MONTHS {
                0
            } else {
                elapsed as u64
            };
            let part = (Ratio { numerator, denominator: VESTING_MONTHS }).spec_floor_of(total);
            vested_shares(total, elapsed) == if part > total {
                total
            } else {
                part
            }
        }),
{
    if elapsed >= CLIFF_MONTHS {
        if elapsed >= VESTING_MONTHS {
            assert(elapsed * total / 48 >= total) by (nonlinear_arith)
                requires
                    elapsed >= 48,
                    total >= 0,
            ;
        } else {
            assert(0 <= elapsed * total / 48 <= total) by (nonlinear_arith)
                requires
                    0 <= elapsed < 48,
                    total >= 0,
            ;
        }
    }
}

} // verus!
