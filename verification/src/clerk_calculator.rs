//! The whole calculation: what the grants of a filer are worth on the day
//! of exercise, what the profit on the vested shares is, and how that
//! profit is taxed on top of the filer's income.

use crate::calendar::CalendarDate;
use crate::dollars::{capped, sum_cents, Dollars};
use crate::equity::{Equity, Stock};
use crate::ratio::Ratio;
use crate::taxes::{
    law_taxes_within_profit, rates_within_whole, taxes_on, TaxInformation, TaxTable, TaxUser,
    TaxedAmount,
};
use crate::user_data::{Grant, UserData};
use vstd::prelude::*;
use vstd::std_specs::ops::{AddSpec, DivSpec, SubSpec};

verus! {

/// What a calculation found.
#[derive(Debug, PartialEq, Eq)]
pub struct StockCalculation {
    grants: Vec<(Grant, Equity)>,
    total: Equity,
    taxes: Vec<TaxedAmount>,
    share_value: Dollars,
    exercise_date: CalendarDate,
}

/// What a calculation holds, as contracts speak of it.
pub struct CalculationView {
    /// Each grant once, in the order in which the grants first came, with
    /// what it is worth.
    pub grants: Seq<(Grant, Equity)>,
    /// All grants taken together.
    pub total: Equity,
    /// How the profit on the vested shares is taxed, the highest rate
    /// first.
    pub taxes: Seq<TaxedAmount>,
    pub share_value: Dollars,
    pub exercise_date: CalendarDate,
}

/// Who calculates: the tax table to go by and the day of exercise.
#[derive(Debug)]
pub struct StockClerk {
    pub tax_table: TaxTable,
    pub exercise_date: CalendarDate,
}

/// Whether one of `entries` is for `grant`.
pub open spec fn holds_grant(entries: Seq<(Grant, Equity)>, grant: Grant) -> bool {
    exists|j: int| 0 <= j < entries.len() && (#[trigger] entries[j]).0 == grant
}

/// Each of `grants` once, in the order in which they first come, with what
/// it is worth on `date` at `share_value` a share.
pub open spec fn grant_equities(
    grants: Seq<Grant>,
    date: CalendarDate,
    share_value: Dollars,
) -> Seq<(Grant, Equity)>
    decreases grants.len(),
{
    if grants.len() == 0 {
        Seq::empty()
    } else if holds_grant(grant_equities(grants.drop_last(), date, share_value), grants.last()) {
        grant_equities(grants.drop_last(), date, share_value)
    } else {
        grant_equities(grants.drop_last(), date, share_value).push(
            (grants.last(), Equity::spec_new(grants.last(), date, share_value)),
        )
    }
}

/// No grant has more than one of `entries`.
pub open spec fn distinct_grants(entries: Seq<(Grant, Equity)>) -> bool {
    forall|i: int, j: int|
        0 <= i < j < entries.len() ==> (#[trigger] entries[i]).0 != (#[trigger] entries[j]).0
}

/// Each of `entries` holds what its grant is worth on `date` at
/// `share_value` a share.
pub open spec fn worth_their_grants(
    entries: Seq<(Grant, Equity)>,
    date: CalendarDate,
    share_value: Dollars,
) -> bool {
    forall|k: int|
        0 <= k < entries.len() ==> (#[trigger] entries[k]).1 == Equity::spec_new(
            entries[k].0,
            date,
            share_value,
        )
}

/// What `grant_equities` makes of a list of grants: an entry for each grant
/// of the list and for no other, for none of them more than one, and in
/// each entry what its grant is worth.
pub proof fn lemma_grant_equities(grants: Seq<Grant>, date: CalendarDate, share_value: Dollars)
    ensures
        distinct_grants(grant_equities(grants, date, share_value)),
        worth_their_grants(grant_equities(grants, date, share_value), date, share_value),
        forall|grant: Grant|
            #![trigger holds_grant(grant_equities(grants, date, share_value), grant)]
            #![trigger grants.contains(grant)]
            holds_grant(grant_equities(grants, date, share_value), grant) <==> grants.contains(
                grant,
            ),
    decreases grants.len(),
{
    let entries = grant_equities(grants, date, share_value);
    if grants.len() > 0 {
        let before = grant_equities(grants.drop_last(), date, share_value);
        let last = grants.last();
        lemma_grant_equities(grants.drop_last(), date, share_value);
        assert forall|grant: Grant| holds_grant(entries, grant) <==> grants.contains(grant) by {
            if holds_grant(entries, grant) {
                let j = choose|j: int| 0 <= j < entries.len() && (#[trigger] entries[j]).0 == grant;
                if j < before.len() {
                    assert(before[j].0 == grant);
                    assert(holds_grant(before, grant));
                    assert(grants.drop_last().contains(grant));
                    let at = grants.drop_last().index_of(grant);
                    assert(grants[at] == grant);
                } else {
                    assert(grants[grants.len() - 1] == grant);
                }
            }
            if grants.contains(grant) {
                let at = grants.index_of(grant);
                if at < grants.len() - 1 {
                    assert(grants.drop_last()[at] == grant);
                    assert(grants.drop_last().contains(grant));
                    assert(holds_grant(before, grant));
                    let j = choose|j: int|
                        0 <= j < before.len() && (#[trigger] before[j]).0 == grant;
                    assert(entries[j].0 == grant);
                } else if !holds_grant(before, last) {
                    assert(entries[entries.len() - 1].0 == grant);
                }
            }
        }
    } else {
        assert forall|grant: Grant| holds_grant(entries, grant) <==> grants.contains(grant) by {}
    }
}

impl StockCalculation {
    /// No grant is held twice, each grant is held with what it is worth,
    /// and the total is what all of them come to.
    #[verifier::type_invariant]
    pub closed spec fn wf(&self) -> bool {
        &&& distinct_grants(self.grants@)
        &&& worth_their_grants(self.grants@, self.exercise_date, self.share_value)
        &&& self.total == Equity::spec_sum(
            self.grants@.map_values(|entry: (Grant, Equity)| entry.1),
        )
    }

    /// What the calculation holds, as contracts speak of it.
    pub closed spec fn view(&self) -> CalculationView {
        CalculationView {
            grants: self.grants@,
            total: self.total,
            taxes: self.taxes@,
            share_value: self.share_value,
            exercise_date: self.exercise_date,
        }
    }
}

impl CalculationView {
    /// What selling the vested shares leaves once they are paid for.
    pub open spec fn gross_profit(&self) -> Dollars {
        self.total.vested.revenue.sub_spec(self.total.vested.cost)
    }

    /// The taxes owed on the profit.
    pub open spec fn taxes_owed(&self) -> Dollars {
        taxes_on(self.taxes)
    }

    /// What the vested shares cost, taxes included.
    pub open spec fn cost_with_taxes(&self) -> Dollars {
        self.total.vested.cost.add_spec(self.taxes_owed())
    }

    /// What is left of the revenue of the vested shares after their cost
    /// and the taxes.
    pub open spec fn net_profit(&self) -> Dollars {
        self.total.vested.revenue.sub_spec(self.cost_with_taxes())
    }

    /// The least number of shares whose sale at the share value covers the
    /// cost of the vested shares and the taxes.
    pub open spec fn min_zero_cost_sell(&self) -> int {
        self.cost_with_taxes().div_spec(self.share_value).spec_ceil()
    }
}

impl StockClerk {
    /// Each grant of `user` once with what it is worth, as contracts speak
    /// of it.
    pub open spec fn spec_grants(&self, user: UserData, share_value: Dollars) -> Seq<
        (Grant, Equity),
    > {
        grant_equities(user.grants@, self.exercise_date, share_value)
    }

    /// All grants of `user` taken together, as contracts speak of it.
    pub open spec fn spec_total(&self, user: UserData, share_value: Dollars) -> Equity {
        Equity::spec_sum(
            self.spec_grants(user, share_value).map_values(|entry: (Grant, Equity)| entry.1),
        )
    }

    /// What can be calculated: the brackets of the filer's status are in
    /// order, the vested shares bring at least what they cost, and the
    /// income with the profit on top is no less than the deduction.
    pub open spec fn can_calculate(&self, user: UserData, share_value: Dollars) -> bool {
        let total = self.spec_total(user, share_value);
        let info = self.tax_table.spec_info(user.filing_status);
        &&& info.wf()
        &&& total.vested.revenue@ >= total.vested.cost@
        &&& capped(user.income@ + total.vested.revenue@ - total.vested.cost@) >= info.deduction@
    }

    /// What the calculation for `user` at `share_value` a share holds.
    pub open spec fn spec_calculate(
        &self,
        user: UserData,
        share_value: Dollars,
    ) -> CalculationView {
        let total = self.spec_total(user, share_value);
        CalculationView {
            grants: self.spec_grants(user, share_value),
            total,
            taxes: self.tax_table.spec_info(user.filing_status).spec_allocate(
                user.income,
                total.vested.revenue.sub_spec(total.vested.cost),
            ),
            share_value,
            exercise_date: self.exercise_date,
        }
    }

    /// Works out what each grant of `user` is worth on the day of exercise
    /// at `share_value` a share, what all grants come to, and how the
    /// profit on the vested shares is taxed on top of the income of `user`.
    /// A grant that comes more than once counts once.
    pub fn calculate(&self, user: &UserData, share_value: Dollars) -> (calculation:
        StockCalculation)
        requires
            self.can_calculate(*user, share_value),
        ensures
            calculation@ == self.spec_calculate(*user, share_value),
            rates_within_whole(self.tax_table.spec_info(user.filing_status).brackets@)
                ==> calculation@.total.vested.revenue@ >= calculation@.cost_with_taxes()@,
    {
        let grants: Vec<(Grant, Equity)> = self.equities_for(&user.grants, share_value);
        let total: Equity = Equity::sum(&equities_of(&grants));
        proof {
            use_type_invariant(&total.vested.revenue);
            use_type_invariant(&total.vested.cost);
        }
        self.finish(user, share_value, grants, total)
    }

    /// Does what `calculate` does where that can be done, and says so
    /// where it cannot.
    pub fn try_calculate(&self, user: &UserData, share_value: Dollars) -> (calculation: Option<
        StockCalculation,
    >)
        ensures
            calculation.is_some() == self.can_calculate(*user, share_value),
            calculation matches Some(found) ==> found@ == self.spec_calculate(*user, share_value),
            calculation matches Some(found) ==> (rates_within_whole(
                self.tax_table.spec_info(user.filing_status).brackets@,
            ) ==> found@.total.vested.revenue@ >= found@.cost_with_taxes()@),
    {
        let info: &TaxInformation = self.tax_table.info(user.filing_status);
        if !info.is_valid() {
            return None;
        }
        let grants: Vec<(Grant, Equity)> = self.equities_for(&user.grants, share_value);
        let total: Equity = Equity::sum(&equities_of(&grants));
        proof {
            use_type_invariant(&total.vested.revenue);
            use_type_invariant(&total.vested.cost);
        }
        if total.vested.revenue < total.vested.cost {
            return None;
        }
        let profits: Dollars = total.vested.gross_profit();
        if user.income + profits < info.deduction {
            return None;
        }
        Some(self.finish(user, share_value, grants, total))
    }

    /// Taxes the profit on the vested shares of `total` and puts the
    /// calculation together.
    fn finish(
        &self,
        user: &UserData,
        share_value: Dollars,
        grants: Vec<(Grant, Equity)>,
        total: Equity,
    ) -> (calculation: StockCalculation)
        requires
            self.can_calculate(*user, share_value),
            grants@ == self.spec_grants(*user, share_value),
            total == self.spec_total(*user, share_value),
        ensures
            calculation@ == self.spec_calculate(*user, share_value),
            rates_within_whole(self.tax_table.spec_info(user.filing_status).brackets@)
                ==> calculation@.total.vested.revenue@ >= calculation@.cost_with_taxes()@,
    {
        proof {
            if rates_within_whole(self.tax_table.spec_info(user.filing_status).brackets@) {
                law_revenue_covers_cost_and_taxes(*self, *user, share_value);
            }
        }
        let profits: Dollars = total.vested.gross_profit();
        let tax_user: TaxUser = TaxUser { income: user.income, status: user.filing_status };
        let taxes: Vec<TaxedAmount> = self.tax_table.allocate(&tax_user, profits);
        proof {
            lemma_grant_equities(user.grants@, self.exercise_date, share_value);
        }
        StockCalculation { total, grants, share_value, taxes, exercise_date: self.exercise_date }
    }

    /// Each of `grants` once, in the order in which they first come, with
    /// what it is worth.
    fn equities_for(&self, grants: &Vec<Grant>, share_value: Dollars) -> (entries: Vec<
        (Grant, Equity),
    >)
        ensures
            entries@ == grant_equities(grants@, self.exercise_date, share_value),
    {
        let mut entries: Vec<(Grant, Equity)> = Vec::new();
        let mut i: usize = 0;
        assert(grants@.take(0) == Seq::<Grant>::empty());
        while i < grants.len()
            invariant
                i <= grants@.len(),
                entries@ == grant_equities(grants@.take(i as int), self.exercise_date, share_value),
            decreases grants@.len() - i,
        {
            let grant: Grant = grants[i];
            assert(grants@.take(i + 1).drop_last() == grants@.take(i as int));
            if !has_grant(&entries, &grant) {
                let equity: Equity = Equity::new(&grant, &self.exercise_date, share_value);
                entries.push((grant, equity));
            }
            i += 1;
        }
        assert(grants@.take(i as int) == grants@);
        entries
    }
}

/// Whether one of `entries` is for `grant`.
fn has_grant(entries: &Vec<(Grant, Equity)>, grant: &Grant) -> (found: bool)
    ensures
        found == holds_grant(entries@, *grant),
{
    let mut j: usize = 0;
    while j < entries.len()
        invariant
            j <= entries@.len(),
            forall|k: int| 0 <= k < j ==> (#[trigger] entries@[k]).0 != *grant,
        decreases entries@.len() - j,
    {
        if entries[j].0 == *grant {
            return true;
        }
        j += 1;
    }
    false
}

/// What each of `entries` is worth, in their order.
fn equities_of(entries: &Vec<(Grant, Equity)>) -> (equities: Vec<Equity>)
    ensures
        equities@ == entries@.map_values(|entry: (Grant, Equity)| entry.1),
{
    let mut equities: Vec<Equity> = Vec::new();
    let mut j: usize = 0;
    while j < entries.len()
        invariant
            j <= entries@.len(),
            equities@ == entries@.take(j as int).map_values(|entry: (Grant, Equity)| entry.1),
        decreases entries@.len() - j,
    {
        assert(entries@.take(j + 1).map_values(|entry: (Grant, Equity)| entry.1)
            == entries@.take(j as int).map_values(|entry: (Grant, Equity)| entry.1).push(
            entries@[j as int].1,
        ));
        equities.push(entries[j].1);
        j += 1;
    }
    assert(entries@.take(j as int) == entries@);
    equities
}

impl StockCalculation {
    /// Each grant once, in the order in which the grants first came, with
    /// what it is worth.
    pub fn grants(&self) -> (grants: &Vec<(Grant, Equity)>)
        ensures
            grants@ == self@.grants,
            distinct_grants(grants@),
            worth_their_grants(grants@, self@.exercise_date, self@.share_value),
    {
        proof {
            use_type_invariant(self);
        }
        &self.grants
    }

    /// All grants taken together.
    pub fn total(&self) -> (total: Equity)
        ensures
            total == self@.total,
            total == Equity::spec_sum(
                self@.grants.map_values(|entry: (Grant, Equity)| entry.1),
            ),
    {
        proof {
            use_type_invariant(self);
        }
        self.total
    }

    /// How the profit on the vested shares is taxed, the highest rate
    /// first.
    pub fn taxes(&self) -> (taxes: &Vec<TaxedAmount>)
        ensures
            taxes@ == self@.taxes,
    {
        &self.taxes
    }

    /// The value of a share that the calculation went by.
    pub fn share_value(&self) -> (share_value: Dollars)
        ensures
            share_value == self@.share_value,
    {
        self.share_value
    }

    /// The day of exercise that the calculation went by.
    pub fn exercise_date(&self) -> (date: CalendarDate)
        ensures
            date == self@.exercise_date,
    {
        self.exercise_date
    }

    /// The taxes owed on the profit: the tax on each taxed amount at its
    /// rate, added up.
    pub fn taxes_owed(&self) -> (owed: Dollars)
        ensures
            owed == self@.taxes_owed(),
    {
        let mut owed: Dollars = Dollars::zero();
        let mut k: usize = 0;
        assert(self.taxes@.take(0).map_values(|part: TaxedAmount| part.spec_taxes()) == Seq::<
            Dollars,
        >::empty());
        while k < self.taxes.len()
            invariant
                k <= self.taxes@.len(),
                owed == taxes_on(self.taxes@.take(k as int)),
            decreases self.taxes@.len() - k,
        {
            proof {
                let before = self.taxes@.take(k as int);
                let next = self.taxes@[k as int];
                Dollars::lemma_sum_push(
                    before.map_values(|part: TaxedAmount| part.spec_taxes()),
                    next.spec_taxes(),
                );
                assert(self.taxes@.take(k + 1).map_values(|part: TaxedAmount| part.spec_taxes())
                    == before.map_values(|part: TaxedAmount| part.spec_taxes()).push(
                    next.spec_taxes(),
                ));
            }
            owed = owed + self.taxes[k].taxes();
            k += 1;
        }
        assert(self.taxes@.take(k as int) == self.taxes@);
        owed
    }

    /// What the vested shares cost, taxes included.
    pub fn cost_with_taxes(&self) -> (cost: Dollars)
        ensures
            cost == self@.cost_with_taxes(),
    {
        self.total.vested.cost + self.taxes_owed()
    }

    /// What is left of the revenue of the vested shares after their cost
    /// and the taxes. The revenue must cover both.
    pub fn net_profit(&self) -> (profit: Dollars)
        requires
            self@.total.vested.revenue@ >= self@.cost_with_taxes()@,
        ensures
            profit == self@.net_profit(),
            profit@ == self@.total.vested.revenue@ - self@.cost_with_taxes()@,
    {
        self.total.vested.revenue - self.cost_with_taxes()
    }

    /// The least number of shares whose sale at the share value covers the
    /// cost of the vested shares and the taxes. Where no number of shares
    /// does, or none that a `u32` holds, it is the largest `u32`.
    pub fn min_zero_cost_sell(&self) -> (count: u32)
        ensures
            count == self@.min_zero_cost_sell(),
    {
        let ratio: Ratio = self.cost_with_taxes() / self.share_value;
        ratio.ceil()
    }
}

/// Where no rate of the filer's brackets is above 100 percent, the taxes
/// take no more than the profit: the revenue of the vested shares covers
/// their cost and the taxes, so there is a net profit to speak of.
pub proof fn law_revenue_covers_cost_and_taxes(
    clerk: StockClerk,
    user: UserData,
    share_value: Dollars,
)
    requires
        clerk.can_calculate(user, share_value),
        rates_within_whole(clerk.tax_table.spec_info(user.filing_status).brackets@),
    ensures
        clerk.spec_calculate(user, share_value).total.vested.revenue@ >= clerk.spec_calculate(
            user,
            share_value,
        ).cost_with_taxes()@,
        clerk.spec_calculate(user, share_value).net_profit()@ == clerk.spec_calculate(
            user,
            share_value,
        ).gross_profit()@ - clerk.spec_calculate(user, share_value).taxes_owed()@,
{
    let found = clerk.spec_calculate(user, share_value);
    let info = clerk.tax_table.spec_info(user.filing_status);
    let vested = found.total.vested;
    let stocks = clerk.spec_grants(user, share_value).map_values(
        |entry: (Grant, Equity)| entry.1,
    ).map_values(|equity: Equity| equity.vested);
    Dollars::lemma_of_cents(capped(sum_cents(stocks.map_values(|stock: Stock| stock.cost)) as int));
    Dollars::lemma_of_cents(
        capped(sum_cents(stocks.map_values(|stock: Stock| stock.revenue)) as int),
    );
    Dollars::lemma_of_cents(capped(vested.revenue@ - vested.cost@));
    let profit = found.gross_profit();
    law_taxes_within_profit(info, user.income, profit);
    Dollars::lemma_of_cents(capped((vested.cost@ + found.taxes_owed()@) as int));
    Dollars::lemma_of_cents(capped(vested.revenue@ - found.cost_with_taxes()@));
}

/// Calculating twice from the same data gives the same calculation, down
/// to every amount derived from it.
pub proof fn law_calculation_repeats(
    clerk: StockClerk,
    user: UserData,
    share_value: Dollars,
    first: StockCalculation,
    second: StockCalculation,
)
    requires
        first@ == clerk.spec_calculate(user, share_value),
        second@ == clerk.spec_calculate(user, share_value),
    ensures
        first@ == second@,
        first@.taxes_owed() == second@.taxes_owed(),
        first@.cost_with_taxes() == second@.cost_with_taxes(),
        first@.net_profit() == second@.net_profit(),
        first@.min_zero_cost_sell() == second@.min_zero_cost_sell(),
{
}

} // verus!
