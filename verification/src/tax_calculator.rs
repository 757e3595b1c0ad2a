//! A quick estimate of the tax on a profit: all of it at the filer's
//! marginal rate.

use crate::dollars::{capped, Dollars, Hundredths};
use crate::taxes::{marginal_bracket, TaxBracket, TaxTable, TaxUser};
use vstd::prelude::*;
use vstd::std_specs::ops::MulSpec;

verus! {

/// Estimates taxes from a tax table.
#[derive(Debug)]
pub struct TaxCalculator {
    table: TaxTable,
}

impl TaxCalculator {
    /// The table that the calculator works from.
    pub closed spec fn table(&self) -> TaxTable {
        self.table
    }

    /// The rate, in percent, of the bracket that what `user` earns next
    /// falls into, and nothing where the income lies below every bracket.
    pub open spec fn marginal_rate(&self, user: TaxUser) -> u8 {
        match marginal_bracket(
            self.table().spec_info(user.status).brackets@,
            user.income@,
            self.table().spec_info(user.status).brackets@.len(),
        ) {
            Some(bracket) => bracket.rate,
            None => 0,
        }
    }

    /// A calculator that works from `table`.
    pub fn new(table: TaxTable) -> (calculator: TaxCalculator)
        ensures
            calculator.table() == table,
    {
        TaxCalculator { table }
    }

    /// The tax on `gross_profit` when all of it is taxed at the rate of the
    /// bracket that what `user` earns next falls into, cut to whole cents.
    /// No tax is due where the income lies below every bracket.
    pub fn taxes_for_user(&self, user: &TaxUser, gross_profit: Dollars) -> (taxes: Dollars)
        ensures
            taxes == gross_profit.mul_spec(Hundredths(self.marginal_rate(*user) as u32)),
            taxes@ == capped(gross_profit@ * self.marginal_rate(*user) / 100),
    {
        let bracket: Option<TaxBracket> = self.table.bracket_for(user);
        match bracket {
            Some(bracket) => gross_profit * Hundredths(bracket.rate as u32),
            None => {
                let nothing: Dollars = gross_profit * Hundredths(0);
                nothing
            },
        }
    }
}

} // verus!
