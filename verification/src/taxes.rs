//! Income tax brackets, and how an income and a profit on top of it fall
//! into them.

use crate::dollars::{capped, sum_cents, Dollars, Hundredths, MAX_CENTS};
use vstd::prelude::*;
use vstd::std_specs::ops::MulSpec;

verus! {

/// How a filer files.
#[derive(Debug, Clone, Copy, PartialEq, Eq, Structural)]
pub enum FilingStatus {
    Single,
    Married,
    MarriedSeparately,
    HeadOfHousehold,
}

/// Who is taxed: an income and a filing status.
#[derive(Debug, Clone, Copy)]
pub struct TaxUser {
    pub income: Dollars,
    pub status: FilingStatus,
}

/// The brackets and the deduction of every filing status.
#[derive(Debug)]
pub struct TaxTable {
    pub single: TaxInformation,
    pub married: TaxInformation,
    pub married_separately: TaxInformation,
    pub head_of_household: TaxInformation,
}

/// The brackets of one filing status, lowest first, and its standard
/// deduction.
#[derive(Debug)]
pub struct TaxInformation {
    pub brackets: Vec<TaxBracket>,
    pub deduction: Dollars,
}

/// One bracket: the income at which it starts and the rates above that.
/// It ends where the next bracket starts; the last one has no end.
#[derive(Debug, Clone, Copy, PartialEq, Eq, Structural)]
pub struct TaxBracket {
    pub bracket_start: Dollars,
    pub rate: u8,
    pub capital_gain_rate: u8,
    pub base_amount: Dollars,
}

/// An amount and the rate, in percent, at which it is taxed.
#[derive(Debug, Clone, Copy, PartialEq, Eq, Structural)]
pub struct TaxedAmount {
    pub rate: u8,
    pub amount: Dollars,
}

/// The income at which bracket `i` ends: where the next bracket starts, or,
/// for the last bracket, the largest amount there is.
pub open spec fn bracket_end(brackets: Seq<TaxBracket>, i: int) -> nat {
    if i + 1 < brackets.len() {
        brackets[i + 1].bracket_start@
    } else {
        MAX_CENTS as nat
    }
}

/// Of the income between `bottom` and `top`, the part that lies in bracket
/// `i`, in cents. A bracket holds its start and not its end.
pub open spec fn portion_in_bracket(
    brackets: Seq<TaxBracket>,
    i: int,
    bottom: int,
    top: int,
) -> nat {
    let low = if bottom >= brackets[i].bracket_start@ {
        bottom
    } else {
        brackets[i].bracket_start@ as int
    };
    let high = if top <= bracket_end(brackets, i) {
        top
    } else {
        bracket_end(brackets, i) as int
    };
    if high > low {
        (high - low) as nat
    } else {
        0
    }
}

/// What bracket `i` takes of the income between `bottom` and `top`.
pub open spec fn taxed_in_bracket(
    brackets: Seq<TaxBracket>,
    i: int,
    bottom: int,
    top: int,
) -> TaxedAmount {
    TaxedAmount {
        rate: brackets[i].rate,
        amount: Dollars::of_cents(portion_in_bracket(brackets, i, bottom, top)),
    }
}

/// How the income between `bottom` and `top` falls into the first `upto`
/// brackets: for each bracket that holds some of it, the highest first, its
/// rate and the part it holds.
pub open spec fn taxed_amounts(
    brackets: Seq<TaxBracket>,
    bottom: int,
    top: int,
    upto: nat,
) -> Seq<TaxedAmount>
    decreases upto,
{
    if upto == 0 {
        Seq::empty()
    } else if portion_in_bracket(brackets, upto - 1, bottom, top) > 0 {
        seq![taxed_in_bracket(brackets, upto - 1, bottom, top)] + taxed_amounts(
            brackets,
            bottom,
            top,
            (upto - 1) as nat,
        )
    } else {
        taxed_amounts(brackets, bottom, top, (upto - 1) as nat)
    }
}

/// The amounts of a list of taxed amounts, added up, in cents.
pub open spec fn total_amount(taxed: Seq<TaxedAmount>) -> nat {
    sum_cents(taxed.map_values(|part: TaxedAmount| part.amount))
}

/// What the taxes on all of `taxed` come to: the tax on each amount at its
/// rate, added up.
pub open spec fn taxes_on(taxed: Seq<TaxedAmount>) -> Dollars {
    Dollars::spec_sum(taxed.map_values(|part: TaxedAmount| part.spec_taxes()))
}

/// No bracket has a rate above 100 percent.
pub open spec fn rates_within_whole(brackets: Seq<TaxBracket>) -> bool {
    forall|i: int| 0 <= i < brackets.len() ==> (#[trigger] brackets[i]).rate <= 100
}

/// What is left of `slices`, from the first on, when no more than `untaxed`
/// cents are to be taken in all: each slice gives what it holds or what is
/// still wanted, whichever is less, until nothing is wanted.
spec fn taken_from(slices: Seq<TaxedAmount>, untaxed: nat) -> Seq<TaxedAmount>
    decreases slices.len(),
{
    if slices.len() == 0 || untaxed == 0 {
        Seq::empty()
    } else if untaxed <= slices[0].amount@ {
        seq![TaxedAmount { rate: slices[0].rate, amount: Dollars::of_cents(untaxed) }]
            + taken_from(slices.drop_first(), 0)
    } else {
        seq![slices[0]] + taken_from(
            slices.drop_first(),
            (untaxed - slices[0].amount@) as nat,
        )
    }
}

/// The highest of the first `upto` brackets that starts at or below
/// `income`, if there is one: the bracket that what is earned next on top
/// of `income` falls into.
pub open spec fn marginal_bracket(brackets: Seq<TaxBracket>, income: nat, upto: nat) -> Option<
    TaxBracket,
>
    decreases upto,
{
    if upto == 0 {
        None
    } else if brackets[upto - 1].bracket_start@ <= income {
        Some(brackets[upto - 1])
    } else {
        marginal_bracket(brackets, income, (upto - 1) as nat)
    }
}

impl TaxBracket {
    /// The bracket above every bracket: it starts at the largest amount, so
    /// that the last real bracket ends nowhere below it.
    pub fn max() -> (bracket: TaxBracket)
        ensures
            bracket.bracket_start == Dollars::max(),
            bracket.bracket_start@ == MAX_CENTS,
            bracket.rate == 100,
            bracket.capital_gain_rate == 100,
            bracket.base_amount == Dollars::max(),
    {
        TaxBracket {
            bracket_start: Dollars::max(),
            rate: 100,
            capital_gain_rate: 100,
            base_amount: Dollars::max(),
        }
    }
}

impl TaxedAmount {
    /// The tax on the amount at its rate, as contracts speak of it.
    pub open spec fn spec_taxes(&self) -> Dollars {
        self.amount.mul_spec(Hundredths(self.rate as u32))
    }

    /// The tax on the amount: so many percent of it as the rate says, cut
    /// to whole cents.
    pub fn taxes(&self) -> (owed: Dollars)
        ensures
            owed == self.spec_taxes(),
            owed@ == capped(self.amount@ * self.rate / 100),
    {
        self.amount * Hundredths(self.rate as u32)
    }
}

impl TaxInformation {
    /// There is a bracket, and each bracket starts above the one before.
    pub open spec fn wf(&self) -> bool {
        &&& self.brackets@.len() > 0
        &&& ascending(self.brackets@)
    }

    /// The income that is taxed when `profit` comes on top of `income`:
    /// both together, less the deduction, in cents.
    pub open spec fn taxable_with(&self, income: Dollars, profit: Dollars) -> int {
        capped((income@ + profit@) as int) - self.deduction@
    }

    /// The income, less the deduction, reaches the first bracket, and with
    /// `profit` on top it is still an amount that can be held: then all of
    /// the profit falls into brackets.
    pub open spec fn reached_by(&self, income: Dollars, profit: Dollars) -> bool {
        &&& income@ + profit@ <= MAX_CENTS
        &&& income@ >= self.deduction@ + self.brackets@[0].bracket_start@
    }

    /// The income, less the deduction, has reached the last bracket, and
    /// there is a profit to put on top of it.
    pub open spec fn in_last_bracket(&self, income: Dollars, profit: Dollars) -> bool {
        &&& profit@ > 0
        &&& income@ + profit@ <= MAX_CENTS
        &&& income@ >= self.deduction@ + self.brackets@.last().bracket_start@
    }

    /// How `profit` on top of `income` falls into the brackets: for each
    /// bracket that holds some of the profit, the highest first, its rate
    /// and the part of the profit in it.
    pub open spec fn spec_allocate(&self, income: Dollars, profit: Dollars) -> Seq<TaxedAmount> {
        taxed_amounts(
            self.brackets@,
            self.taxable_with(income, profit) - profit@,
            self.taxable_with(income, profit),
            self.brackets@.len(),
        )
    }

    /// Whether there is a bracket and each bracket starts above the one
    /// before.
    pub fn is_valid(&self) -> (valid: bool)
        ensures
            valid == self.wf(),
    {
        let count: usize = self.brackets.len();
        if count == 0 {
            return false;
        }
        let mut i: usize = 1;
        while i < count
            invariant
                1 <= i <= count,
                count == self.brackets@.len(),
                forall|a: int, b: int|
                    0 <= a < b < i ==> self.brackets@[a].bracket_start@
                        < self.brackets@[b].bracket_start@,
            decreases count - i,
        {
            if !(self.brackets[i - 1].bracket_start < self.brackets[i].bracket_start) {
                return false;
            }
            i += 1;
        }
        true
    }
}

impl TaxTable {
    /// The brackets of every filing status are in order.
    pub open spec fn wf(&self) -> bool {
        &&& self.single.wf()
        &&& self.married.wf()
        &&& self.married_separately.wf()
        &&& self.head_of_household.wf()
    }

    /// The brackets and the deduction of `status`, as contracts speak of
    /// them.
    pub open spec fn spec_info(&self, status: FilingStatus) -> TaxInformation {
        match status {
            FilingStatus::Single => self.single,
            FilingStatus::Married => self.married,
            FilingStatus::MarriedSeparately => self.married_separately,
            FilingStatus::HeadOfHousehold => self.head_of_household,
        }
    }

    /// The brackets and the deduction of `status`.
    pub fn info(&self, status: FilingStatus) -> (info: &TaxInformation)
        ensures
            *info == self.spec_info(status),
    {
        match status {
            FilingStatus::Single => &self.single,
            FilingStatus::Married => &self.married,
            FilingStatus::MarriedSeparately => &self.married_separately,
            FilingStatus::HeadOfHousehold => &self.head_of_household,
        }
    }

    /// Whether the brackets of every filing status are in order.
    pub fn is_valid(&self) -> (valid: bool)
        ensures
            valid == self.wf(),
    {
        self.single.is_valid() && self.married.is_valid() && self.married_separately.is_valid()
            && self.head_of_household.is_valid()
    }

    /// How the income of `user`, less the deduction of the filing status,
    /// falls into the brackets: for each bracket that the income reaches
    /// into, the highest first, its rate and the part of the income in it.
    /// An income that just reaches the start of a bracket has nothing in it.
    pub fn brackets_for(&self, user: &TaxUser) -> (taxed: Vec<TaxedAmount>)
        requires
            self.spec_info(user.status).wf(),
            user.income@ >= self.spec_info(user.status).deduction@,
        ensures
            taxed@ == taxed_amounts(
                self.spec_info(user.status).brackets@,
                0,
                user.income@ - self.spec_info(user.status).deduction@,
                self.spec_info(user.status).brackets@.len(),
            ),
    {
        let info: &TaxInformation = self.info(user.status);
        let income: Dollars = user.income - info.deduction;
        let max_bracket: TaxBracket = TaxBracket::max();
        let count: usize = info.brackets.len();
        let ghost brackets = info.brackets@;
        let mut taxed: Vec<TaxedAmount> = Vec::new();
        let mut i: usize = count;
        proof {
            use_type_invariant(&income);
            Dollars::lemma_bounded(income);
        }
        while i > 0
            invariant
                i <= count,
                count == info.brackets@.len(),
                brackets == info.brackets@,
                info.wf(),
                income.wf(),
                income@ <= MAX_CENTS,
                max_bracket.bracket_start@ == MAX_CENTS,
                taxed@ + taxed_amounts(brackets, 0, income@ as int, i as nat) == taxed_amounts(
                    brackets,
                    0,
                    income@ as int,
                    count as nat,
                ),
            decreases i,
        {
            i -= 1;
            let low: &TaxBracket = &info.brackets[i];
            let ghost rest = taxed_amounts(brackets, 0, income@ as int, i as nat);
            if low.bracket_start < income {
                let high: &TaxBracket = if i + 1 < count {
                    &info.brackets[i + 1]
                } else {
                    &max_bracket
                };
                let top: Dollars = if high.bracket_start < income {
                    high.bracket_start
                } else {
                    income
                };
                let amount: Dollars = top - low.bracket_start;
                let part: TaxedAmount = TaxedAmount { rate: low.rate, amount };
                proof {
                    use_type_invariant(&amount);
                    Dollars::lemma_of_view(amount);
                    assert(amount@ == portion_in_bracket(brackets, i as int, 0, income@ as int));
                    assert(part == taxed_in_bracket(brackets, i as int, 0, income@ as int));
                    assert(taxed@.push(part) + rest == taxed@ + (seq![part] + rest));
                }
                taxed.push(part);
            } else {
                assert(portion_in_bracket(brackets, i as int, 0, income@ as int) == 0);
            }
        }
        assert(taxed@ + Seq::<TaxedAmount>::empty() == taxed@);
        taxed
    }

    /// The bracket that what `user` earns next falls into: the highest one
    /// that starts at or below the income as it stands, the deduction left
    /// aside. There is none where the income lies below every bracket.
    pub fn bracket_for(&self, user: &TaxUser) -> (bracket: Option<TaxBracket>)
        ensures
            bracket == marginal_bracket(
                self.spec_info(user.status).brackets@,
                user.income@,
                self.spec_info(user.status).brackets@.len(),
            ),
    {
        let info: &TaxInformation = self.info(user.status);
        let mut i: usize = info.brackets.len();
        while i > 0
            invariant
                *info == self.spec_info(user.status),
                i <= info.brackets@.len(),
                marginal_bracket(info.brackets@, user.income@, i as nat) == marginal_bracket(
                    info.brackets@,
                    user.income@,
                    info.brackets@.len(),
                ),
            decreases i,
        {
            i -= 1;
            if info.brackets[i].bracket_start <= user.income {
                return Some(info.brackets[i]);
            }
        }
        None
    }

    /// How a profit on top of the income of `user` falls into the brackets:
    /// for each bracket that holds some of the profit, the highest first,
    /// its rate and the part of the profit in it. The income is taken less
    /// the deduction of the filing status, with the profit on top of it.
    pub fn allocate(&self, user: &TaxUser, profit: Dollars) -> (taxed: Vec<TaxedAmount>)
        requires
            self.spec_info(user.status).wf(),
            capped((user.income@ + profit@) as int) >= self.spec_info(user.status).deduction@,
        ensures
            taxed@ == self.spec_info(user.status).spec_allocate(user.income, profit),
            self.spec_info(user.status).reached_by(user.income, profit) ==> total_amount(taxed@)
                == profit@,
            progressive(self.spec_info(user.status).brackets@) ==> rates_fall(taxed@),
            self.spec_info(user.status).in_last_bracket(user.income, profit) ==> taxed@.len() == 1
                && taxed@[0].rate == self.spec_info(user.status).brackets@.last().rate
                && taxed@[0].amount == profit,
    {
        let tax_user: TaxUser = TaxUser { income: user.income + profit, status: user.status };
        let slices: Vec<TaxedAmount> = self.brackets_for(&tax_user);
        proof {
            let info = self.spec_info(user.status);
            let top = capped((user.income@ + profit@) as int) - info.deduction@;
            use_type_invariant(&profit);
            use_type_invariant(&user.income);
            Dollars::lemma_bounded(profit);
            if info.reached_by(user.income, profit) {
                law_allocation_covers_profit(info, user.income, profit);
            }
            if progressive(info.brackets@) {
                law_allocation_rates_fall(info, user.income, profit);
            }
            if info.in_last_bracket(user.income, profit) {
                law_allocation_in_last_bracket(info, user.income, profit);
            }
            lemma_take_profit(
                info.brackets@,
                top - profit@,
                top,
                info.brackets@.len(),
                profit@,
            );
        }
        take_profit(&slices, profit)
    }
}

/// Takes `profit` from `slices`, from the first on: of each slice what it
/// holds or what of the profit is still untaxed, whichever is less, until
/// all of the profit is taken or no slice is left.
fn take_profit(slices: &Vec<TaxedAmount>, profit: Dollars) -> (taxed: Vec<TaxedAmount>)
    ensures
        taxed@ == taken_from(slices@, profit@),
{
    let mut untaxed: Dollars = profit;
    let mut taxed: Vec<TaxedAmount> = Vec::new();
    let mut k: usize = 0;
    assert(slices@.skip(0) == slices@);
    while k < slices.len() && untaxed != Dollars::zero()
        invariant
            k <= slices@.len(),
            taxed@ + taken_from(slices@.skip(k as int), untaxed@) == taken_from(
                slices@,
                profit@,
            ),
        decreases slices@.len() - k,
    {
        let slice: TaxedAmount = slices[k];
        let ghost rest = slices@.skip(k as int);
        let ghost wanted = untaxed@;
        let amount: Dollars = if untaxed < slice.amount {
            untaxed
        } else {
            slice.amount
        };
        proof {
            use_type_invariant(&untaxed);
            use_type_invariant(&amount);
            Dollars::lemma_of_view(untaxed);
            Dollars::lemma_of_view(amount);
            Dollars::lemma_of_cents(0);
            assert(untaxed@ != 0);
            assert(rest[0] == slice);
            assert(rest.drop_first() == slices@.skip(k + 1));
        }
        untaxed = untaxed - amount;
        let part: TaxedAmount = TaxedAmount { amount, rate: slice.rate };
        proof {
            let left = taken_from(rest.drop_first(), untaxed@);
            assert(taken_from(rest, wanted) == seq![part] + left);
            assert(taxed@.push(part) + left == taxed@ + (seq![part] + left));
        }
        taxed.push(part);
        k += 1;
    }
    proof {
        use_type_invariant(&untaxed);
        Dollars::lemma_of_view(untaxed);
        Dollars::lemma_of_cents(0);
        assert(taken_from(slices@.skip(k as int), untaxed@) == Seq::<TaxedAmount>::empty());
        assert(taxed@ + Seq::<TaxedAmount>::empty() == taxed@);
    }
    taxed
}

/// Each bracket starts above the one before.
pub open spec fn ascending(brackets: Seq<TaxBracket>) -> bool {
    forall|i: int, j: int|
        0 <= i < j < brackets.len() ==> brackets[i].bracket_start@ < brackets[j].bracket_start@
}

/// Of the income between `bottom` and `top`, what lies below the end of
/// bracket `upto - 1`, in cents.
spec fn wanted_below(brackets: Seq<TaxBracket>, bottom: int, top: int, upto: nat) -> nat {
    let reach = if top <= bracket_end(brackets, upto - 1) {
        top
    } else {
        bracket_end(brackets, upto - 1) as int
    };
    if reach > bottom {
        (reach - bottom) as nat
    } else {
        0
    }
}

/// Where none of the income between `bottom` and `top` lies below the end
/// of bracket `upto - 1`, the first `upto` brackets hold nothing of it.
proof fn lemma_nothing_below(brackets: Seq<TaxBracket>, bottom: int, top: int, upto: nat)
    requires
        ascending(brackets),
        top <= MAX_CENTS,
        upto <= brackets.len(),
        upto > 0 ==> wanted_below(brackets, bottom, top, upto) == 0,
    ensures
        taxed_amounts(brackets, bottom, top, upto) == Seq::<TaxedAmount>::empty(),
    decreases upto,
{
    if upto > 0 {
        let i = upto - 1;
        assert(portion_in_bracket(brackets, i, bottom, top) == 0);
        if i > 0 {
            assert(bracket_end(brackets, i - 1) == brackets[i].bracket_start@);
            if i + 1 < brackets.len() {
                assert(brackets[i].bracket_start@ < brackets[i + 1].bracket_start@);
            }
        }
        lemma_nothing_below(brackets, bottom, top, i as nat);
    }
}

/// Taking the income between `bottom` and `top` from what the brackets hold
/// of the income up to `top`, the highest bracket first, gives what the
/// brackets hold of the income between `bottom` and `top`.
proof fn lemma_take_profit(
    brackets: Seq<TaxBracket>,
    bottom: int,
    top: int,
    upto: nat,
    untaxed: nat,
)
    requires
        ascending(brackets),
        0 <= top <= MAX_CENTS,
        bottom <= top,
        upto <= brackets.len(),
        upto > 0 ==> untaxed == wanted_below(brackets, bottom, top, upto),
    ensures
        taken_from(taxed_amounts(brackets, 0, top, upto), untaxed) == taxed_amounts(
            brackets,
            bottom,
            top,
            upto,
        ),
    decreases upto,
{
    if upto > 0 {
        let i = upto - 1;
        let start = brackets[i].bracket_start@ as int;
        let held = portion_in_bracket(brackets, i, 0, top);
        let part = portion_in_bracket(brackets, i, bottom, top);
        let below = taxed_amounts(brackets, 0, top, i as nat);
        if i > 0 {
            assert(bracket_end(brackets, i - 1) == start);
        }
        if i + 1 < brackets.len() {
            assert(brackets[i].bracket_start@ < brackets[i + 1].bracket_start@);
        }
        Dollars::lemma_of_cents(held);
        Dollars::lemma_of_cents(part);
        if held == 0 {
            assert(part == 0);
            lemma_take_profit(brackets, bottom, top, i as nat, untaxed);
        } else if untaxed == 0 {
            lemma_nothing_below(brackets, bottom, top, upto);
        } else {
            let slices = seq![taxed_in_bracket(brackets, i, 0, top)] + below;
            assert(slices.drop_first() == below);
            assert(slices[0] == taxed_in_bracket(brackets, i, 0, top));
            if untaxed <= held {
                assert(part == untaxed);
                lemma_nothing_below(brackets, bottom, top, i as nat);
                assert(taken_from(below, 0) == Seq::<TaxedAmount>::empty());
            } else {
                assert(part == held);
                lemma_take_profit(brackets, bottom, top, i as nat, (untaxed - held) as nat);
            }
        }
    }
}

/// Each bracket has a higher rate than the one before.
pub open spec fn progressive(brackets: Seq<TaxBracket>) -> bool {
    forall|i: int, j: int| 0 <= i < j < brackets.len() ==> brackets[i].rate < brackets[j].rate
}

/// What the first `upto` brackets hold of the income between `bottom` and
/// `top` adds up to what of it lies between the start of the first bracket
/// and the end of bracket `upto - 1`.
proof fn lemma_total_amount(brackets: Seq<TaxBracket>, bottom: int, top: int, upto: nat)
    requires
        ascending(brackets),
        0 <= top <= MAX_CENTS,
        0 < upto <= brackets.len(),
    ensures
        bottom >= brackets[0].bracket_start@ ==> total_amount(
            taxed_amounts(brackets, bottom, top, upto),
        ) == wanted_below(brackets, bottom, top, upto),
        bottom < brackets[0].bracket_start@ ==> total_amount(
            taxed_amounts(brackets, bottom, top, upto),
        ) == wanted_below(brackets, brackets[0].bracket_start@ as int, top, upto),
    decreases upto,
{
    let i = upto - 1;
    let part = portion_in_bracket(brackets, i, bottom, top);
    let below = taxed_amounts(brackets, bottom, top, i as nat);
    Dollars::lemma_of_cents(part);
    if i + 1 < brackets.len() {
        assert(brackets[i].bracket_start@ < brackets[i + 1].bracket_start@);
    }
    if i > 0 {
        assert(bracket_end(brackets, i - 1) == brackets[i].bracket_start@);
        assert(brackets[0].bracket_start@ < brackets[i].bracket_start@);
        lemma_total_amount(brackets, bottom, top, i as nat);
    } else {
        assert(below.map_values(|part: TaxedAmount| part.amount) == Seq::<Dollars>::empty());
    }
    if part > 0 {
        let item = taxed_in_bracket(brackets, i, bottom, top);
        let all = seq![item] + below;
        assert(all.map_values(|part: TaxedAmount| part.amount) == seq![item.amount]
            + below.map_values(|part: TaxedAmount| part.amount));
        Dollars::lemma_sum_prepend(
            item.amount,
            below.map_values(|part: TaxedAmount| part.amount),
        );
    }
}

/// The rates of `taxed` fall from each amount to the next.
pub open spec fn rates_fall(taxed: Seq<TaxedAmount>) -> bool {
    forall|j: int, k: int|
        0 <= j < k < taxed.len() ==> (#[trigger] taxed[j]).rate > (#[trigger] taxed[k]).rate
}

/// Every rate of `taxed` is below the rates of the brackets from `from` on.
spec fn rates_below(taxed: Seq<TaxedAmount>, brackets: Seq<TaxBracket>, from: nat) -> bool {
    forall|k: int, m: int|
        0 <= k < taxed.len() && from <= m < brackets.len() ==> (#[trigger] taxed[k]).rate < (
        #[trigger] brackets[m]).rate
}

/// With rates that rise from bracket to bracket, what the first `upto`
/// brackets hold comes in falling order of rate, all of it below the rates
/// of the brackets from `upto` on.
proof fn lemma_rates_fall(brackets: Seq<TaxBracket>, bottom: int, top: int, upto: nat)
    requires
        progressive(brackets),
        upto <= brackets.len(),
    ensures
        rates_below(taxed_amounts(brackets, bottom, top, upto), brackets, upto),
        rates_fall(taxed_amounts(brackets, bottom, top, upto)),
    decreases upto,
{
    if upto > 0 {
        let i = upto - 1;
        let below = taxed_amounts(brackets, bottom, top, i as nat);
        let all = taxed_amounts(brackets, bottom, top, upto);
        lemma_rates_fall(brackets, bottom, top, i as nat);
        if portion_in_bracket(brackets, i, bottom, top) > 0 {
            assert(all[0].rate == brackets[i].rate);
            assert forall|k: int| 1 <= k < all.len() implies all[k] == below[k - 1] by {}
            assert(rates_below(all, brackets, upto)) by {
                assert forall|k: int, m: int|
                    0 <= k < all.len() && upto <= m < brackets.len() implies (
                #[trigger] all[k]).rate < (#[trigger] brackets[m]).rate by {
                    if k > 0 {
                        assert(below[k - 1].rate < brackets[m].rate);
                    }
                }
            }
            assert(rates_fall(all)) by {
                assert forall|j: int, k: int| 0 <= j < k < all.len() implies (
                #[trigger] all[j]).rate > (#[trigger] all[k]).rate by {
                    if j == 0 {
                        assert(below[k - 1].rate < brackets[i].rate);
                    } else {
                        assert(below[j - 1].rate > below[k - 1].rate);
                    }
                }
            }
        }
    }
}

/// None of `taxed` is taxed at more than 100 percent.
spec fn taxed_within_whole(taxed: Seq<TaxedAmount>) -> bool {
    forall|k: int| 0 <= k < taxed.len() ==> (#[trigger] taxed[k]).rate <= 100
}

/// What the first `upto` brackets hold is taxed at rates of those
/// brackets: where none of them is above 100 percent, none of the taxed
/// amounts is.
proof fn lemma_rates_within_whole(brackets: Seq<TaxBracket>, bottom: int, top: int, upto: nat)
    requires
        rates_within_whole(brackets),
        upto <= brackets.len(),
    ensures
        taxed_within_whole(taxed_amounts(brackets, bottom, top, upto)),
    decreases upto,
{
    if upto > 0 {
        let i = upto - 1;
        let below = taxed_amounts(brackets, bottom, top, i as nat);
        let all = taxed_amounts(brackets, bottom, top, upto);
        lemma_rates_within_whole(brackets, bottom, top, i as nat);
        if portion_in_bracket(brackets, i, bottom, top) > 0 {
            assert(all[0].rate == brackets[i].rate);
            assert forall|k: int| 0 <= k < all.len() implies (#[trigger] all[k]).rate <= 100 by {
                if k > 0 {
                    assert(all[k] == below[k - 1]);
                }
            }
        }
    }
}

/// At rates of no more than 100 percent the taxes are no more than what is
/// taxed.
proof fn lemma_taxes_within_amounts(taxed: Seq<TaxedAmount>)
    requires
        taxed_within_whole(taxed),
    ensures
        sum_cents(taxed.map_values(|part: TaxedAmount| part.spec_taxes())) <= total_amount(taxed),
    decreases taxed.len(),
{
    let taxes = taxed.map_values(|part: TaxedAmount| part.spec_taxes());
    let amounts = taxed.map_values(|part: TaxedAmount| part.amount);
    if taxed.len() > 0 {
        let last = taxed.last();
        lemma_taxes_within_amounts(taxed.drop_last());
        assert(taxes.drop_last() == taxed.drop_last().map_values(
            |part: TaxedAmount| part.spec_taxes(),
        ));
        assert(amounts.drop_last() == taxed.drop_last().map_values(
            |part: TaxedAmount| part.amount,
        ));
        assert(last.rate <= 100);
        assert(last.amount@ * last.rate / 100 <= last.amount@) by (nonlinear_arith)
            requires
                last.rate <= 100,
        ;
        Dollars::lemma_of_cents(capped(last.amount@ * last.rate / 100));
    }
}

/// Where no rate is above 100 percent, the taxes on a profit are no more
/// than the profit.
pub proof fn law_taxes_within_profit(info: TaxInformation, income: Dollars, profit: Dollars)
    requires
        info.wf(),
        rates_within_whole(info.brackets@),
        profit.wf(),
        info.taxable_with(income, profit) >= 0,
    ensures
        total_amount(info.spec_allocate(income, profit)) <= profit@,
        taxes_on(info.spec_allocate(income, profit))@ <= profit@,
{
    let top = info.taxable_with(income, profit);
    let taxed = info.spec_allocate(income, profit);
    lemma_total_amount(info.brackets@, top - profit@, top, info.brackets@.len());
    lemma_rates_within_whole(info.brackets@, top - profit@, top, info.brackets@.len());
    lemma_taxes_within_amounts(taxed);
    Dollars::lemma_bounded(profit);
    Dollars::lemma_of_cents(
        capped(sum_cents(taxed.map_values(|part: TaxedAmount| part.spec_taxes())) as int),
    );
}

/// A profit on top of an income that reaches the first bracket is taxed in
/// full: the amounts it is split into add up to the profit. This holds
/// where income and profit together are an amount that can be held.
pub proof fn law_allocation_covers_profit(info: TaxInformation, income: Dollars, profit: Dollars)
    requires
        info.wf(),
        income.wf(),
        profit.wf(),
        info.reached_by(income, profit),
    ensures
        total_amount(info.spec_allocate(income, profit)) == profit@,
{
    lemma_total_amount(
        info.brackets@,
        info.taxable_with(income, profit) - profit@,
        info.taxable_with(income, profit),
        info.brackets@.len(),
    );
}

/// Where the rates rise from bracket to bracket, the amounts that a profit
/// is split into come in falling order of rate.
pub proof fn law_allocation_rates_fall(info: TaxInformation, income: Dollars, profit: Dollars)
    requires
        progressive(info.brackets@),
    ensures
        rates_fall(info.spec_allocate(income, profit)),
{
    lemma_rates_fall(
        info.brackets@,
        info.taxable_with(income, profit) - profit@,
        info.taxable_with(income, profit),
        info.brackets@.len(),
    );
}

/// A profit on top of an income that, less the deduction, has reached the
/// last bracket is taxed at the rate of that bracket and at no other.
pub proof fn law_allocation_in_last_bracket(
    info: TaxInformation,
    income: Dollars,
    profit: Dollars,
)
    requires
        info.wf(),
        income.wf(),
        profit.wf(),
        info.in_last_bracket(income, profit),
    ensures
        info.spec_allocate(income, profit).len() == 1,
        info.spec_allocate(income, profit)[0].rate == info.brackets@.last().rate,
        info.spec_allocate(income, profit)[0].amount == profit,
{
    let brackets = info.brackets@;
    let top = info.taxable_with(income, profit);
    let bottom = top - profit@;
    let last = brackets.len() - 1;
    assert(portion_in_bracket(brackets, last, bottom, top) == profit@);
    Dollars::lemma_of_view(profit);
    if last > 0 {
        assert(bracket_end(brackets, last - 1) == brackets[last].bracket_start@);
    }
    lemma_nothing_below(brackets, bottom, top, last as nat);
    assert(seq![taxed_in_bracket(brackets, last, bottom, top)] + Seq::<TaxedAmount>::empty()
        == seq![TaxedAmount { rate: brackets.last().rate, amount: profit }]);
}

} // verus!
