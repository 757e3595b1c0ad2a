use stock_clerk::dollars::{Dollars, Hundredths};
use stock_clerk::taxes::{
    FilingStatus, TaxBracket, TaxInformation, TaxTable, TaxUser, TaxedAmount,
};

/// The amount that a decimal number stands for: its whole part as dollars,
/// its fraction rounded to cents.
fn dollars(amount: f64) -> Dollars {
    Dollars::from_parts(amount as u32, (amount.fract() * 100.0).round() as u32)
}

fn bracket(start: u32, rate: u8, capital_gain_rate: u8, base: (u32, u32)) -> TaxBracket {
    TaxBracket {
        bracket_start: Dollars::from_parts(start, 0),
        rate,
        capital_gain_rate,
        base_amount: Dollars::from_parts(base.0, base.1),
    }
}

fn information(deduction: u32, brackets: Vec<TaxBracket>) -> TaxInformation {
    TaxInformation { brackets, deduction: Dollars::from_parts(deduction, 0) }
}

/// The federal income tax table of 2018.
fn subject() -> TaxTable {
    TaxTable {
        single: information(
            12000,
            vec![
                bracket(0, 10, 0, (0, 0)),
                bracket(9525, 12, 0, (952, 50)),
                bracket(38700, 22, 15, (4453, 50)),
                bracket(82500, 24, 15, (14089, 50)),
                bracket(157500, 32, 15, (32089, 50)),
                bracket(200000, 35, 15, (45689, 50)),
                bracket(500000, 37, 20, (150689, 50)),
            ],
        ),
        married: information(
            24000,
            vec![
                bracket(0, 10, 0, (0, 0)),
                bracket(19050, 12, 0, (1905, 0)),
                bracket(77400, 22, 15, (8907, 0)),
                bracket(165000, 24, 15, (28179, 0)),
                bracket(315000, 32, 15, (64179, 0)),
                bracket(400000, 35, 15, (91379, 0)),
                bracket(600000, 37, 20, (161379, 0)),
            ],
        ),
        married_separately: information(
            12000,
            vec![
                bracket(0, 10, 0, (0, 0)),
                bracket(9525, 12, 0, (952, 50)),
                bracket(38700, 22, 15, (4453, 50)),
                bracket(82500, 24, 15, (14089, 50)),
                bracket(157500, 32, 15, (32089, 50)),
                bracket(200000, 35, 15, (45689, 50)),
                bracket(300000, 37, 20, (80689, 50)),
            ],
        ),
        head_of_household: information(
            18000,
            vec![
                bracket(0, 10, 0, (0, 0)),
                bracket(13600, 12, 0, (1360, 0)),
                bracket(51800, 22, 15, (5944, 0)),
                bracket(82500, 24, 15, (12698, 0)),
                bracket(157500, 32, 15, (30698, 0)),
                bracket(200000, 35, 15, (44298, 0)),
                bracket(500000, 37, 20, (149298, 0)),
            ],
        ),
    }
}

/// A table whose every filing status has the same brackets and deduction.
fn table_of(deduction: u32, brackets: Vec<TaxBracket>) -> TaxTable {
    TaxTable {
        single: information(deduction, brackets.clone()),
        married: information(deduction, brackets.clone()),
        married_separately: information(deduction, brackets.clone()),
        head_of_household: information(deduction, brackets),
    }
}

/// A table with a 32% bracket from $157,500 and a 35% bracket from
/// $200,000, and no deduction.
fn two_brackets() -> TaxTable {
    table_of(0, vec![bracket(157500, 32, 15, (0, 0)), bracket(200000, 35, 15, (0, 0))])
}

fn user(income: u32, status: FilingStatus) -> TaxUser {
    TaxUser { income: Dollars::from_parts(income, 0), status }
}

fn taxed(rate: u8, whole: u32, cents: u32) -> TaxedAmount {
    TaxedAmount { rate, amount: Dollars::from_parts(whole, cents) }
}

fn total_of(amounts: &[TaxedAmount]) -> Dollars {
    Dollars::sum(&amounts.iter().map(|part| part.amount).collect())
}

fn taxes_of(amounts: &[TaxedAmount]) -> Dollars {
    Dollars::sum(&amounts.iter().map(|part| part.taxes()).collect())
}

#[test]
fn tax_single() {
    let subject = subject();
    let user = TaxUser {
        income: dollars(170000.0),
        status: FilingStatus::Single,
    };

    let mut brackets = subject.brackets_for(&user).into_iter();
    let taxed_value = brackets.next().unwrap();
    assert_eq!(taxed_value.rate, 32);
    assert_eq!(taxed_value.amount, dollars(500.0));

    let taxed_value = brackets.next().unwrap();
    assert_eq!(taxed_value.rate, 24);
    assert_eq!(taxed_value.amount, dollars(75000.0));
}

#[test]
fn tax_married() {
    let subject = subject();
    let user = TaxUser {
        income: dollars(170000.0),
        status: FilingStatus::Married,
    };

    let mut brackets = subject.brackets_for(&user).into_iter();
    let taxed_value = brackets.next().unwrap();
    assert_eq!(taxed_value.rate, 22);
    assert_eq!(taxed_value.amount, dollars(68600.0));

    let taxed_value = brackets.next().unwrap();
    assert_eq!(taxed_value.rate, 12);
    assert_eq!(taxed_value.amount, dollars(58350.0));
}

#[test]
fn edge() {
    let subject = subject();
    let user = TaxUser {
        income: dollars(94500.0),
        status: FilingStatus::MarriedSeparately,
    };

    let mut brackets = subject.brackets_for(&user).into_iter();
    let taxed_value = brackets.next().unwrap();
    assert_eq!(taxed_value.rate, 22);
    assert_eq!(taxed_value.amount, dollars(43800.0));

    let taxed_value = brackets.next().unwrap();
    assert_eq!(taxed_value.rate, 12);
    assert_eq!(taxed_value.amount, dollars(29175.0));
}

#[test]
fn taxes_highest_bracket() {
    let subject = subject();
    let user = TaxUser {
        income: dollars(520000.0),
        status: FilingStatus::HeadOfHousehold,
    };

    let mut brackets = subject.brackets_for(&user).into_iter();
    let taxed_value = brackets.next().unwrap();
    assert_eq!(taxed_value.rate, 37);
    assert_eq!(taxed_value.amount, dollars(2000.0));

    let taxed_value = brackets.next().unwrap();
    assert_eq!(taxed_value.rate, 35);
    assert_eq!(taxed_value.amount, dollars(300000.0));
}

#[test]
fn the_whole_income_is_split_over_the_brackets() {
    let brackets = subject().brackets_for(&user(170000, FilingStatus::Single));
    assert_eq!(
        brackets,
        vec![
            taxed(32, 500, 0),
            taxed(24, 75000, 0),
            taxed(22, 43800, 0),
            taxed(12, 29175, 0),
            taxed(10, 9525, 0),
        ]
    );
    assert_eq!(total_of(&brackets), Dollars::from_parts(158000, 0));
}

#[test]
fn an_income_equal_to_the_deduction_reaches_no_bracket() {
    assert_eq!(subject().brackets_for(&user(12000, FilingStatus::Single)), vec![]);
    assert_eq!(
        subject().brackets_for(&TaxUser {
            income: Dollars::from_parts(12000, 1),
            status: FilingStatus::Single
        }),
        vec![taxed(10, 0, 1)]
    );
}

#[test]
fn the_last_bracket_has_no_end() {
    let brackets = subject().brackets_for(&TaxUser {
        income: Dollars::max(),
        status: FilingStatus::Single,
    });
    assert_eq!(brackets.len(), 7);
    assert_eq!(brackets[0].rate, 37);
    assert_eq!(brackets[0].amount, Dollars::max() - Dollars::from_parts(512000, 0));
    assert_eq!(brackets[1], taxed(35, 300000, 0));
}

#[test]
fn a_single_bracket_takes_everything_above_its_start() {
    let table = table_of(100, vec![bracket(50, 20, 0, (0, 0))]);
    assert_eq!(
        table.brackets_for(&user(1000, FilingStatus::Married)),
        vec![taxed(20, 850, 0)]
    );
    assert_eq!(table.brackets_for(&user(150, FilingStatus::Married)), vec![]);
    assert_eq!(
        table.allocate(&user(1000, FilingStatus::Married), Dollars::from_parts(30, 0)),
        vec![taxed(20, 30, 0)]
    );
}

#[test]
fn each_filing_status_has_its_own_brackets() {
    let table = subject();
    assert_eq!(table.info(FilingStatus::Single).deduction, Dollars::from_parts(12000, 0));
    assert_eq!(table.info(FilingStatus::Married).deduction, Dollars::from_parts(24000, 0));
    assert_eq!(
        table.info(FilingStatus::MarriedSeparately).brackets[6].bracket_start,
        Dollars::from_parts(300000, 0)
    );
    assert_eq!(
        table.info(FilingStatus::HeadOfHousehold).brackets[1].bracket_start,
        Dollars::from_parts(13600, 0)
    );
}

#[test]
fn the_table_of_2018_is_in_order() {
    assert!(subject().is_valid());
    assert!(two_brackets().is_valid());
    assert!(table_of(0, vec![bracket(0, 10, 0, (0, 0))]).is_valid());
}

#[test]
fn a_table_without_brackets_is_not_in_order() {
    assert!(!table_of(0, vec![]).is_valid());
    assert!(!information(0, vec![]).is_valid());
    let mut table = subject();
    table.head_of_household.brackets.clear();
    assert!(!table.is_valid());
    assert!(table.single.is_valid());
}

#[test]
fn brackets_must_start_one_above_the_other() {
    let same_start = vec![bracket(0, 10, 0, (0, 0)), bracket(0, 12, 0, (0, 0))];
    assert!(!information(0, same_start).is_valid());
    let falling = vec![
        bracket(0, 10, 0, (0, 0)),
        bracket(200, 12, 0, (0, 0)),
        bracket(100, 22, 0, (0, 0)),
    ];
    assert!(!information(0, falling).is_valid());
    let rising = vec![
        bracket(0, 10, 0, (0, 0)),
        bracket(100, 12, 0, (0, 0)),
        bracket(200, 22, 0, (0, 0)),
    ];
    assert!(information(0, rising).is_valid());
}

#[test]
fn the_bracket_above_all_starts_at_the_largest_amount() {
    let top = TaxBracket::max();
    assert_eq!(top.bracket_start, Dollars::max());
    assert_eq!(top.rate, 100);
    assert_eq!(top.capital_gain_rate, 100);
    assert_eq!(top.base_amount, Dollars::max());
}

#[test]
fn no_profit_is_not_taxed() {
    let allocation = subject().allocate(&user(170000, FilingStatus::Single), Dollars::zero());
    assert_eq!(allocation, vec![]);
    assert_eq!(taxes_of(&allocation), Dollars::zero());
}

#[test]
fn a_profit_within_one_bracket_is_taxed_at_its_rate() {
    let allocation = two_brackets().allocate(
        &user(160000, FilingStatus::Single),
        Dollars::from_parts(35000, 0),
    );
    assert_eq!(allocation, vec![taxed(32, 35000, 0)]);
    assert_eq!(allocation[0].taxes(), Dollars::from_parts(11200, 0));
    assert_eq!(taxes_of(&allocation), Dollars::from_parts(11200, 0));
}

#[test]
fn a_profit_across_brackets_is_split_from_the_top() {
    let profit = Dollars::from_parts(100000, 0);
    let allocation = subject().allocate(&user(150000, FilingStatus::Single), profit);
    assert_eq!(
        allocation,
        vec![taxed(35, 38000, 0), taxed(32, 42500, 0), taxed(24, 19500, 0)]
    );
    assert_eq!(total_of(&allocation), profit);
    assert_eq!(
        taxes_of(&allocation),
        Dollars::from_parts(13300 + 13600 + 4680, 0)
    );
}

#[test]
fn the_split_amounts_add_up_to_the_profit() {
    let table = subject();
    let statuses = [
        FilingStatus::Single,
        FilingStatus::Married,
        FilingStatus::MarriedSeparately,
        FilingStatus::HeadOfHousehold,
    ];
    for status in statuses {
        for income in [24000u32, 30000, 94500, 160000, 512000, 1000000] {
            for profit in [(0u32, 1u32), (3262, 50), (35000, 0), (250000, 0), (2000000, 99)] {
                let profit = Dollars::from_parts(profit.0, profit.1);
                let allocation = table.allocate(&user(income, status), profit);
                assert_eq!(total_of(&allocation), profit);
            }
        }
    }
}

#[test]
fn the_split_amounts_come_in_falling_order_of_rate() {
    let allocation = subject().allocate(
        &user(30000, FilingStatus::Married),
        Dollars::from_parts(900000, 0),
    );
    let rates: Vec<u8> = allocation.iter().map(|part| part.rate).collect();
    assert_eq!(rates, vec![37, 35, 32, 24, 22, 12, 10]);
    assert_eq!(total_of(&allocation), Dollars::from_parts(900000, 0));
    assert_eq!(allocation[0].amount, Dollars::from_parts(306000, 0));
    assert_eq!(allocation[6].amount, Dollars::from_parts(13050, 0));
}

#[test]
fn an_income_in_the_last_bracket_has_all_profit_taxed_there() {
    let profit = Dollars::from_parts(40000, 0);
    assert_eq!(
        subject().allocate(&user(520000, FilingStatus::HeadOfHousehold), profit),
        vec![taxed(37, 40000, 0)]
    );
    assert_eq!(
        subject().allocate(&user(518000, FilingStatus::HeadOfHousehold), profit),
        vec![taxed(37, 40000, 0)]
    );
    assert_eq!(
        subject().allocate(&user(517999, FilingStatus::HeadOfHousehold), profit),
        vec![taxed(37, 39999, 0), taxed(35, 1, 0)]
    );
}

#[test]
fn an_income_at_the_start_of_a_bracket_has_the_profit_in_it() {
    assert_eq!(
        subject().allocate(&user(169500, FilingStatus::Single), Dollars::from_parts(1000, 0)),
        vec![taxed(32, 1000, 0)]
    );
}

#[test]
fn a_profit_that_ends_at_the_start_of_a_bracket_stays_below_it() {
    assert_eq!(
        subject().allocate(&user(168500, FilingStatus::Single), Dollars::from_parts(1000, 0)),
        vec![taxed(24, 1000, 0)]
    );
    assert_eq!(
        subject().allocate(&user(168500, FilingStatus::Single), Dollars::from_parts(1000, 1)),
        vec![taxed(32, 0, 1), taxed(24, 1000, 0)]
    );
}

#[test]
fn a_profit_below_the_first_bracket_is_not_taxed() {
    let table = table_of(0, vec![bracket(1000, 10, 0, (0, 0)), bracket(2000, 20, 0, (0, 0))]);
    assert_eq!(
        table.allocate(&user(100, FilingStatus::Single), Dollars::from_parts(500, 0)),
        vec![]
    );
    assert_eq!(
        table.allocate(&user(100, FilingStatus::Single), Dollars::from_parts(1500, 0)),
        vec![taxed(10, 600, 0)]
    );
    assert_eq!(
        table.allocate(&user(100, FilingStatus::Single), Dollars::from_parts(2500, 0)),
        vec![taxed(20, 600, 0), taxed(10, 1000, 0)]
    );
}

#[test]
fn a_profit_that_makes_up_for_the_deduction_is_taxed_in_part() {
    let allocation = subject().allocate(
        &user(10000, FilingStatus::Single),
        Dollars::from_parts(5000, 0),
    );
    assert_eq!(allocation, vec![taxed(10, 3000, 0)]);
}

#[test]
fn income_and_profit_beyond_the_largest_amount_are_cut_to_it() {
    let income = TaxUser { income: Dollars::max(), status: FilingStatus::Single };
    let allocation = subject().allocate(&income, Dollars::from_parts(1000, 0));
    assert_eq!(allocation, vec![taxed(37, 1000, 0)]);
}

#[test]
fn the_tax_on_an_amount_is_its_rate_in_percent() {
    assert_eq!(taxed(32, 35000, 0).taxes(), Dollars::from_parts(11200, 0));
    assert_eq!(taxed(24, 3262, 50).taxes(), Dollars::from_parts(783, 0));
    assert_eq!(taxed(10, 0, 9).taxes(), Dollars::zero());
    assert_eq!(taxed(37, 0, 99).taxes(), Dollars::from_parts(0, 36));
    assert_eq!(taxed(0, 500, 0).taxes(), Dollars::zero());
    assert_eq!(taxed(100, 500, 0).taxes(), Dollars::from_parts(500, 0));
    assert_eq!(
        taxed(32, 35000, 0).taxes(),
        Dollars::from_parts(35000, 0) * Hundredths(32)
    );
}

#[test]
fn the_marginal_bracket_holds_the_next_dollar() {
    let table = subject();
    let bracket_of = |income: u32, status: FilingStatus| {
        table.bracket_for(&user(income, status)).map(|bracket| bracket.rate)
    };
    assert_eq!(bracket_of(0, FilingStatus::Single), Some(10));
    assert_eq!(bracket_of(9524, FilingStatus::Single), Some(10));
    assert_eq!(bracket_of(9525, FilingStatus::Single), Some(12));
    assert_eq!(bracket_of(160000, FilingStatus::Single), Some(32));
    assert_eq!(bracket_of(499999, FilingStatus::HeadOfHousehold), Some(35));
    assert_eq!(bracket_of(500000, FilingStatus::HeadOfHousehold), Some(37));
    assert_eq!(bracket_of(u32::MAX, FilingStatus::Married), Some(37));
}

#[test]
fn an_income_below_every_bracket_has_no_marginal_bracket() {
    let table = table_of(0, vec![bracket(1000, 10, 0, (0, 0)), bracket(2000, 20, 0, (0, 0))]);
    assert_eq!(table.bracket_for(&user(999, FilingStatus::Single)), None);
    assert_eq!(
        table.bracket_for(&user(1000, FilingStatus::Single)),
        Some(bracket(1000, 10, 0, (0, 0)))
    );
    assert_eq!(table_of(0, vec![]).bracket_for(&user(999, FilingStatus::Single)), None);
}
