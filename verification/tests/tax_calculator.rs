use stock_clerk::dollars::{Dollars, Hundredths};
use stock_clerk::tax_calculator::TaxCalculator;
use stock_clerk::taxes::{FilingStatus, TaxBracket, TaxInformation, TaxTable, TaxUser};

/// The amount that a decimal number stands for: its whole part as dollars,
/// its fraction rounded to cents.
fn dollars(amount: f64) -> Dollars {
    Dollars::from_parts(amount as u32, (amount.fract() * 100.0).round() as u32)
}

/// A decimal number as hundredths.
fn hundredths(number: f64) -> Hundredths {
    Hundredths((number * 100.0).round() as u32)
}

fn bracket(start: u32, rate: u8, capital_gain_rate: u8, base: (u32, u32)) -> TaxBracket {
    TaxBracket {
        bracket_start: Dollars::from_parts(start, 0),
        rate,
        capital_gain_rate,
        base_amount: Dollars::from_parts(base.0, base.1),
    }
}

fn information(deduction: u32, brackets: Vec<TaxBracket>) -> TaxInformation {
    TaxInformation { brackets, deduction: Dollars::from_parts(deduction, 0) }
}

/// The federal income tax table of 2018.
fn subject() -> TaxTable {
    TaxTable {
        single: information(
            12000,
            vec![
                bracket(0, 10, 0, (0, 0)),
                bracket(9525, 12, 0, (952, 50)),
                bracket(38700, 22, 15, (4453, 50)),
                bracket(82500, 24, 15, (14089, 50)),
                bracket(157500, 32, 15, (32089, 50)),
                bracket(200000, 35, 15, (45689, 50)),
                bracket(500000, 37, 20, (150689, 50)),
            ],
        ),
        married: information(
            24000,
            vec![
                bracket(0, 10, 0, (0, 0)),
                bracket(19050, 12, 0, (1905, 0)),
                bracket(77400, 22, 15, (8907, 0)),
                bracket(165000, 24, 15, (28179, 0)),
                bracket(315000, 32, 15, (64179, 0)),
                bracket(400000, 35, 15, (91379, 0)),
                bracket(600000, 37, 20, (161379, 0)),
            ],
        ),
        married_separately: information(
            12000,
            vec![
                bracket(0, 10, 0, (0, 0)),
                bracket(9525, 12, 0, (952, 50)),
                bracket(38700, 22, 15, (4453, 50)),
                bracket(82500, 24, 15, (14089, 50)),
                bracket(157500, 32, 15, (32089, 50)),
                bracket(200000, 35, 15, (45689, 50)),
                bracket(300000, 37, 20, (80689, 50)),
            ],
        ),
        head_of_household: information(
            18000,
            vec![
                bracket(0, 10, 0, (0, 0)),
                bracket(13600, 12, 0, (1360, 0)),
                bracket(51800, 22, 15, (5944, 0)),
                bracket(82500, 24, 15, (12698, 0)),
                bracket(157500, 32, 15, (30698, 0)),
                bracket(200000, 35, 15, (44298, 0)),
                bracket(500000, 37, 20, (149298, 0)),
            ],
        ),
    }
}

#[test]
fn calculates_tax_single() {
    let tax_table: TaxTable = subject();
    let subject = TaxCalculator::new(tax_table);
    let user = TaxUser {
        income: dollars(160000.0),
        status: FilingStatus::Single,
    };

    let taxed_amount = subject.taxes_for_user(&user, dollars(35000.0));
    assert_eq!(dollars(35000.0) * hundredths(0.32), taxed_amount);
}

#[test]
fn calculates_tax_married() {
    let tax_table: TaxTable = subject();
    let subject = TaxCalculator::new(tax_table);
    let user = TaxUser {
        income: dollars(170000.0),
        status: FilingStatus::Married,
    };

    let taxed_amount = subject.taxes_for_user(&user, dollars(40000.0));
    assert_eq!(dollars(40000.0) * hundredths(0.24), taxed_amount);
}

#[test]
fn tax_calculator_highest_bracket() {
    let tax_table: TaxTable = subject();
    let subject = TaxCalculator::new(tax_table);
    let user = TaxUser {
        income: dollars(500000.0),
        status: FilingStatus::HeadOfHousehold,
    };

    let taxed_amount = subject.taxes_for_user(&user, dollars(40000.0));
    assert_eq!(dollars(40000.0) * hundredths(0.37), taxed_amount);
}

#[test]
fn the_estimate_is_the_marginal_rate_on_the_whole_profit() {
    let calculator = TaxCalculator::new(subject());
    let user = TaxUser { income: Dollars::from_parts(160000, 0), status: FilingStatus::Single };
    assert_eq!(
        calculator.taxes_for_user(&user, Dollars::from_parts(35000, 0)),
        Dollars::from_parts(11200, 0)
    );
    assert_eq!(
        calculator.taxes_for_user(&user, Dollars::from_parts(0, 99)),
        Dollars::from_parts(0, 31)
    );
    assert_eq!(calculator.taxes_for_user(&user, Dollars::zero()), Dollars::zero());
}

#[test]
fn an_income_below_every_bracket_is_estimated_at_no_tax() {
    let brackets = vec![bracket(1000, 10, 0, (0, 0)), bracket(2000, 20, 0, (0, 0))];
    let calculator = TaxCalculator::new(TaxTable {
        single: information(0, brackets.clone()),
        married: information(0, brackets.clone()),
        married_separately: information(0, brackets.clone()),
        head_of_household: information(0, brackets),
    });
    let poor = TaxUser { income: Dollars::from_parts(999, 99), status: FilingStatus::Single };
    assert_eq!(
        calculator.taxes_for_user(&poor, Dollars::from_parts(5000, 0)),
        Dollars::zero()
    );
    let richer = TaxUser { income: Dollars::from_parts(1000, 0), status: FilingStatus::Single };
    assert_eq!(
        calculator.taxes_for_user(&richer, Dollars::from_parts(5000, 0)),
        Dollars::from_parts(500, 0)
    );
}
