use financial_lib::date::Date;
use financial_lib::input::{record_to_edit_mode, validate_input, ValidInput};
use financial_lib::record::{ExpenseType, MoneyType, Record};

fn fields(a: &str, m: &str, e: &str, d: &str) -> Vec<String> {
    vec![a.to_string(), m.to_string(), e.to_string(), d.to_string()]
}

#[test]
fn scenario_edit_mode_buffers_exact() {
    let r = Record::new(
        3,
        MoneyType::EXPENSE,
        5000,
        Some(ExpenseType::FUN),
        Date::new(2025, 10, 22).unwrap(),
    );
    let buffers = record_to_edit_mode(&r);
    assert_eq!(buffers, vec!["50.00", "-", "FUN", "22.10.2025"]);
}

#[test]
fn scenario_nonnumeric_amount_fails_validation() {
    let r = validate_input(&fields("abc", "+", "NONE", "01.01.2025"));
    assert_eq!(r, None);
}

#[test]
fn validate_accepts_the_scenario_income() {
    let r = validate_input(&fields("200", "+", "NONE", "22.11.2025"));
    assert_eq!(
        r,
        Some(ValidInput {
            amount: 20000,
            money_type: MoneyType::INCOME,
            expense: None,
            time: Date::new(2025, 11, 22).unwrap(),
        })
    );
}

#[test]
fn validate_trims_amount_sign_and_category() {
    let r = validate_input(&fields(" 50.00 ", " - ", " FUN ", "22.10.2025"));
    assert_eq!(
        r,
        Some(ValidInput {
            amount: 5000,
            money_type: MoneyType::EXPENSE,
            expense: Some(ExpenseType::FUN),
            time: Date::new(2025, 10, 22).unwrap(),
        })
    );
}

#[test]
fn validate_rejects_bad_direction() {
    assert_eq!(validate_input(&fields("50", "income", "NONE", "01.01.2025")), None);
    assert_eq!(validate_input(&fields("50", "", "NONE", "01.01.2025")), None);
    assert_eq!(validate_input(&fields("50", "+-", "NONE", "01.01.2025")), None);
}

#[test]
fn validate_rejects_bad_date() {
    assert_eq!(validate_input(&fields("50", "+", "NONE", "2025.01.01")), None);
    assert_eq!(validate_input(&fields("50", "+", "NONE", "32.01.2025")), None);
    assert_eq!(validate_input(&fields("50", "+", "NONE", " 01.01.2025")), None);
}

#[test]
fn validate_treats_unknown_category_as_none() {
    let r = validate_input(&fields("50", "+", "whatever", "01.01.2025")).unwrap();
    assert_eq!(r.expense, None);
    // A category on an income record is accepted as given.
    let r = validate_input(&fields("50", "+", "CAR", "01.01.2025")).unwrap();
    assert_eq!(r.expense, Some(ExpenseType::CAR));
}

#[test]
fn round_trip_edit_mode_validation() {
    let samples = vec![
        Record::new(1, MoneyType::EXPENSE, 5000, Some(ExpenseType::FUN), Date::new(2025, 10, 22).unwrap()),
        Record::new(7, MoneyType::INCOME, 20000, None, Date::new(2025, 11, 22).unwrap()),
        Record::new(2, MoneyType::EXPENSE, 1, Some(ExpenseType::OTHER), Date::new(2024, 2, 29).unwrap()),
        Record::new(9, MoneyType::INCOME, 999_999_999_999, None, Date::new(9999, 12, 31).unwrap()),
    ];
    for r in samples {
        let validated = validate_input(&record_to_edit_mode(&r)).unwrap();
        assert_eq!(validated.amount, r.amount);
        assert_eq!(validated.money_type, r.money_type);
        assert_eq!(validated.expense, r.expense);
        assert_eq!(validated.time, r.time);
    }
}
