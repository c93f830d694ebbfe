use financial_lib::date::Date;
use financial_lib::record::{
    expense_display, expense_from_text, expense_token, record_from_row, record_to_row, DbRecord,
    ExpenseType, MoneyType, Record, RowError,
};

fn sample_record() -> Record {
    Record::new(
        1,
        MoneyType::EXPENSE,
        5000,
        Some(ExpenseType::FUN),
        Date::new(2025, 10, 22).unwrap(),
    )
}

#[test]
fn format_record_matches_the_fixed_width_template() {
    let r = sample_record();
    let expected = format!(
        "{:>3}  {:>1} {:>8.2}  {:<12}  {:<10}",
        1, "-", 50.00f64, "Fun", "22.10.2025"
    );
    assert_eq!(r.format_record(), expected);
}

#[test]
fn format_record_income_has_plus_and_dash_category() {
    let r = Record::new(
        12,
        MoneyType::INCOME,
        20000,
        None,
        Date::new(2025, 11, 22).unwrap(),
    );
    let expected = format!(
        "{:>3}  {:>1} {:>8.2}  {:<12}  {:<10}",
        12, "+", 200.00f64, "-", "22.11.2025"
    );
    assert_eq!(r.format_record(), expected);
}

#[test]
fn category_tokens_and_names() {
    assert_eq!(expense_token(&ExpenseType::FUN), "FUN");
    assert_eq!(expense_token(&ExpenseType::OTHER), "OTHER");
    assert_eq!(expense_display(&ExpenseType::RESTAURANT), "Restaurant");
    assert_eq!(expense_from_text("TRAVEL"), Some(ExpenseType::TRAVEL));
    assert_eq!(expense_from_text("NONE"), None);
    assert_eq!(expense_from_text("picnic"), None);
    assert_eq!(expense_from_text("fun"), None);
}

#[test]
fn encode_record_as_row() {
    let row = record_to_row(&sample_record());
    assert_eq!(row.id, Some(1));
    assert_eq!(row.money_type, "EXPENSE");
    assert_eq!(row.amount, 5000);
    assert_eq!(row.expense, Some("FUN".to_string()));
    assert_eq!(row.time, "22.10.2025");
}

#[test]
fn decode_row_round_trip() {
    let r = sample_record();
    let row = record_to_row(&r);
    let back = record_from_row(&row).unwrap();
    assert_eq!(back, r);
}

#[test]
fn decode_row_missing_id() {
    let mut row = record_to_row(&sample_record());
    row.id = None;
    assert_eq!(record_from_row(&row), Err(RowError::MissingId));
}

#[test]
fn decode_row_bad_money_type() {
    let mut row = record_to_row(&sample_record());
    row.money_type = "SAVINGS".to_string();
    assert_eq!(record_from_row(&row), Err(RowError::BadMoneyType));
}

#[test]
fn decode_row_bad_expense() {
    let mut row = record_to_row(&sample_record());
    row.expense = Some("picnic".to_string());
    assert_eq!(record_from_row(&row), Err(RowError::BadExpense));
}

#[test]
fn decode_row_bad_date() {
    let mut row = record_to_row(&sample_record());
    row.time = "2025-10-22".to_string();
    assert_eq!(record_from_row(&row), Err(RowError::BadDate));
}

#[test]
fn decode_row_bad_amount() {
    let mut row = record_to_row(&sample_record());
    row.amount = 1_000_000_000_000;
    assert_eq!(record_from_row(&row), Err(RowError::BadAmount));
}

#[test]
fn decode_row_none_expense_text() {
    let mut row = record_to_row(&sample_record());
    row.expense = Some("NONE".to_string());
    let back = record_from_row(&row).unwrap();
    assert_eq!(back.expense, None);
    row.expense = None;
    let back = record_from_row(&row).unwrap();
    assert_eq!(back.expense, None);
}
