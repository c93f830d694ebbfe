use financial_lib::app::RecordLister;
use financial_lib::chart::{data_for_time_graph, generate_x_labels, percentage_for_pie};
use financial_lib::date::Date;
use financial_lib::manager::RecordManager;
use financial_lib::record::{ExpenseType, MoneyType, Record};

fn day(year: i32, month: u8, d: u8) -> Date {
    Date::new(year, month, d).unwrap()
}

fn lister(records: Vec<Record>) -> RecordLister {
    let mut manager = RecordManager::new();
    for r in records {
        manager.add_record(r);
    }
    RecordLister::new(manager)
}

#[test]
fn pie_data_in_whole_units_per_category() {
    let l = lister(vec![
        Record::new(1, MoneyType::EXPENSE, 5000, Some(ExpenseType::FUN), day(2025, 10, 22)),
        Record::new(2, MoneyType::EXPENSE, 2550, Some(ExpenseType::FUN), day(2025, 10, 23)),
        Record::new(3, MoneyType::EXPENSE, 199, Some(ExpenseType::CAR), day(2025, 10, 24)),
        Record::new(4, MoneyType::INCOME, 99900, None, day(2025, 10, 25)),
    ]);
    let data = percentage_for_pie(&l);
    assert_eq!(data.len(), 10);
    assert!(data.contains(&("Fun", 75)));
    assert!(data.contains(&("Car", 1)));
    assert!(data.contains(&("Home", 0)));
    assert_eq!(data[0].0, "Fun");
    assert_eq!(data[9].0, "Other");
}

#[test]
fn time_graph_orders_days_and_accumulates_in_record_order() {
    let l = lister(vec![
        Record::new(1, MoneyType::INCOME, 20000, None, day(2025, 11, 22)),
        Record::new(2, MoneyType::EXPENSE, 5000, Some(ExpenseType::FUN), day(2025, 10, 22)),
    ]);
    let data = data_for_time_graph(&l);
    // The expense is dated earlier but entered later: its day carries
    // the running balance after both records.
    assert_eq!(
        data,
        vec![(day(2025, 10, 22), 15000), (day(2025, 11, 22), 20000)]
    );
}

#[test]
fn time_graph_keeps_the_last_balance_of_a_day() {
    let l = lister(vec![
        Record::new(1, MoneyType::INCOME, 100, None, day(2025, 1, 1)),
        Record::new(2, MoneyType::INCOME, 200, None, day(2025, 1, 1)),
        Record::new(3, MoneyType::EXPENSE, 50, None, day(2025, 1, 2)),
    ]);
    let data = data_for_time_graph(&l);
    assert_eq!(data, vec![(day(2025, 1, 1), 300), (day(2025, 1, 2), 250)]);
}

#[test]
fn x_labels_show_every_date_when_they_fit() {
    let l = lister(vec![
        Record::new(1, MoneyType::INCOME, 100, None, day(2025, 1, 2)),
        Record::new(2, MoneyType::INCOME, 100, None, day(2025, 1, 1)),
    ]);
    let labels = generate_x_labels(&l, 5);
    assert_eq!(labels, vec!["01.01.2025", "02.01.2025"]);
}

#[test]
fn x_labels_step_and_always_end_at_the_last_date() {
    let records: Vec<Record> = (1..=6)
        .map(|i| Record::new(i, MoneyType::INCOME, 100, None, day(2025, 1, i as u8)))
        .collect();
    let l = lister(records);
    // Six dates, two labels wanted: every third date, plus the last.
    let labels = generate_x_labels(&l, 2);
    assert_eq!(labels, vec!["01.01.2025", "04.01.2025", "06.01.2025"]);
}

#[test]
fn x_labels_of_an_empty_ledger_are_empty() {
    let l = lister(vec![]);
    assert!(generate_x_labels(&l, 4).is_empty());
    assert!(data_for_time_graph(&l).is_empty());
}
