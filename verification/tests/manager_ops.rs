use financial_lib::date::Date;
use financial_lib::manager::RecordManager;
use financial_lib::record::{ExpenseType, MoneyType, Record};
use financial_lib::sequencer::{next_id, renumber};

fn income(id: i32, cents: i64, date: Date) -> Record {
    Record::new(id, MoneyType::INCOME, cents, None, date)
}

fn expense(id: i32, cents: i64, category: ExpenseType, date: Date) -> Record {
    Record::new(id, MoneyType::EXPENSE, cents, Some(category), date)
}

fn day(year: i32, month: u8, d: u8) -> Date {
    Date::new(year, month, d).unwrap()
}

/// The income/expense scenario: one income of 200, one expense of 50 in
/// the FUN category.
fn scenario_manager() -> RecordManager {
    let mut manager = RecordManager::new();
    manager.add_record(income(1, 20000, day(2025, 11, 22)));
    manager.add_record(expense(2, 5000, ExpenseType::FUN, day(2025, 10, 22)));
    manager
}

#[test]
fn scenario_totals_after_income_and_expense() {
    let manager = scenario_manager();
    assert_eq!(manager.get_balance(), 15000);
    assert_eq!(manager.get_income(), 20000);
    assert_eq!(manager.get_expanses(), 5000);
    let totals = manager.categories_to_hash();
    assert_eq!(totals.len(), 10);
    for (category, cents) in totals {
        if category == ExpenseType::FUN {
            assert_eq!(cents, 5000);
        } else {
            assert_eq!(cents, 0);
        }
    }
}

#[test]
fn scenario_delete_income_then_renumber() {
    let manager = scenario_manager();
    let mut records = manager.get_all();
    records.retain(|r| r.money_type != MoneyType::INCOME);
    let renumbered = renumber(records);
    assert_eq!(renumbered.len(), 1);
    assert_eq!(renumbered[0].id, 1);
    assert_eq!(renumbered[0].money_type, MoneyType::EXPENSE);
    assert_eq!(renumbered[0].amount, 5000);
    assert_eq!(renumbered[0].expense, Some(ExpenseType::FUN));
    assert_eq!(renumbered[0].time, day(2025, 10, 22));
}

#[test]
fn renumber_makes_ids_dense_whatever_they_were() {
    let records = vec![
        income(7, 100, day(2024, 1, 1)),
        expense(3, 200, ExpenseType::CAR, day(2024, 2, 2)),
        income(9, 300, day(2024, 3, 3)),
    ];
    let renumbered = renumber(records.clone());
    assert_eq!(renumbered.len(), 3);
    for (i, r) in renumbered.iter().enumerate() {
        assert_eq!(r.id, i as i32 + 1);
        assert_eq!(r.amount, records[i].amount);
        assert_eq!(r.money_type, records[i].money_type);
        assert_eq!(r.expense, records[i].expense);
        assert_eq!(r.time, records[i].time);
    }
}

#[test]
fn next_id_is_count_plus_one() {
    let mut manager = RecordManager::new();
    assert_eq!(next_id(&manager), 1);
    for r in renumber(scenario_manager().get_all()) {
        manager.add_record(r);
    }
    assert_eq!(next_id(&manager), 3);
}

#[test]
fn balance_moves_by_the_added_amount() {
    let mut manager = scenario_manager();
    let before = manager.get_balance();
    manager.add_record(income(3, 1234, day(2025, 12, 1)));
    assert_eq!(manager.get_balance(), before + 1234);
    manager.add_record(expense(4, 999, ExpenseType::HOME, day(2025, 12, 2)));
    assert_eq!(manager.get_balance(), before + 1234 - 999);
}

#[test]
fn category_totals_sum_to_categorized_expenses() {
    let mut manager = scenario_manager();
    // An uncategorized expense counts in the expense total but in no
    // category.
    manager.add_record(Record::new(
        3,
        MoneyType::EXPENSE,
        700,
        None,
        day(2025, 12, 3),
    ));
    manager.add_record(expense(4, 300, ExpenseType::CAR, day(2025, 12, 4)));
    let total: i128 = manager.categories_to_hash().iter().map(|e| e.1).sum();
    assert_eq!(total, 5000 + 300);
    assert_eq!(manager.get_expanses(), 5000 + 700 + 300);
}

#[test]
fn get_record_id_finds_exact_match() {
    let manager = scenario_manager();
    let found = manager.get_record_id(2).copied();
    assert_eq!(found.map(|r| r.amount), Some(5000));
    assert!(manager.get_record_id(99).is_none());
}

#[test]
fn get_all_returns_an_independent_copy() {
    let manager = scenario_manager();
    let mut copy = manager.get_all();
    copy.clear();
    assert_eq!(manager.get_all().len(), 2);
}

#[test]
fn records_between_is_inclusive() {
    let mut manager = RecordManager::new();
    manager.add_record(income(1, 100, day(2025, 1, 10)));
    manager.add_record(income(2, 200, day(2025, 1, 20)));
    manager.add_record(income(3, 300, day(2025, 1, 30)));
    let picked = manager.records_between(day(2025, 1, 10), day(2025, 1, 20));
    let ids: Vec<i32> = picked.iter().map(|r| r.id).collect();
    assert_eq!(ids, vec![1, 2]);
    let all = manager.records_between(day(2025, 1, 1), day(2025, 12, 31));
    assert_eq!(all.len(), 3);
    let none = manager.records_between(day(2026, 1, 1), day(2026, 12, 31));
    assert!(none.is_empty());
}

#[test]
fn format_all_lines_up_with_each_record() {
    let manager = scenario_manager();
    let lines = manager.format_all();
    let records = manager.get_all();
    assert_eq!(lines.len(), records.len());
    for (line, record) in lines.iter().zip(records.iter()) {
        assert_eq!(*line, record.format_record());
    }
}

#[test]
fn empty_manager_aggregates_to_zero() {
    let manager = RecordManager::new();
    assert_eq!(manager.get_balance(), 0);
    assert_eq!(manager.get_income(), 0);
    assert_eq!(manager.get_expanses(), 0);
    assert_eq!(manager.get_all().len(), 0);
    let totals = manager.categories_to_hash();
    assert_eq!(totals.len(), 10);
    assert!(totals.iter().all(|e| e.1 == 0));
    assert_eq!(renumber(vec![]).len(), 0);
}
