use financial_lib::app::{App, AppEvent, FocusedWidget, Key, StorageRequest};
use financial_lib::date::Date;
use financial_lib::manager::RecordManager;
use financial_lib::record::{ExpenseType, MoneyType, Record};

fn day(year: i32, month: u8, d: u8) -> Date {
    Date::new(year, month, d).unwrap()
}

fn loaded_manager() -> RecordManager {
    let mut manager = RecordManager::new();
    manager.add_record(Record::new(1, MoneyType::INCOME, 20000, None, day(2025, 11, 22)));
    manager.add_record(Record::new(
        2,
        MoneyType::EXPENSE,
        5000,
        Some(ExpenseType::FUN),
        day(2025, 10, 22),
    ));
    manager
}

fn type_text(app: &mut App, text: &str) {
    for c in text.chars() {
        app.apply_event(AppEvent::Addchar(c));
    }
}

#[test]
fn fresh_app_state() {
    let app = App::new(loaded_manager());
    assert!(app.running);
    assert_eq!(app.focusing_widget, FocusedWidget::Records);
    assert!(!app.input_mode);
    assert!(!app.update_mode);
    assert!(!app.help_show);
    assert!(!app.input_error);
    assert_eq!(app.input_buffer, vec!["", "", "", ""]);
}

#[test]
fn quit_and_help_events() {
    let mut app = App::new(loaded_manager());
    app.apply_event(AppEvent::HelpEnter);
    assert!(app.help_show);
    assert_eq!(app.handle_key_events(Key::Esc), Some(AppEvent::HelpExit));
    app.apply_event(AppEvent::HelpExit);
    assert!(!app.help_show);
    app.apply_event(AppEvent::Quit);
    assert!(!app.running);
}

#[test]
fn widget_focus_cycles_both_ways() {
    let mut app = App::new(loaded_manager());
    app.apply_event(AppEvent::IncrementWidget);
    assert_eq!(app.focusing_widget, FocusedWidget::PieChart);
    app.apply_event(AppEvent::IncrementWidget);
    assert_eq!(app.focusing_widget, FocusedWidget::LineChart);
    app.apply_event(AppEvent::IncrementWidget);
    assert_eq!(app.focusing_widget, FocusedWidget::Records);
    app.apply_event(AppEvent::DecrementWidget);
    assert_eq!(app.focusing_widget, FocusedWidget::LineChart);
}

#[test]
fn selection_wraps_around_the_list() {
    let mut app = App::new(loaded_manager());
    app.record_lister.ensure_selection();
    assert_eq!(app.record_lister.selected, Some(0));
    app.apply_event(AppEvent::DecrementRecords);
    assert_eq!(app.record_lister.selected, Some(1));
    app.apply_event(AppEvent::DecrementRecords);
    assert_eq!(app.record_lister.selected, Some(0));
    app.apply_event(AppEvent::IncrementRecords);
    assert_eq!(app.record_lister.selected, Some(1));
}

#[test]
fn key_mapping_follows_the_mode() {
    let mut app = App::new(loaded_manager());
    assert_eq!(app.handle_key_events(Key::Char('q')), Some(AppEvent::Quit));
    assert_eq!(app.handle_key_events(Key::Char('a')), Some(AppEvent::EnterInputMode));
    assert_eq!(app.handle_key_events(Key::Char('h')), Some(AppEvent::HelpEnter));
    assert_eq!(app.handle_key_events(Key::Up), Some(AppEvent::IncrementRecords));
    assert_eq!(app.handle_key_events(Key::Delete), Some(AppEvent::RemoveRecord));
    assert_eq!(app.handle_key_events(Key::Enter), Some(AppEvent::EditRecord));
    assert_eq!(app.handle_key_events(Key::Backspace), None);
    app.apply_event(AppEvent::EnterInputMode);
    assert_eq!(app.handle_key_events(Key::Char('q')), Some(AppEvent::Addchar('q')));
    assert_eq!(app.handle_key_events(Key::Backspace), Some(AppEvent::Remchar));
    assert_eq!(app.handle_key_events(Key::Enter), Some(AppEvent::EnterCOnfirm));
    assert_eq!(app.handle_key_events(Key::Delete), None);
}

#[test]
fn typing_fills_and_edits_the_active_buffer() {
    let mut app = App::new(loaded_manager());
    app.apply_event(AppEvent::EnterInputMode);
    type_text(&mut app, "50x");
    app.apply_event(AppEvent::Remchar);
    assert_eq!(app.input_buffer[0], "50");
    app.apply_event(AppEvent::TabInput);
    type_text(&mut app, "-");
    assert_eq!(app.input_buffer[1], "-");
    app.apply_event(AppEvent::BackTabInput);
    assert_eq!(app.input_select, 0);
    app.apply_event(AppEvent::BackTabInput);
    assert_eq!(app.input_select, 3);
    type_text(&mut app, "22.10.2025");
    assert_eq!(app.input_buffer[3], "22.10.2025");
}

#[test]
fn escape_resets_text_entry() {
    let mut app = App::new(loaded_manager());
    app.apply_event(AppEvent::EnterInputMode);
    type_text(&mut app, "99");
    app.apply_event(AppEvent::TabInput);
    app.apply_event(AppEvent::EscReset);
    assert!(!app.input_mode);
    assert!(!app.update_mode);
    assert_eq!(app.input_select, 0);
    assert_eq!(app.input_buffer, vec!["", "", "", ""]);
}

#[test]
fn confirm_of_a_fresh_record_requests_an_insert() {
    let mut app = App::new(loaded_manager());
    app.apply_event(AppEvent::EnterInputMode);
    type_text(&mut app, "200");
    app.apply_event(AppEvent::TabInput);
    type_text(&mut app, "+");
    app.apply_event(AppEvent::TabInput);
    type_text(&mut app, "NONE");
    app.apply_event(AppEvent::TabInput);
    type_text(&mut app, "22.11.2025");
    let request = app.apply_event(AppEvent::EnterCOnfirm);
    match request {
        Some(StorageRequest::Insert(v)) => {
            assert_eq!(v.amount, 20000);
            assert_eq!(v.money_type, MoneyType::INCOME);
            assert_eq!(v.expense, None);
            assert_eq!(v.time, day(2025, 11, 22));
        }
        other => panic!("expected an insert request, got {:?}", other),
    }
    assert!(!app.input_mode);
    assert!(!app.input_error);
    assert_eq!(app.input_buffer, vec!["", "", "", ""]);
}

#[test]
fn confirm_in_edit_mode_requests_an_update_under_the_old_id() {
    let mut app = App::new(loaded_manager());
    app.record_lister.ensure_selection();
    app.apply_event(AppEvent::DecrementRecords);
    app.apply_event(AppEvent::EditRecord);
    assert!(app.input_mode);
    assert!(app.update_mode);
    assert_eq!(app.input_buffer, vec!["50.00", "-", "FUN", "22.10.2025"]);
    // Change the amount field only.
    app.apply_event(AppEvent::Remchar);
    app.apply_event(AppEvent::Remchar);
    app.apply_event(AppEvent::Remchar);
    app.apply_event(AppEvent::Remchar);
    app.apply_event(AppEvent::Remchar);
    type_text(&mut app, "75.50");
    let request = app.apply_event(AppEvent::EnterCOnfirm);
    match request {
        Some(StorageRequest::Update(r)) => {
            assert_eq!(r.id, 2);
            assert_eq!(r.amount, 7550);
            assert_eq!(r.money_type, MoneyType::EXPENSE);
            assert_eq!(r.expense, Some(ExpenseType::FUN));
            assert_eq!(r.time, day(2025, 10, 22));
        }
        other => panic!("expected an update request, got {:?}", other),
    }
    assert!(!app.update_mode);
}

#[test]
fn failed_confirm_raises_the_error_flag_and_requests_nothing() {
    let mut app = App::new(loaded_manager());
    app.apply_event(AppEvent::EnterInputMode);
    type_text(&mut app, "abc");
    app.apply_event(AppEvent::TabInput);
    type_text(&mut app, "+");
    app.apply_event(AppEvent::TabInput);
    type_text(&mut app, "NONE");
    app.apply_event(AppEvent::TabInput);
    type_text(&mut app, "01.01.2025");
    let request = app.apply_event(AppEvent::EnterCOnfirm);
    assert_eq!(request, None);
    assert!(app.input_error);
    assert!(!app.input_mode);
    // A later successful confirm clears the flag.
    app.apply_event(AppEvent::EnterInputMode);
    type_text(&mut app, "1");
    app.apply_event(AppEvent::TabInput);
    type_text(&mut app, "+");
    app.apply_event(AppEvent::TabInput);
    app.apply_event(AppEvent::TabInput);
    type_text(&mut app, "01.01.2025");
    assert!(app.apply_event(AppEvent::EnterCOnfirm).is_some());
    assert!(!app.input_error);
}

#[test]
fn delete_requests_the_selected_record() {
    let mut app = App::new(loaded_manager());
    app.record_lister.ensure_selection();
    let request = app.apply_event(AppEvent::RemoveRecord);
    match request {
        Some(StorageRequest::Delete(r)) => assert_eq!(r.id, 1),
        other => panic!("expected a delete request, got {:?}", other),
    }
    // Off the record list nothing is requested.
    app.apply_event(AppEvent::IncrementWidget);
    assert_eq!(app.apply_event(AppEvent::RemoveRecord), None);
}

#[test]
fn delete_with_nothing_selected_is_a_no_op() {
    let mut app = App::new(loaded_manager());
    assert_eq!(app.apply_event(AppEvent::RemoveRecord), None);
}

#[test]
fn edit_mode_needs_focus_records_and_selection() {
    let mut app = App::new(loaded_manager());
    app.apply_event(AppEvent::EditRecord);
    assert!(!app.input_mode);
    app.record_lister.ensure_selection();
    app.apply_event(AppEvent::IncrementWidget);
    app.apply_event(AppEvent::EditRecord);
    assert!(!app.input_mode);
}

#[test]
fn reload_keeps_or_clamps_the_selection() {
    let mut app = App::new(loaded_manager());
    app.record_lister.ensure_selection();
    app.apply_event(AppEvent::DecrementRecords);
    assert_eq!(app.record_lister.selected, Some(1));
    let mut shorter = RecordManager::new();
    shorter.add_record(Record::new(1, MoneyType::INCOME, 100, None, day(2025, 1, 1)));
    app.set_record_manager(shorter);
    assert_eq!(app.record_lister.selected, Some(0));
    app.set_record_manager(RecordManager::new());
    assert_eq!(app.record_lister.selected, None);
}
