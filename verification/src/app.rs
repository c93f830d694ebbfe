//! The terminal application's state machine: widget focus, record
//! selection, the help overlay, and the text-entry mode with its four
//! input buffers.
//!
//! Everything here is a pure transition on plain state. Key events come
//! in as [`Key`] values, are mapped to [`AppEvent`]s, and applying an
//! event yields at most one [`StorageRequest`] for the caller to run
//! against persistent storage; the caller then hands the freshly loaded
//! record set back through [`App::set_record_manager`].

use vstd::prelude::*;
use crate::input::{record_to_edit_mode, spec_edit_fields, spec_validate, validate_input, ValidInput};
use crate::manager::RecordManager;
use crate::record::Record;
use crate::text::{pop_char, push_char};

verus! {

/// Which widget currently has focus.
#[derive(Debug, Clone, Copy, PartialEq, Eq, Structural)]
pub enum FocusedWidget {
    Records,
    PieChart,
    LineChart,
}

/// A terminal key, reduced to what the application reacts to.
#[derive(Debug, Clone, Copy, PartialEq, Eq, Structural)]
pub enum Key {
    Char(char),
    Backspace,
    Tab,
    BackTab,
    Esc,
    Enter,
    Up,
    Down,
    Delete,
}

/// An application-level event.
#[derive(Debug, Clone, Copy, PartialEq, Eq, Structural)]
pub enum AppEvent {
    Quit,
    DecrementWidget,
    IncrementWidget,
    IncrementRecords,
    DecrementRecords,
    RemoveRecord,
    Addchar(char),
    Remchar,
    TabInput,
    BackTabInput,
    EscReset,
    EnterCOnfirm,
    EnterInputMode,
    EditRecord,
    HelpEnter,
    HelpExit,
}

/// Work that only persistent storage can do, decided by the state
/// machine and carried out by the caller.
#[derive(Debug, Clone, Copy, PartialEq, Eq, Structural)]
pub enum StorageRequest {
    /// Overwrite the stored row that carries this record's id with this
    /// record's fields, then reload.
    Update(Record),
    /// Renumber all stored rows to ids `1 ..= N`, insert a new record
    /// with these fields under id `N + 1`, then reload.
    Insert(ValidInput),
    /// Renumber all stored rows, delete the row with this record's id,
    /// then reload.
    Delete(Record),
}

/// The record list together with the selection cursor.
#[derive(Debug)]
pub struct RecordLister {
    pub record_manager: RecordManager,
    /// The index of the selected record, when one is selected.
    pub selected: Option<usize>,
}

impl RecordLister {
    /// The selection, when present, points at a record.
    pub open spec fn wf(self) -> bool {
        &&& self.record_manager.wf()
        &&& self.selected is Some ==> (self.selected->0 as int) < self.record_manager@.len()
    }

    /// A lister over freshly loaded records, with nothing selected yet.
    pub fn new(record_manager: RecordManager) -> (r: RecordLister)
        requires
            record_manager.wf(),
        ensures
            r.record_manager == record_manager,
            r.selected is None,
            r.wf(),
    {
        RecordLister { record_manager, selected: None }
    }

    /// Selects the first record when the list is non-empty and nothing
    /// is selected, as the record list does before it is drawn.
    pub fn ensure_selection(&mut self)
        requires
            old(self).wf(),
        ensures
            final(self).record_manager == old(self).record_manager,
            final(self).selected == if old(self).selected is None
                && old(self).record_manager@.len() > 0 {
                Some(0usize)
            } else {
                old(self).selected
            },
            final(self).wf(),
    {
        if self.selected.is_none() && self.record_manager.get_all().len() > 0 {
            self.selected = Some(0);
        }
    }

    /// Moves the selection one record down, wrapping to the top; with
    /// nothing selected the walk starts from the top. An empty list is
    /// left alone.
    pub fn select_next(&mut self)
        requires
            old(self).wf(),
        ensures
            final(self).record_manager == old(self).record_manager,
            final(self).wf(),
            final(self).selected == spec_select_next(*old(self)),
    {
        let n = self.record_manager.get_all().len();
        if n == 0 {
            return;
        }
        let selected_now = match self.selected {
            Some(i) => i,
            None => 0,
        };
        let next: usize = if selected_now == n - 1 {
            0
        } else {
            selected_now + 1
        };
        self.selected = Some(next);
    }

    /// Moves the selection one record up, wrapping to the bottom; with
    /// nothing selected the walk starts from the top. An empty list is
    /// left alone.
    pub fn select_previous(&mut self)
        requires
            old(self).wf(),
        ensures
            final(self).record_manager == old(self).record_manager,
            final(self).wf(),
            final(self).selected == spec_select_previous(*old(self)),
    {
        let n = self.record_manager.get_all().len();
        if n == 0 {
            return;
        }
        let selected_now = match self.selected {
            Some(i) => i,
            None => 0,
        };
        let previous: usize = if selected_now == 0 {
            n - 1
        } else {
            selected_now - 1
        };
        self.selected = Some(previous);
    }
}

/// Where the selection lands after one step down.
pub open spec fn spec_select_next(l: RecordLister) -> Option<usize> {
    let n = l.record_manager@.len();
    if n == 0 {
        l.selected
    } else {
        let now = match l.selected {
            Some(i) => i as int,
            None => 0,
        };
        if now == n - 1 {
            Some(0usize)
        } else {
            Some((now + 1) as usize)
        }
    }
}

/// Where the selection lands after one step up.
pub open spec fn spec_select_previous(l: RecordLister) -> Option<usize> {
    let n = l.record_manager@.len();
    if n == 0 {
        l.selected
    } else {
        let now = match l.selected {
            Some(i) => i as int,
            None => 0,
        };
        if now == 0 {
            Some((n - 1) as usize)
        } else {
            Some((now - 1) as usize)
        }
    }
}

/// The terminal application's state.
#[derive(Debug)]
pub struct App {
    /// Whether the application keeps running.
    pub running: bool,
    /// Which widget has focus.
    pub focusing_widget: FocusedWidget,
    /// The record list and its selection.
    pub record_lister: RecordLister,
    /// Whether the help overlay is shown.
    pub help_show: bool,
    /// Whether text-entry mode is active.
    pub input_mode: bool,
    /// The active input field, `0 ..= 3`.
    pub input_select: usize,
    /// The four input buffers: amount, direction sign, category, date.
    pub input_buffer: Vec<String>,
    /// Whether text-entry mode edits the selected record rather than
    /// entering a fresh one.
    pub update_mode: bool,
    /// Whether the last confirm attempt was rejected; shown in the
    /// status area.
    pub input_error: bool,
}

/// The two states agree on everything but the text-entry fields, which
/// stand cleared in `n`.
pub open spec fn spec_reset_input(o: App, n: App) -> bool {
    &&& n.running == o.running
    &&& n.focusing_widget == o.focusing_widget
    &&& n.record_lister == o.record_lister
    &&& n.help_show == o.help_show
    &&& n.input_mode == false
    &&& n.input_select == 0
    &&& n.input_buffer@.len() == 4
    &&& forall|i: int| 0 <= i < 4 ==> (#[trigger] n.input_buffer@[i])@ == Seq::<char>::empty()
    &&& n.update_mode == false
}

impl App {
    /// Four input fields, the cursor on one of them, a selection that
    /// points at a record.
    pub open spec fn wf(self) -> bool {
        &&& self.input_buffer@.len() == 4
        &&& self.input_select < 4
        &&& self.record_lister.wf()
    }

    /// The view of the four input buffers.
    pub open spec fn buffers(self) -> Seq<Seq<char>> {
        Seq::new(self.input_buffer@.len(), |i: int| self.input_buffer@[i]@)
    }

    /// A fresh application over loaded records: running, the record
    /// list focused, no overlay, text entry off and empty.
    pub fn new(record_manager: RecordManager) -> (r: App)
        requires
            record_manager.wf(),
        ensures
            r.running == true,
            r.focusing_widget == FocusedWidget::Records,
            r.record_lister.record_manager == record_manager,
            r.record_lister.selected is None,
            r.help_show == false,
            r.input_mode == false,
            r.input_select == 0,
            forall|i: int| 0 <= i < 4 ==> (#[trigger] r.input_buffer@[i])@ == Seq::<char>::empty(),
            r.update_mode == false,
            r.input_error == false,
            r.wf(),
    {
        App {
            running: true,
            focusing_widget: FocusedWidget::Records,
            record_lister: RecordLister::new(record_manager),
            help_show: false,
            input_mode: false,
            input_select: 0,
            input_buffer: empty_buffers(),
            update_mode: false,
            input_error: false,
        }
    }

    /// Replaces the record set with a freshly loaded one, keeping the
    /// selection where it still points at a record and moving it to the
    /// top otherwise.
    pub fn set_record_manager(&mut self, record_manager: RecordManager)
        requires
            old(self).wf(),
            record_manager.wf(),
        ensures
            *final(self) == (App {
                record_lister: final(self).record_lister,
                ..*old(self)
            }),
            final(self).record_lister.record_manager == record_manager,
            final(self).record_lister.selected == spec_clamped_selection(
                old(self).record_lister.selected,
                record_manager@.len(),
            ),
            final(self).wf(),
    {
        let n = record_manager.get_all().len();
        let selected = match self.record_lister.selected {
            Some(i) => {
                if n == 0 {
                    None
                } else if i < n {
                    Some(i)
                } else {
                    Some(0)
                }
            },
            None => {
                if n == 0 {
                    None
                } else {
                    None
                }
            },
        };
        self.record_lister = RecordLister { record_manager, selected };
    }

    /// Maps a key to the event it raises in the current mode, as the
    /// key handler dispatches them: text-entry keys while entering,
    /// only dismissal while the help overlay is up, the main bindings
    /// otherwise.
    pub fn handle_key_events(&self, key: Key) -> (r: Option<AppEvent>)
        ensures
            r == spec_key_event(*self, key),
    {
        if self.input_mode {
            match key {
                Key::Char(c) => Some(AppEvent::Addchar(c)),
                Key::Backspace => Some(AppEvent::Remchar),
                Key::Tab => Some(AppEvent::TabInput),
                Key::BackTab => Some(AppEvent::BackTabInput),
                Key::Esc => Some(AppEvent::EscReset),
                Key::Enter => Some(AppEvent::EnterCOnfirm),
                _ => None,
            }
        } else if self.help_show {
            match key {
                Key::Esc => Some(AppEvent::HelpExit),
                Key::Char(c) => {
                    if c == 'q' {
                        Some(AppEvent::HelpExit)
                    } else {
                        None
                    }
                },
                _ => None,
            }
        } else {
            match key {
                Key::Char(c) => {
                    if c == 'q' {
                        Some(AppEvent::Quit)
                    } else if c == 'a' {
                        Some(AppEvent::EnterInputMode)
                    } else if c == 'h' {
                        Some(AppEvent::HelpEnter)
                    } else {
                        None
                    }
                },
                Key::Tab => Some(AppEvent::IncrementWidget),
                Key::BackTab => Some(AppEvent::DecrementWidget),
                Key::Up => Some(AppEvent::IncrementRecords),
                Key::Down => Some(AppEvent::DecrementRecords),
                Key::Delete => Some(AppEvent::RemoveRecord),
                Key::Enter => Some(AppEvent::EditRecord),
                _ => None,
            }
        }
    }

    /// Stops the application.
    pub fn quit(&mut self)
        ensures
            *final(self) == (App { running: false, ..*old(self) }),
    {
        self.running = false;
    }

    /// Reacts to a timer tick; nothing changes.
    pub fn tick(&self) {
    }

    /// Shows the help overlay.
    pub fn help_enter(&mut self)
        ensures
            *final(self) == (App { help_show: true, ..*old(self) }),
    {
        self.help_show = true;
    }

    /// Hides the help overlay.
    pub fn help_exit(&mut self)
        ensures
            *final(self) == (App { help_show: false, ..*old(self) }),
    {
        self.help_show = false;
    }

    /// Moves focus to the next widget.
    pub fn increment_widget(&mut self)
        ensures
            *final(self) == (App {
                focusing_widget: spec_next_widget(old(self).focusing_widget),
                ..*old(self)
            }),
    {
        self.focusing_widget = match self.focusing_widget {
            FocusedWidget::Records => FocusedWidget::PieChart,
            FocusedWidget::PieChart => FocusedWidget::LineChart,
            FocusedWidget::LineChart => FocusedWidget::Records,
        };
    }

    /// Moves focus to the previous widget.
    pub fn decrement_widget(&mut self)
        ensures
            *final(self) == (App {
                focusing_widget: spec_previous_widget(old(self).focusing_widget),
                ..*old(self)
            }),
    {
        self.focusing_widget = match self.focusing_widget {
            FocusedWidget::Records => FocusedWidget::LineChart,
            FocusedWidget::PieChart => FocusedWidget::Records,
            FocusedWidget::LineChart => FocusedWidget::PieChart,
        };
    }

    /// Moves the record selection down, when the record list has focus.
    pub fn record_check_increment(&mut self)
        requires
            old(self).wf(),
        ensures
            final(self).wf(),
            old(self).focusing_widget != FocusedWidget::Records ==> *final(self) == *old(self),
            old(self).focusing_widget == FocusedWidget::Records ==> *final(self) == (App {
                record_lister: RecordLister {
                    selected: spec_select_next(old(self).record_lister),
                    ..old(self).record_lister
                },
                ..*old(self)
            }),
    {
        if self.focusing_widget != FocusedWidget::Records {
            return;
        }
        self.record_lister.select_next();
    }

    /// Moves the record selection up, when the record list has focus.
    pub fn record_check_decrement(&mut self)
        requires
            old(self).wf(),
        ensures
            final(self).wf(),
            old(self).focusing_widget != FocusedWidget::Records ==> *final(self) == *old(self),
            old(self).focusing_widget == FocusedWidget::Records ==> *final(self) == (App {
                record_lister: RecordLister {
                    selected: spec_select_previous(old(self).record_lister),
                    ..old(self).record_lister
                },
                ..*old(self)
            }),
    {
        if self.focusing_widget != FocusedWidget::Records {
            return;
        }
        self.record_lister.select_previous();
    }

    /// Moves the field cursor to the next input field, wrapping.
    pub fn tab_input(&mut self)
        requires
            old(self).wf(),
        ensures
            final(self).wf(),
            *final(self) == (App {
                input_select: if old(self).input_select == 3 {
                    0usize
                } else {
                    (old(self).input_select + 1) as usize
                },
                ..*old(self)
            }),
    {
        if self.input_select == 3 {
            self.input_select = 0;
        } else {
            self.input_select = self.input_select + 1;
        }
    }

    /// Moves the field cursor to the previous input field, wrapping.
    #[allow(non_snake_case)]
    pub fn BackTabInput(&mut self)
        requires
            old(self).wf(),
        ensures
            final(self).wf(),
            *final(self) == (App {
                input_select: if old(self).input_select == 0 {
                    3usize
                } else {
                    (old(self).input_select - 1) as usize
                },
                ..*old(self)
            }),
    {
        if self.input_select == 0 {
            self.input_select = 3;
        } else {
            self.input_select = self.input_select - 1;
        }
    }

    /// Appends a character to the active input field.
    pub fn char_add(&mut self, c: char)
        requires
            old(self).wf(),
        ensures
            final(self).wf(),
            *final(self) == (App { input_buffer: final(self).input_buffer, ..*old(self) }),
            final(self).input_buffer@.len() == 4,
            final(self).input_buffer@[old(self).input_select as int]@ == old(self).input_buffer@[
                old(self).input_select as int
            ]@.push(c),
            forall|i: int|
                0 <= i < 4 && i != old(self).input_select as int ==> final(self).input_buffer@[i]
                    == old(self).input_buffer@[i],
    {
        push_char(&mut self.input_buffer[self.input_select], c);
    }

    /// Removes the last character of the active input field, if any.
    pub fn rem_char(&mut self)
        requires
            old(self).wf(),
        ensures
            final(self).wf(),
            *final(self) == (App { input_buffer: final(self).input_buffer, ..*old(self) }),
            final(self).input_buffer@.len() == 4,
            final(self).input_buffer@[old(self).input_select as int]@ == crate::text::chop_last(
                old(self).input_buffer@[old(self).input_select as int]@,
            ),
            forall|i: int|
                0 <= i < 4 && i != old(self).input_select as int ==> final(self).input_buffer@[i]
                    == old(self).input_buffer@[i],
    {
        pop_char(&mut self.input_buffer[self.input_select]);
    }

    /// Leaves text-entry mode: clears the four fields and the field
    /// cursor, whatever state entry was in.
    #[allow(non_snake_case)]
    pub fn EscReset(&mut self)
        requires
            old(self).wf(),
        ensures
            final(self).wf(),
            spec_reset_input(*old(self), *final(self)),
            final(self).input_error == old(self).input_error,
    {
        self.input_buffer = empty_buffers();
        self.input_select = 0;
        self.input_mode = false;
        self.update_mode = false;
    }

    /// Enters text-entry mode for a fresh record, when the record list
    /// has focus.
    pub fn enter_input_mode(&mut self)
        ensures
            old(self).focusing_widget != FocusedWidget::Records ==> *final(self) == *old(self),
            old(self).focusing_widget == FocusedWidget::Records ==> *final(self) == (App {
                input_mode: true,
                ..*old(self)
            }),
    {
        if self.focusing_widget != FocusedWidget::Records {
            return;
        }
        self.input_mode = true;
    }

    /// Enters text-entry mode over the selected record: the four fields
    /// are pre-filled from it and confirming updates it. Without focus,
    /// records or a selection, nothing happens.
    pub fn enter_edit_mode(&mut self)
        requires
            old(self).wf(),
        ensures
            final(self).wf(),
            !spec_can_edit(*old(self)) ==> *final(self) == *old(self),
            spec_can_edit(*old(self)) ==> {
                &&& *final(self) == (App {
                    input_buffer: final(self).input_buffer,
                    input_mode: true,
                    update_mode: true,
                    ..*old(self)
                })
                &&& final(self).buffers() == spec_edit_fields(
                    old(self).record_lister.record_manager@[
                        old(self).record_lister.selected->0 as int
                    ],
                )
            },
    {
        if self.focusing_widget != FocusedWidget::Records
            || self.record_lister.record_manager.get_all().len() == 0 {
            return;
        }
        let index = match self.record_lister.selected {
            Some(i) => i,
            None => {
                return;
            },
        };
        let all = self.record_lister.record_manager.get_all();
        let record = all[index];
        proof {
            assert(record.wf());
        }
        self.input_buffer = record_to_edit_mode(&record);
        self.update_mode = true;
        self.input_mode = true;
        proof {
            assert(self.buffers() =~= spec_edit_fields(record));
        }
    }

    /// The record to delete, when the record list has focus and a
    /// record is selected; the state itself does not change.
    pub fn remove_selected_record(&self) -> (r: Option<Record>)
        requires
            self.wf(),
        ensures
            r == spec_removal(*self),
    {
        if self.focusing_widget != FocusedWidget::Records {
            return None;
        }
        let index = match self.record_lister.selected {
            Some(i) => i,
            None => {
                return None;
            },
        };
        let all = self.record_lister.record_manager.get_all();
        Some(all[index])
    }

    /// Confirms the text entry: validates the four fields and decides
    /// the storage mutation. The fields are cleared and entry mode left
    /// either way; a failed validation raises the error flag instead of
    /// mutating anything.
    #[allow(non_snake_case)]
    pub fn EnterConfirm(&mut self) -> (r: Option<StorageRequest>)
        requires
            old(self).wf(),
        ensures
            final(self).wf(),
            spec_reset_input(*old(self), *final(self)),
            r == spec_confirm_request(*old(self)),
            final(self).input_error == (spec_confirm_validated(*old(self)) is None),
    {
        let validated = validate_input(&self.input_buffer);
        proof {
            assert(old(self).buffers()[0] == old(self).input_buffer@[0]@);
            assert(old(self).buffers()[1] == old(self).input_buffer@[1]@);
            assert(old(self).buffers()[2] == old(self).input_buffer@[2]@);
            assert(old(self).buffers()[3] == old(self).input_buffer@[3]@);
        }
        let r = match validated {
            None => {
                self.input_error = true;
                None
            },
            Some(v) => {
                self.input_error = false;
                if self.update_mode {
                    match self.record_lister.selected {
                        None => None,
                        Some(i) => {
                            let all = self.record_lister.record_manager.get_all();
                            let target = all[i];
                            Some(
                                StorageRequest::Update(
                                    Record {
                                        id: target.id,
                                        money_type: v.money_type,
                                        amount: v.amount,
                                        expense: v.expense,
                                        time: v.time,
                                    },
                                ),
                            )
                        },
                    }
                } else {
                    Some(StorageRequest::Insert(v))
                }
            },
        };
        self.input_buffer = empty_buffers();
        self.input_select = 0;
        self.input_mode = false;
        self.update_mode = false;
        r
    }

    /// Applies one application event: the pure state transition, plus
    /// the storage work it asks for, if any.
    pub fn apply_event(&mut self, event: AppEvent) -> (r: Option<StorageRequest>)
        requires
            old(self).wf(),
        ensures
            final(self).wf(),
            match event {
                AppEvent::Quit => *final(self) == (App { running: false, ..*old(self) }) && r
                    is None,
                AppEvent::DecrementWidget => *final(self) == (App {
                    focusing_widget: spec_previous_widget(old(self).focusing_widget),
                    ..*old(self)
                }) && r is None,
                AppEvent::IncrementWidget => *final(self) == (App {
                    focusing_widget: spec_next_widget(old(self).focusing_widget),
                    ..*old(self)
                }) && r is None,
                AppEvent::IncrementRecords => r is None && (
                    if old(self).focusing_widget == FocusedWidget::Records {
                        *final(self) == (App {
                            record_lister: RecordLister {
                                selected: spec_select_previous(old(self).record_lister),
                                ..old(self).record_lister
                            },
                            ..*old(self)
                        })
                    } else {
                        *final(self) == *old(self)
                    }
                ),
                AppEvent::DecrementRecords => r is None && (
                    if old(self).focusing_widget == FocusedWidget::Records {
                        *final(self) == (App {
                            record_lister: RecordLister {
                                selected: spec_select_next(old(self).record_lister),
                                ..old(self).record_lister
                            },
                            ..*old(self)
                        })
                    } else {
                        *final(self) == *old(self)
                    }
                ),
                AppEvent::RemoveRecord => *final(self) == *old(self) && r == (
                    match spec_removal(*old(self)) {
                        Some(rec) => Some(StorageRequest::Delete(rec)),
                        None => None,
                    }
                ),
                AppEvent::Addchar(c) => {
                    &&& *final(self) == (App {
                        input_buffer: final(self).input_buffer,
                        ..*old(self)
                    })
                    &&& final(self).input_buffer@.len() == 4
                    &&& final(self).input_buffer@[old(self).input_select as int]@ == old(self).input_buffer@[old(self).input_select as int]@.push(c)
                    &&& forall|i: int|
                        0 <= i < 4 && i != old(self).input_select as int ==> final(self).input_buffer@[i] == old(self).input_buffer@[i]
                    &&& r is None
                },
                AppEvent::Remchar => {
                    &&& *final(self) == (App {
                        input_buffer: final(self).input_buffer,
                        ..*old(self)
                    })
                    &&& final(self).input_buffer@.len() == 4
                    &&& final(self).input_buffer@[old(self).input_select as int]@
                        == crate::text::chop_last(
                        old(self).input_buffer@[old(self).input_select as int]@,
                    )
                    &&& forall|i: int|
                        0 <= i < 4 && i != old(self).input_select as int ==> final(self).input_buffer@[i] == old(self).input_buffer@[i]
                    &&& r is None
                },
                AppEvent::TabInput => *final(self) == (App {
                    input_select: if old(self).input_select == 3 {
                        0usize
                    } else {
                        (old(self).input_select + 1) as usize
                    },
                    ..*old(self)
                }) && r is None,
                AppEvent::BackTabInput => *final(self) == (App {
                    input_select: if old(self).input_select == 0 {
                        3usize
                    } else {
                        (old(self).input_select - 1) as usize
                    },
                    ..*old(self)
                }) && r is None,
                AppEvent::EscReset => spec_reset_input(*old(self), *final(self)) && final(self).input_error == old(self).input_error && r is None,
                AppEvent::EnterCOnfirm => {
                    &&& spec_reset_input(*old(self), *final(self))
                    &&& r == spec_confirm_request(*old(self))
                    &&& final(self).input_error == (spec_confirm_validated(*old(self)) is None)
                },
                AppEvent::EnterInputMode => r is None && (
                    if old(self).focusing_widget == FocusedWidget::Records {
                        *final(self) == (App { input_mode: true, ..*old(self) })
                    } else {
                        *final(self) == *old(self)
                    }
                ),
                AppEvent::EditRecord => r is None && (
                    if spec_can_edit(*old(self)) {
                        &&& *final(self) == (App {
                            input_buffer: final(self).input_buffer,
                            input_mode: true,
                            update_mode: true,
                            ..*old(self)
                        })
                        &&& final(self).buffers() == spec_edit_fields(
                            old(self).record_lister.record_manager@[
                                old(self).record_lister.selected->0 as int
                            ],
                        )
                    } else {
                        *final(self) == *old(self)
                    }
                ),
                AppEvent::HelpEnter => *final(self) == (App { help_show: true, ..*old(self) }) && r
                    is None,
                AppEvent::HelpExit => *final(self) == (App { help_show: false, ..*old(self) }) && r
                    is None,
            },
    {
        match event {
            AppEvent::Quit => {
                self.quit();
                None
            },
            AppEvent::DecrementWidget => {
                self.decrement_widget();
                None
            },
            AppEvent::IncrementWidget => {
                self.increment_widget();
                None
            },
            AppEvent::IncrementRecords => {
                self.record_check_decrement();
                None
            },
            AppEvent::DecrementRecords => {
                self.record_check_increment();
                None
            },
            AppEvent::RemoveRecord => {
                match self.remove_selected_record() {
                    Some(rec) => Some(StorageRequest::Delete(rec)),
                    None => None,
                }
            },
            AppEvent::Addchar(c) => {
                self.char_add(c);
                None
            },
            AppEvent::Remchar => {
                self.rem_char();
                None
            },
            AppEvent::TabInput => {
                self.tab_input();
                None
            },
            AppEvent::BackTabInput => {
                self.BackTabInput();
                None
            },
            AppEvent::EscReset => {
                self.EscReset();
                None
            },
            AppEvent::EnterCOnfirm => self.EnterConfirm(),
            AppEvent::EnterInputMode => {
                self.enter_input_mode();
                None
            },
            AppEvent::EditRecord => {
                self.enter_edit_mode();
                None
            },
            AppEvent::HelpEnter => {
                self.help_enter();
                None
            },
            AppEvent::HelpExit => {
                self.help_exit();
                None
            },
        }
    }
}

/// The widget after `w` in the focus cycle.
pub open spec fn spec_next_widget(w: FocusedWidget) -> FocusedWidget {
    match w {
        FocusedWidget::Records => FocusedWidget::PieChart,
        FocusedWidget::PieChart => FocusedWidget::LineChart,
        FocusedWidget::LineChart => FocusedWidget::Records,
    }
}

/// The widget before `w` in the focus cycle.
pub open spec fn spec_previous_widget(w: FocusedWidget) -> FocusedWidget {
    match w {
        FocusedWidget::Records => FocusedWidget::LineChart,
        FocusedWidget::PieChart => FocusedWidget::Records,
        FocusedWidget::LineChart => FocusedWidget::PieChart,
    }
}

/// Where the selection lands after a reload: kept while it still points
/// at a record, otherwise moved to the top of a non-empty list, absent
/// on an empty one.
pub open spec fn spec_clamped_selection(selected: Option<usize>, len: nat) -> Option<usize> {
    match selected {
        Some(i) => if len == 0 {
            None
        } else if (i as nat) < len {
            Some(i)
        } else {
            Some(0usize)
        },
        None => None,
    }
}

/// Whether edit mode can open: the record list focused, non-empty, and
/// a record selected.
pub open spec fn spec_can_edit(a: App) -> bool {
    &&& a.focusing_widget == FocusedWidget::Records
    &&& a.record_lister.record_manager@.len() > 0
    &&& a.record_lister.selected is Some
}

/// The record a delete request would remove: the selected one, when the
/// record list has focus and something is selected.
pub open spec fn spec_removal(a: App) -> Option<Record> {
    if a.focusing_widget == FocusedWidget::Records && a.record_lister.selected is Some {
        Some(a.record_lister.record_manager@[a.record_lister.selected->0 as int])
    } else {
        None
    }
}

/// What validating the current input fields yields.
pub open spec fn spec_confirm_validated(a: App) -> Option<ValidInput> {
    spec_validate(a.buffers()[0], a.buffers()[1], a.buffers()[2], a.buffers()[3])
}

/// The storage request a confirm raises: an update of the selected
/// record's row in update mode, an insert otherwise, nothing when
/// validation fails or update mode has no selection.
pub open spec fn spec_confirm_request(a: App) -> Option<StorageRequest> {
    match spec_confirm_validated(a) {
        None => None,
        Some(v) => {
            if a.update_mode {
                match a.record_lister.selected {
                    None => None,
                    Some(i) => Some(
                        StorageRequest::Update(
                            Record {
                                id: a.record_lister.record_manager@[i as int].id,
                                money_type: v.money_type,
                                amount: v.amount,
                                expense: v.expense,
                                time: v.time,
                            },
                        ),
                    ),
                }
            } else {
                Some(StorageRequest::Insert(v))
            }
        },
    }
}

/// The event a key raises in the current mode.
pub open spec fn spec_key_event(a: App, key: Key) -> Option<AppEvent> {
    if a.input_mode {
        match key {
            Key::Char(c) => Some(AppEvent::Addchar(c)),
            Key::Backspace => Some(AppEvent::Remchar),
            Key::Tab => Some(AppEvent::TabInput),
            Key::BackTab => Some(AppEvent::BackTabInput),
            Key::Esc => Some(AppEvent::EscReset),
            Key::Enter => Some(AppEvent::EnterCOnfirm),
            _ => None,
        }
    } else if a.help_show {
        match key {
            Key::Esc => Some(AppEvent::HelpExit),
            Key::Char(c) => if c == 'q' {
                Some(AppEvent::HelpExit)
            } else {
                None
            },
            _ => None,
        }
    } else {
        match key {
            Key::Char(c) => if c == 'q' {
                Some(AppEvent::Quit)
            } else if c == 'a' {
                Some(AppEvent::EnterInputMode)
            } else if c == 'h' {
                Some(AppEvent::HelpEnter)
            } else {
                None
            },
            Key::Tab => Some(AppEvent::IncrementWidget),
            Key::BackTab => Some(AppEvent::DecrementWidget),
            Key::Up => Some(AppEvent::IncrementRecords),
            Key::Down => Some(AppEvent::DecrementRecords),
            Key::Delete => Some(AppEvent::RemoveRecord),
            Key::Enter => Some(AppEvent::EditRecord),
            _ => None,
        }
    }
}

/// Four fresh empty input buffers.
fn empty_buffers() -> (r: Vec<String>)
    ensures
        r@.len() == 4,
        forall|i: int| 0 <= i < 4 ==> (#[trigger] r@[i])@ == Seq::<char>::empty(),
{
    let mut v: Vec<String> = Vec::new();
    v.push(String::new());
    v.push(String::new());
    v.push(String::new());
    v.push(String::new());
    v
}

} // verus!
