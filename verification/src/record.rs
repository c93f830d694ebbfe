//! The ledger record: direction, amount, optional expense category and
//! date, together with its text forms — the fixed-width display line and
//! the plain-text row stored by the persistence layer.

use vstd::prelude::*;
use crate::amount::{amount_ok, amount_text, format_amount, AMOUNT_LIMIT};
use crate::date::{date_text, format_date, parse_date, spec_parse_date, Date};
use crate::text::{int_text, i64_text, pad_left, pad_right, pad_left_text, pad_right_text, str_eq};

verus! {

/// Whether a record is money coming in or going out.
#[derive(Debug, Clone, Copy, PartialEq, Eq, Structural)]
pub enum MoneyType {
    INCOME,
    EXPENSE,
}

/// The ten fixed expense categories.
#[derive(Debug, Clone, Copy, PartialEq, Eq, Structural, Hash)]
pub enum ExpenseType {
    FUN,
    RESTAURANT,
    SHOPPING,
    INVESTMENT,
    FREETIME,
    HOME,
    CLOTH,
    CAR,
    TRAVEL,
    OTHER,
}

/// The position of a category in the fixed category order.
pub open spec fn expense_index(e: ExpenseType) -> int {
    match e {
        ExpenseType::FUN => 0,
        ExpenseType::RESTAURANT => 1,
        ExpenseType::SHOPPING => 2,
        ExpenseType::INVESTMENT => 3,
        ExpenseType::FREETIME => 4,
        ExpenseType::HOME => 5,
        ExpenseType::CLOTH => 6,
        ExpenseType::CAR => 7,
        ExpenseType::TRAVEL => 8,
        ExpenseType::OTHER => 9,
    }
}

/// The category at a position in the fixed category order.
pub open spec fn expense_at(i: int) -> ExpenseType {
    if i == 0 {
        ExpenseType::FUN
    } else if i == 1 {
        ExpenseType::RESTAURANT
    } else if i == 2 {
        ExpenseType::SHOPPING
    } else if i == 3 {
        ExpenseType::INVESTMENT
    } else if i == 4 {
        ExpenseType::FREETIME
    } else if i == 5 {
        ExpenseType::HOME
    } else if i == 6 {
        ExpenseType::CLOTH
    } else if i == 7 {
        ExpenseType::CAR
    } else if i == 8 {
        ExpenseType::TRAVEL
    } else {
        ExpenseType::OTHER
    }
}

/// The human-readable name of a category, as the record list shows it.
pub open spec fn spec_expense_display(e: ExpenseType) -> Seq<char> {
    match e {
        ExpenseType::FUN => "Fun"@,
        ExpenseType::RESTAURANT => "Restaurant"@,
        ExpenseType::SHOPPING => "Shopping"@,
        ExpenseType::INVESTMENT => "Investment"@,
        ExpenseType::FREETIME => "Freetime"@,
        ExpenseType::HOME => "Home"@,
        ExpenseType::CLOTH => "Cloth"@,
        ExpenseType::CAR => "Car"@,
        ExpenseType::TRAVEL => "Travel"@,
        ExpenseType::OTHER => "Other"@,
    }
}

/// The human-readable name of a category.
pub fn expense_display(e: &ExpenseType) -> (r: &'static str)
    ensures
        r@ == spec_expense_display(*e),
{
    match e {
        ExpenseType::FUN => "Fun",
        ExpenseType::RESTAURANT => "Restaurant",
        ExpenseType::SHOPPING => "Shopping",
        ExpenseType::INVESTMENT => "Investment",
        ExpenseType::FREETIME => "Freetime",
        ExpenseType::HOME => "Home",
        ExpenseType::CLOTH => "Cloth",
        ExpenseType::CAR => "Car",
        ExpenseType::TRAVEL => "Travel",
        ExpenseType::OTHER => "Other",
    }
}

/// The upper-case token of a category, as storage and the input fields
/// use it.
pub open spec fn spec_expense_token(e: ExpenseType) -> Seq<char> {
    match e {
        ExpenseType::FUN => "FUN"@,
        ExpenseType::RESTAURANT => "RESTAURANT"@,
        ExpenseType::SHOPPING => "SHOPPING"@,
        ExpenseType::INVESTMENT => "INVESTMENT"@,
        ExpenseType::FREETIME => "FREETIME"@,
        ExpenseType::HOME => "HOME"@,
        ExpenseType::CLOTH => "CLOTH"@,
        ExpenseType::CAR => "CAR"@,
        ExpenseType::TRAVEL => "TRAVEL"@,
        ExpenseType::OTHER => "OTHER"@,
    }
}

/// The token of an optional category: `NONE` stands for "no category".
pub open spec fn spec_expense_field_token(e: Option<ExpenseType>) -> Seq<char> {
    match e {
        Some(e) => spec_expense_token(e),
        None => "NONE"@,
    }
}

/// The upper-case token of a category.
pub fn expense_token(e: &ExpenseType) -> (r: &'static str)
    ensures
        r@ == spec_expense_token(*e),
{
    match e {
        ExpenseType::FUN => "FUN",
        ExpenseType::RESTAURANT => "RESTAURANT",
        ExpenseType::SHOPPING => "SHOPPING",
        ExpenseType::INVESTMENT => "INVESTMENT",
        ExpenseType::FREETIME => "FREETIME",
        ExpenseType::HOME => "HOME",
        ExpenseType::CLOTH => "CLOTH",
        ExpenseType::CAR => "CAR",
        ExpenseType::TRAVEL => "TRAVEL",
        ExpenseType::OTHER => "OTHER",
    }
}

/// The category a piece of text names, or `None` when it names none.
///
/// Text that is neither a category token nor `NONE` also yields `None`:
/// the input path treats unknown category text as "no category" rather
/// than as an error.
pub open spec fn spec_expense_lenient(s: Seq<char>) -> Option<ExpenseType> {
    if s == "FUN"@ {
        Some(ExpenseType::FUN)
    } else if s == "RESTAURANT"@ {
        Some(ExpenseType::RESTAURANT)
    } else if s == "SHOPPING"@ {
        Some(ExpenseType::SHOPPING)
    } else if s == "INVESTMENT"@ {
        Some(ExpenseType::INVESTMENT)
    } else if s == "FREETIME"@ {
        Some(ExpenseType::FREETIME)
    } else if s == "HOME"@ {
        Some(ExpenseType::HOME)
    } else if s == "CLOTH"@ {
        Some(ExpenseType::CLOTH)
    } else if s == "CAR"@ {
        Some(ExpenseType::CAR)
    } else if s == "TRAVEL"@ {
        Some(ExpenseType::TRAVEL)
    } else if s == "OTHER"@ {
        Some(ExpenseType::OTHER)
    } else {
        None
    }
}

/// Looks text up among the category tokens, leniently.
pub fn expense_from_text(s: &str) -> (r: Option<ExpenseType>)
    ensures
        r == spec_expense_lenient(s@),
{
    if str_eq(s, "FUN") {
        Some(ExpenseType::FUN)
    } else if str_eq(s, "RESTAURANT") {
        Some(ExpenseType::RESTAURANT)
    } else if str_eq(s, "SHOPPING") {
        Some(ExpenseType::SHOPPING)
    } else if str_eq(s, "INVESTMENT") {
        Some(ExpenseType::INVESTMENT)
    } else if str_eq(s, "FREETIME") {
        Some(ExpenseType::FREETIME)
    } else if str_eq(s, "HOME") {
        Some(ExpenseType::HOME)
    } else if str_eq(s, "CLOTH") {
        Some(ExpenseType::CLOTH)
    } else if str_eq(s, "CAR") {
        Some(ExpenseType::CAR)
    } else if str_eq(s, "TRAVEL") {
        Some(ExpenseType::TRAVEL)
    } else if str_eq(s, "OTHER") {
        Some(ExpenseType::OTHER)
    } else {
        None
    }
}

/// One ledger entry.
///
/// `amount` is in cents and is kept non-negative on the normal input
/// path; `expense` is meaningful for `EXPENSE` records and absent income
/// classification. `time` is the calendar day of the entry.
#[derive(Debug, Clone, Copy, PartialEq, Eq, Structural)]
pub struct Record {
    pub id: i32,
    pub money_type: MoneyType,
    pub amount: i64,
    pub expense: Option<ExpenseType>,
    pub time: Date,
}

impl Record {
    /// A record whose amount is representable and whose date exists.
    pub open spec fn wf(self) -> bool {
        amount_ok(self.amount as int) && self.time.wf()
    }

    /// Builds a record from its fields.
    pub fn new(
        id: i32,
        mon_type: MoneyType,
        amount: i64,
        expense: Option<ExpenseType>,
        time: Date,
    ) -> (r: Record)
        ensures
            r == (Record { id, money_type: mon_type, amount, expense, time }),
    {
        Record { id, money_type: mon_type, amount, expense, time }
    }

    /// The sign character of the direction: `+` for income, `-` for
    /// expense.
    pub open spec fn spec_sign(self) -> Seq<char> {
        match self.money_type {
            MoneyType::INCOME => "+"@,
            MoneyType::EXPENSE => "-"@,
        }
    }

    /// The fixed-width display line of a record: the id right-aligned to
    /// three columns, the direction sign, the amount right-aligned to
    /// eight columns with two decimals, the category name or `-`
    /// left-aligned to twelve columns, and the date left-aligned to ten.
    pub open spec fn spec_format(self) -> Seq<char> {
        pad_left(int_text(self.id as int), 3) + "  "@ + self.spec_sign() + " "@ + pad_left(
            amount_text(self.amount as int),
            8,
        ) + "  "@ + pad_right(
            match self.expense {
                Some(e) => spec_expense_display(e),
                None => "-"@,
            },
            12,
        ) + "  "@ + pad_right(date_text(self.time), 10)
    }

    /// Formats the record as its fixed-width display line.
    pub fn format_record(&self) -> (r: String)
        requires
            self.wf(),
        ensures
            r@ == self.spec_format(),
    {
        let mon_type = match self.money_type {
            MoneyType::INCOME => "+",
            MoneyType::EXPENSE => "-",
        };
        let expense_name = match &self.expense {
            Some(e) => expense_display(e),
            None => "-",
        };
        let mut s = pad_left_text(i64_text(self.id as i64), 3);
        s.append("  ");
        s.append(mon_type);
        s.append(" ");
        let amount_part = pad_left_text(format_amount(self.amount), 8);
        s.append(amount_part.as_str());
        s.append("  ");
        let expense_part = pad_right_text(String::from_str(expense_name), 12);
        s.append(expense_part.as_str());
        s.append("  ");
        let date_part = pad_right_text(format_date(&self.time), 10);
        s.append(date_part.as_str());
        proof {
            assert(s@ =~= self.spec_format());
        }
        s
    }
}

/// A record as the persistence layer stores it: every field a plain
/// value, direction and category as their tokens, the date as
/// `DD.MM.YYYY` text, the amount in cents.
pub struct DbRecord {
    pub id: Option<i32>,
    pub money_type: String,
    pub amount: i64,
    pub expense: Option<String>,
    pub time: String,
}

/// Why a stored row could not be read back as a record.
#[derive(Debug, Clone, Copy, PartialEq, Eq, Structural)]
pub enum RowError {
    /// The row carries no id.
    MissingId,
    /// The direction column is neither `INCOME` nor `EXPENSE`.
    BadMoneyType,
    /// The category column is neither a category token nor `NONE`.
    BadExpense,
    /// The date column is not a `DD.MM.YYYY` date.
    BadDate,
    /// The amount is beyond what the ledger represents.
    BadAmount,
}

/// `NONE` names no category: it differs from every category token.
pub proof fn lemma_none_token_is_no_category()
    ensures
        spec_expense_lenient("NONE"@) is None,
{
    reveal_strlit("NONE");
    reveal_strlit("FUN");
    reveal_strlit("RESTAURANT");
    reveal_strlit("SHOPPING");
    reveal_strlit("INVESTMENT");
    reveal_strlit("FREETIME");
    reveal_strlit("HOME");
    reveal_strlit("CLOTH");
    reveal_strlit("CAR");
    reveal_strlit("TRAVEL");
    reveal_strlit("OTHER");
    assert("NONE"@.len() == 4);
    assert("NONE"@[0] == 'N');
    assert("HOME"@[0] == 'H');
    assert("NONE"@ != "HOME"@);
}

/// The direction token stored for a record.
pub open spec fn spec_money_type_token(m: MoneyType) -> Seq<char> {
    match m {
        MoneyType::INCOME => "INCOME"@,
        MoneyType::EXPENSE => "EXPENSE"@,
    }
}

/// Encodes a record as its stored row.
pub fn record_to_row(r: &Record) -> (row: DbRecord)
    requires
        r.wf(),
    ensures
        row.id == Some(r.id),
        row.money_type@ == spec_money_type_token(r.money_type),
        row.amount == r.amount,
        row.expense is Some,
        row.expense->0@ == spec_expense_field_token(r.expense),
        row.time@ == date_text(r.time),
{
    let money_type = match r.money_type {
        MoneyType::INCOME => String::from_str("INCOME"),
        MoneyType::EXPENSE => String::from_str("EXPENSE"),
    };
    let expense = match &r.expense {
        Some(e) => String::from_str(expense_token(e)),
        None => String::from_str("NONE"),
    };
    DbRecord {
        id: Some(r.id),
        money_type,
        amount: r.amount,
        expense: Some(expense),
        time: format_date(&r.time),
    }
}

/// What decoding a stored row yields: the record, or the first thing
/// wrong with the row.
pub open spec fn spec_record_from_row(row: DbRecord) -> Result<Record, RowError> {
    if row.id is None {
        Err(RowError::MissingId)
    } else if !amount_ok(row.amount as int) {
        Err(RowError::BadAmount)
    } else if row.money_type@ != "INCOME"@ && row.money_type@ != "EXPENSE"@ {
        Err(RowError::BadMoneyType)
    } else {
        let money_type = if row.money_type@ == "INCOME"@ {
            MoneyType::INCOME
        } else {
            MoneyType::EXPENSE
        };
        let expense_text = match row.expense {
            Some(s) => s@,
            None => "NONE"@,
        };
        if expense_text != "NONE"@ && spec_expense_lenient(expense_text) is None {
            Err(RowError::BadExpense)
        } else {
            match spec_parse_date(row.time@) {
                None => Err(RowError::BadDate),
                Some(d) => Ok(
                    Record {
                        id: row.id->0,
                        money_type,
                        amount: row.amount,
                        expense: spec_expense_lenient(expense_text),
                        time: d,
                    },
                ),
            }
        }
    }
}

/// Decodes a stored row back into a record.
///
/// A row outside the stored vocabulary is an error for the caller to
/// treat as fatal; it is never silently repaired.
pub fn record_from_row(row: &DbRecord) -> (r: Result<Record, RowError>)
    ensures
        r == spec_record_from_row(*row),
        r is Ok ==> r->Ok_0.wf(),
{
    let id = match row.id {
        Some(i) => i,
        None => {
            return Err(RowError::MissingId);
        },
    };
    if row.amount < -AMOUNT_LIMIT || row.amount > AMOUNT_LIMIT {
        return Err(RowError::BadAmount);
    }
    let money_type = if str_eq(row.money_type.as_str(), "INCOME") {
        MoneyType::INCOME
    } else if str_eq(row.money_type.as_str(), "EXPENSE") {
        MoneyType::EXPENSE
    } else {
        return Err(RowError::BadMoneyType);
    };
    let expense = match &row.expense {
        Some(s) => {
            if str_eq(s.as_str(), "NONE") {
                None
            } else {
                match expense_from_text(s.as_str()) {
                    Some(e) => Some(e),
                    None => {
                        return Err(RowError::BadExpense);
                    },
                }
            }
        },
        None => None,
    };
    let time = match parse_date(row.time.as_str()) {
        Some(d) => d,
        None => {
            return Err(RowError::BadDate);
        },
    };
    proof {
        lemma_none_token_is_no_category();
    }
    Ok(Record { id, money_type, amount: row.amount, expense, time })
}

} // verus!
