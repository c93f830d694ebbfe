//! Validation of the four text-entry fields — amount, direction sign,
//! category, date — and the reverse direction: filling the fields from
//! an existing record for edit mode.

use vstd::prelude::*;
use crate::amount::{
    amount_ok, amount_text, format_amount, lemma_amount_round_trip, parse_amount,
    spec_parse_amount,
};
use crate::date::{date_text, format_date, lemma_date_round_trip, parse_date, spec_parse_date, Date};
use crate::record::{
    expense_token, expense_from_text, lemma_none_token_is_no_category, spec_expense_field_token,
    spec_expense_lenient, spec_expense_token, ExpenseType, MoneyType, Record,
};
use crate::text::{is_space, spec_trim, str_eq, trim};

verus! {

/// The validated content of the four input fields.
#[derive(Debug, Clone, Copy, PartialEq, Eq, Structural)]
pub struct ValidInput {
    /// The amount, in cents.
    pub amount: i64,
    pub money_type: MoneyType,
    pub expense: Option<ExpenseType>,
    pub time: Date,
}

/// What validating the four raw field texts yields.
///
/// The amount must be a decimal number (trimmed), the direction exactly
/// `+` or `-` (trimmed), the date a `DD.MM.YYYY` day. The category text
/// (trimmed) is lenient: any text that is not a category token counts
/// as "no category", and a category is accepted whatever the direction.
pub open spec fn spec_validate(
    amount: Seq<char>,
    money_type: Seq<char>,
    expense: Seq<char>,
    time: Seq<char>,
) -> Option<ValidInput> {
    match spec_parse_amount(spec_trim(amount)) {
        None => None,
        Some(cents) => {
            let mt = spec_trim(money_type);
            if mt != "+"@ && mt != "-"@ {
                None
            } else {
                let direction = if mt == "+"@ {
                    MoneyType::INCOME
                } else {
                    MoneyType::EXPENSE
                };
                match spec_parse_date(time) {
                    None => None,
                    Some(day) => Some(
                        ValidInput {
                            amount: cents,
                            money_type: direction,
                            expense: spec_expense_lenient(spec_trim(expense)),
                            time: day,
                        },
                    ),
                }
            }
        },
    }
}

/// Validates the four input fields, in the order amount, direction,
/// category, date.
pub fn validate_input(input: &Vec<String>) -> (r: Option<ValidInput>)
    requires
        input@.len() == 4,
    ensures
        r == spec_validate(input@[0]@, input@[1]@, input@[2]@, input@[3]@),
        r is Some ==> amount_ok(r->0.amount as int) && r->0.time.wf(),
{
    let cents = match parse_amount(trim(input[0].as_str())) {
        Some(c) => c,
        None => {
            return None;
        },
    };
    proof {
        crate::amount::lemma_parse_amount_ok(spec_trim(input@[0]@));
    }
    let sign = trim(input[1].as_str());
    let direction = if str_eq(sign, "+") {
        MoneyType::INCOME
    } else if str_eq(sign, "-") {
        MoneyType::EXPENSE
    } else {
        return None;
    };
    let expense = expense_from_text(trim(input[2].as_str()));
    let day = match parse_date(input[3].as_str()) {
        Some(d) => d,
        None => {
            return None;
        },
    };
    Some(ValidInput { amount: cents, money_type: direction, expense, time: day })
}

/// The four edit-mode field texts of a record: the amount with two
/// decimals, the direction sign, the category token or `NONE`, and the
/// date as `DD.MM.YYYY`.
pub open spec fn spec_edit_fields(r: Record) -> Seq<Seq<char>> {
    seq![
        amount_text(r.amount as int),
        r.spec_sign(),
        spec_expense_field_token(r.expense),
        date_text(r.time),
    ]
}

/// Fills the input fields from a record, for edit mode.
pub fn record_to_edit_mode(record: &Record) -> (r: Vec<String>)
    requires
        record.wf(),
    ensures
        r@.len() == 4,
        forall|i: int| 0 <= i < 4 ==> #[trigger] r@[i]@ == spec_edit_fields(*record)[i],
{
    let amount = format_amount(record.amount);
    let money_type = match record.money_type {
        MoneyType::INCOME => String::from_str("+"),
        MoneyType::EXPENSE => String::from_str("-"),
    };
    let expense = match &record.expense {
        Some(e) => String::from_str(expense_token(e)),
        None => String::from_str("NONE"),
    };
    let time = format_date(&record.time);
    let r = vec![amount, money_type, expense, time];
    proof {
        assert(r@[0]@ == spec_edit_fields(*record)[0]);
        assert(r@[1]@ == spec_edit_fields(*record)[1]);
        assert(r@[2]@ == spec_edit_fields(*record)[2]);
        assert(r@[3]@ == spec_edit_fields(*record)[3]);
    }
    r
}

/// Text with no whitespace at either end is its own trimming.
proof fn lemma_trim_id(s: Seq<char>)
    requires
        s.len() > 0,
        !is_space(s[0]),
        !is_space(s.last()),
    ensures
        spec_trim(s) == s,
{
}

/// Round trip: the edit-mode field texts of a well-formed record
/// validate back to the record's own amount, direction, category and
/// date — everything but the id.
pub proof fn lemma_edit_mode_round_trip(r: Record)
    requires
        r.wf(),
    ensures
        spec_validate(
            amount_text(r.amount as int),
            r.spec_sign(),
            spec_expense_field_token(r.expense),
            date_text(r.time),
        ) == Some(
            ValidInput {
                amount: r.amount,
                money_type: r.money_type,
                expense: r.expense,
                time: r.time,
            },
        ),
{
    reveal_strlit("+");
    reveal_strlit("-");
    reveal_strlit("NONE");
    reveal_strlit("FUN");
    reveal_strlit("RESTAURANT");
    reveal_strlit("SHOPPING");
    reveal_strlit("INVESTMENT");
    reveal_strlit("FREETIME");
    reveal_strlit("HOME");
    reveal_strlit("CLOTH");
    reveal_strlit("CAR");
    reveal_strlit("TRAVEL");
    reveal_strlit("OTHER");
    // The amount text has a sign or digit first and a digit last, so
    // trimming leaves it alone, and parsing undoes formatting.
    let a = amount_text(r.amount as int);
    assert(spec_trim(a) == a) by {
        let c = r.amount as int;
        let mag = if c < 0 { -c } else { c };
        let digits = crate::text::dec_digits((mag / 100) as nat);
        crate::text::lemma_digits_val_dec_digits((mag / 100) as nat);
        crate::text::lemma_digit_char_val((mag % 100) % 10);
        if c < 0 {
            assert(a[0] == '-');
        } else {
            assert(a[0] == digits[0]);
            assert(crate::text::is_digit_char(digits[0]));
        }
        assert(a.last() == crate::text::digit_char((mag % 100) % 10));
        lemma_trim_id(a);
    }
    lemma_amount_round_trip(r.amount as int);
    // The sign is one non-space character either way, and the two signs
    // differ.
    assert(spec_trim(r.spec_sign()) == r.spec_sign()) by {
        lemma_trim_id("+"@);
        lemma_trim_id("-"@);
    }
    assert("+"@ != "-"@);
    // The category token trims to itself and scans back to the same
    // category; `NONE` scans to no category.
    let tok = spec_expense_field_token(r.expense);
    assert(spec_trim(tok) == tok) by {
        match r.expense {
            Some(e) => {
                match e {
                    ExpenseType::FUN => lemma_trim_id("FUN"@),
                    ExpenseType::RESTAURANT => lemma_trim_id("RESTAURANT"@),
                    ExpenseType::SHOPPING => lemma_trim_id("SHOPPING"@),
                    ExpenseType::INVESTMENT => lemma_trim_id("INVESTMENT"@),
                    ExpenseType::FREETIME => lemma_trim_id("FREETIME"@),
                    ExpenseType::HOME => lemma_trim_id("HOME"@),
                    ExpenseType::CLOTH => lemma_trim_id("CLOTH"@),
                    ExpenseType::CAR => lemma_trim_id("CAR"@),
                    ExpenseType::TRAVEL => lemma_trim_id("TRAVEL"@),
                    ExpenseType::OTHER => lemma_trim_id("OTHER"@),
                }
            },
            None => lemma_trim_id("NONE"@),
        }
    }
    assert(spec_expense_lenient(tok) == r.expense) by {
        match r.expense {
            Some(e) => {
                assert(spec_expense_lenient(spec_expense_token(e)) == Some(e));
            },
            None => {
                lemma_none_token_is_no_category();
            },
        }
    }
    // The date text parses back to the date.
    lemma_date_round_trip(r.time);
}

} // verus!
