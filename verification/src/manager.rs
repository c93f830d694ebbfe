//! The in-memory record collection and its aggregates: balance,
//! per-direction totals, per-category totals, range queries.

use vstd::prelude::*;
use crate::amount::AMOUNT_LIMIT;
use crate::date::Date;
use crate::record::{expense_at, expense_index, ExpenseType, MoneyType, Record};

verus! {

/// Every record of the sequence is well-formed.
pub open spec fn wf_records(s: Seq<Record>) -> bool {
    forall|i: int| 0 <= i < s.len() ==> (#[trigger] s[i]).wf()
}

/// What a record contributes to the balance: income counts positive,
/// expense negative.
pub open spec fn signed_amount(r: Record) -> int {
    match r.money_type {
        MoneyType::INCOME => r.amount as int,
        MoneyType::EXPENSE => -(r.amount as int),
    }
}

/// The balance of a record sequence: the signed sum of all amounts.
pub open spec fn spec_balance(s: Seq<Record>) -> int
    decreases s.len(),
{
    if s.len() == 0 {
        0
    } else {
        spec_balance(s.drop_last()) + signed_amount(s.last())
    }
}

/// The sum of amounts over income records.
pub open spec fn spec_income(s: Seq<Record>) -> int
    decreases s.len(),
{
    if s.len() == 0 {
        0
    } else {
        spec_income(s.drop_last()) + if s.last().money_type is INCOME {
            s.last().amount as int
        } else {
            0
        }
    }
}

/// The sum of amounts over expense records.
pub open spec fn spec_expenses(s: Seq<Record>) -> int
    decreases s.len(),
{
    if s.len() == 0 {
        0
    } else {
        spec_expenses(s.drop_last()) + if s.last().money_type is EXPENSE {
            s.last().amount as int
        } else {
            0
        }
    }
}

/// The sum of amounts over expense records of one category.
pub open spec fn spec_category_total(s: Seq<Record>, e: ExpenseType) -> int
    decreases s.len(),
{
    if s.len() == 0 {
        0
    } else {
        spec_category_total(s.drop_last(), e) + if s.last().money_type is EXPENSE
            && s.last().expense == Some(e) {
            s.last().amount as int
        } else {
            0
        }
    }
}

/// The sum of amounts over expense records that carry any category.
pub open spec fn spec_categorized_expenses(s: Seq<Record>) -> int
    decreases s.len(),
{
    if s.len() == 0 {
        0
    } else {
        spec_categorized_expenses(s.drop_last()) + if s.last().money_type is EXPENSE
            && s.last().expense is Some {
            s.last().amount as int
        } else {
            0
        }
    }
}

/// The records whose date falls inclusively between `from` and `to`,
/// in their underlying order.
pub open spec fn spec_between(s: Seq<Record>, from: Date, to: Date) -> Seq<Record>
    decreases s.len(),
{
    if s.len() == 0 {
        s
    } else {
        let head = spec_between(s.drop_last(), from, to);
        if from.spec_le(s.last().time) && s.last().time.spec_le(to) {
            head.push(s.last())
        } else {
            head
        }
    }
}

/// The sum of the category totals over the first `k` categories.
pub open spec fn sum_category_totals(s: Seq<Record>, k: int) -> int
    decreases k,
{
    if k <= 0 {
        0
    } else {
        sum_category_totals(s, k - 1) + spec_category_total(s, expense_at(k - 1))
    }
}

/// Appending one record moves the balance by exactly that record's
/// signed amount, and each directed total by its amount.
pub proof fn lemma_balance_push(s: Seq<Record>, r: Record)
    ensures
        spec_balance(s.push(r)) == spec_balance(s) + signed_amount(r),
        spec_income(s.push(r)) == spec_income(s) + if r.money_type is INCOME {
            r.amount as int
        } else {
            0
        },
        spec_expenses(s.push(r)) == spec_expenses(s) + if r.money_type is EXPENSE {
            r.amount as int
        } else {
            0
        },
{
    assert(s.push(r).drop_last() =~= s);
}

/// The balance is the income total minus the expense total.
pub proof fn lemma_balance_split(s: Seq<Record>)
    ensures
        spec_balance(s) == spec_income(s) - spec_expenses(s),
    decreases s.len(),
{
    if s.len() > 0 {
        lemma_balance_split(s.drop_last());
    }
}

/// One step of the category-total partition: the last record counts in
/// the running sum over the first `k` categories exactly when it is a
/// categorized expense whose category sits among them.
proof fn lemma_sum_category_totals_step(s: Seq<Record>, k: int)
    requires
        s.len() > 0,
        0 <= k <= 10,
    ensures
        sum_category_totals(s, k) == sum_category_totals(s.drop_last(), k) + if s.last().money_type
            is EXPENSE && s.last().expense is Some && expense_index(s.last().expense->0) < k {
            s.last().amount as int
        } else {
            0
        },
    decreases k,
{
    if k > 0 {
        lemma_sum_category_totals_step(s, k - 1);
    }
}

/// The ten category totals partition the categorized expense total:
/// summed together they give exactly the amounts of expense records
/// that carry a category.
pub proof fn lemma_category_totals_cover(s: Seq<Record>)
    ensures
        sum_category_totals(s, 10) == spec_categorized_expenses(s),
    decreases s.len(),
{
    if s.len() == 0 {
        assert forall|k: int| 0 <= k <= 10 implies sum_category_totals(s, k) == 0 by {
            lemma_sum_category_totals_zero(s, k);
        }
    } else {
        lemma_category_totals_cover(s.drop_last());
        lemma_sum_category_totals_step(s, 10);
    }
}

proof fn lemma_sum_category_totals_zero(s: Seq<Record>, k: int)
    requires
        s.len() == 0,
        0 <= k,
    ensures
        sum_category_totals(s, k) == 0,
    decreases k,
{
    if k > 0 {
        lemma_sum_category_totals_zero(s, k - 1);
    }
}

/// The position of the first record carrying the given id, if any.
pub open spec fn spec_find_index(s: Seq<Record>, id: i32) -> Option<int>
    decreases s.len(),
{
    if s.len() == 0 {
        None
    } else if s[0].id == id {
        Some(0int)
    } else {
        match spec_find_index(s.drop_first(), id) {
            Some(i) => Some(i + 1),
            None => None,
        }
    }
}

/// `spec_find_index` names exactly the first match.
proof fn lemma_find_index_is_first(s: Seq<Record>, id: i32, i: int)
    requires
        0 <= i < s.len(),
        s[i].id == id,
        forall|j: int| 0 <= j < i ==> s[j].id != id,
    ensures
        spec_find_index(s, id) == Some(i),
    decreases s.len(),
{
    if i == 0 {
    } else {
        let t = s.drop_first();
        assert(s[0].id != id);
        assert(t[i - 1].id == id);
        assert forall|j: int| 0 <= j < i - 1 implies t[j].id != id by {
            assert(t[j] == s[j + 1]);
        }
        lemma_find_index_is_first(t, id, i - 1);
    }
}

/// With no match anywhere, `spec_find_index` finds none.
proof fn lemma_find_index_none(s: Seq<Record>, id: i32)
    requires
        forall|j: int| 0 <= j < s.len() ==> s[j].id != id,
    ensures
        spec_find_index(s, id) is None,
    decreases s.len(),
{
    if s.len() > 0 {
        let t = s.drop_first();
        assert forall|j: int| 0 <= j < t.len() implies t[j].id != id by {
            assert(t[j] == s[j + 1]);
        }
        lemma_find_index_none(t, id);
    }
}

/// The in-memory collection of records, rebuilt wholesale from storage
/// and queried read-only for aggregates.
#[derive(Debug)]
pub struct RecordManager {
    records: Vec<Record>,
}

impl View for RecordManager {
    type V = Seq<Record>;

    closed spec fn view(&self) -> Seq<Record> {
        self.records@
    }
}

impl RecordManager {
    /// Every held record is well-formed.
    pub open spec fn wf(self) -> bool {
        wf_records(self@)
    }

    /// An empty collection.
    pub fn new() -> (r: RecordManager)
        ensures
            r@ == Seq::<Record>::empty(),
            r.wf(),
    {
        RecordManager { records: Vec::new() }
    }

    /// Appends a record to the in-memory collection only; nothing is
    /// persisted.
    pub fn add_record(&mut self, record: Record)
        requires
            record.wf(),
            old(self).wf(),
        ensures
            final(self)@ == old(self)@.push(record),
            final(self).wf(),
    {
        self.records.push(record);
    }

    /// The first record with the given id, if any.
    pub fn get_record_id(&self, id: i32) -> (r: Option<&Record>)
        ensures
            match r {
                Some(rec) => spec_find_index(self@, id) is Some && *rec == self@[spec_find_index(
                    self@,
                    id,
                )->0],
                None => spec_find_index(self@, id) is None,
            },
    {
        let mut i: usize = 0;
        let n = self.records.len();
        while i < n
            invariant
                i <= n,
                n == self@.len(),
                forall|j: int| 0 <= j < i ==> #[trigger] self@[j].id != id,
            decreases n - i,
        {
            if self.records[i].id == id {
                proof {
                    lemma_find_index_is_first(self@, id, i as int);
                }
                return Some(&self.records[i]);
            }
            i = i + 1;
        }
        proof {
            lemma_find_index_none(self@, id);
        }
        None
    }

    /// A full copy of the records, safe for the caller to mutate.
    pub fn get_all(&self) -> (r: Vec<Record>)
        ensures
            r@ == self@,
    {
        let mut r: Vec<Record> = Vec::new();
        let mut i: usize = 0;
        let n = self.records.len();
        while i < n
            invariant
                i <= n,
                n == self@.len(),
                r@ == self@.take(i as int),
            decreases n - i,
        {
            r.push(self.records[i]);
            proof {
                assert(self@.take(i + 1).drop_last() =~= self@.take(i as int));
                assert(r@ =~= self@.take(i + 1));
            }
            i = i + 1;
        }
        proof {
            assert(self@.take(n as int) =~= self@);
        }
        r
    }

    /// The display lines of all records, in order.
    pub fn format_all(&self) -> (r: Vec<String>)
        requires
            self.wf(),
        ensures
            r@.len() == self@.len(),
            forall|i: int| 0 <= i < self@.len() ==> #[trigger] r@[i]@ == self@[i].spec_format(),
    {
        let mut r: Vec<String> = Vec::new();
        let mut i: usize = 0;
        let n = self.records.len();
        while i < n
            invariant
                i <= n,
                n == self@.len(),
                self.wf(),
                r@.len() == i,
                forall|j: int| 0 <= j < i ==> #[trigger] r@[j]@ == self@[j].spec_format(),
            decreases n - i,
        {
            let line = self.records[i].format_record();
            r.push(line);
            i = i + 1;
        }
        r
    }

    /// The balance: the signed sum of all amounts, in cents.
    pub fn get_balance(&self) -> (r: i128)
        requires
            self.wf(),
        ensures
            r == spec_balance(self@),
    {
        let mut acc: i128 = 0;
        let mut i: usize = 0;
        let n = self.records.len();
        while i < n
            invariant
                i <= n,
                n == self@.len(),
                self.wf(),
                acc == spec_balance(self@.take(i as int)),
                -(i as int * AMOUNT_LIMIT as int) <= acc <= i as int * AMOUNT_LIMIT as int,
            decreases n - i,
        {
            let rec = self.records[i];
            proof {
                assert(self@.take(i + 1).drop_last() =~= self@.take(i as int));
                assert(self@.take(i + 1).last() == self@[i as int]);
                assert(self@[i as int].wf());
            }
            match rec.money_type {
                MoneyType::INCOME => {
                    acc = acc + rec.amount as i128;
                },
                MoneyType::EXPENSE => {
                    acc = acc - rec.amount as i128;
                },
            }
            i = i + 1;
        }
        proof {
            assert(self@.take(n as int) =~= self@);
        }
        acc
    }

    /// The sum of amounts over expense records, in cents.
    pub fn get_expanses(&self) -> (r: i128)
        requires
            self.wf(),
        ensures
            r == spec_expenses(self@),
    {
        let mut acc: i128 = 0;
        let mut i: usize = 0;
        let n = self.records.len();
        while i < n
            invariant
                i <= n,
                n == self@.len(),
                self.wf(),
                acc == spec_expenses(self@.take(i as int)),
                -(i as int * AMOUNT_LIMIT as int) <= acc <= i as int * AMOUNT_LIMIT as int,
            decreases n - i,
        {
            let rec = self.records[i];
            proof {
                assert(self@.take(i + 1).drop_last() =~= self@.take(i as int));
                assert(self@.take(i + 1).last() == self@[i as int]);
                assert(self@[i as int].wf());
            }
            match rec.money_type {
                MoneyType::EXPENSE => {
                    acc = acc + rec.amount as i128;
                },
                MoneyType::INCOME => {},
            }
            i = i + 1;
        }
        proof {
            assert(self@.take(n as int) =~= self@);
        }
        acc
    }

    /// The sum of amounts over income records, in cents.
    pub fn get_income(&self) -> (r: i128)
        requires
            self.wf(),
        ensures
            r == spec_income(self@),
    {
        let mut acc: i128 = 0;
        let mut i: usize = 0;
        let n = self.records.len();
        while i < n
            invariant
                i <= n,
                n == self@.len(),
                self.wf(),
                acc == spec_income(self@.take(i as int)),
                -(i as int * AMOUNT_LIMIT as int) <= acc <= i as int * AMOUNT_LIMIT as int,
            decreases n - i,
        {
            let rec = self.records[i];
            proof {
                assert(self@.take(i + 1).drop_last() =~= self@.take(i as int));
                assert(self@.take(i + 1).last() == self@[i as int]);
                assert(self@[i as int].wf());
            }
            match rec.money_type {
                MoneyType::INCOME => {
                    acc = acc + rec.amount as i128;
                },
                MoneyType::EXPENSE => {},
            }
            i = i + 1;
        }
        proof {
            assert(self@.take(n as int) =~= self@);
        }
        acc
    }

    /// The sum of amounts over expense records of one category, in
    /// cents.
    pub fn category_total(&self, e: ExpenseType) -> (r: i128)
        requires
            self.wf(),
        ensures
            r == spec_category_total(self@, e),
    {
        let mut acc: i128 = 0;
        let mut i: usize = 0;
        let n = self.records.len();
        while i < n
            invariant
                i <= n,
                n == self@.len(),
                self.wf(),
                acc == spec_category_total(self@.take(i as int), e),
                -(i as int * AMOUNT_LIMIT as int) <= acc <= i as int * AMOUNT_LIMIT as int,
            decreases n - i,
        {
            let rec = self.records[i];
            proof {
                assert(self@.take(i + 1).drop_last() =~= self@.take(i as int));
                assert(self@.take(i + 1).last() == self@[i as int]);
                assert(self@[i as int].wf());
            }
            let matches_category = match (rec.money_type, &rec.expense) {
                (MoneyType::EXPENSE, Some(c)) => *c == e,
                _ => false,
            };
            if matches_category {
                acc = acc + rec.amount as i128;
            }
            i = i + 1;
        }
        proof {
            assert(self@.take(n as int) =~= self@);
        }
        acc
    }

    /// The records dated inclusively between `from` and `to`, in their
    /// underlying order.
    pub fn records_between(&self, from: Date, to: Date) -> (r: Vec<Record>)
        ensures
            r@ == spec_between(self@, from, to),
    {
        let mut r: Vec<Record> = Vec::new();
        let mut i: usize = 0;
        let n = self.records.len();
        while i < n
            invariant
                i <= n,
                n == self@.len(),
                r@ == spec_between(self@.take(i as int), from, to),
            decreases n - i,
        {
            let rec = self.records[i];
            proof {
                assert(self@.take(i + 1).drop_last() =~= self@.take(i as int));
                assert(self@.take(i + 1).last() == self@[i as int]);
            }
            if from.le(&rec.time) && rec.time.le(&to) {
                r.push(rec);
            }
            i = i + 1;
        }
        proof {
            assert(self@.take(n as int) =~= self@);
        }
        r
    }

    /// The per-category expense totals: one entry for each of the ten
    /// categories, in the fixed category order, every category present
    /// even when its total is zero.
    pub fn categories_to_hash(&self) -> (r: Vec<(ExpenseType, i128)>)
        requires
            self.wf(),
        ensures
            r@.len() == 10,
            forall|k: int|
                0 <= k < 10 ==> (#[trigger] r@[k]).0 == expense_at(k) && r@[k].1
                    == spec_category_total(self@, expense_at(k)),
    {
        let mut r: Vec<(ExpenseType, i128)> = Vec::new();
        let mut k: usize = 0;
        while k < 10
            invariant
                k <= 10,
                self.wf(),
                r@.len() == k,
                forall|j: int|
                    0 <= j < k ==> (#[trigger] r@[j]).0 == expense_at(j) && r@[j].1
                        == spec_category_total(self@, expense_at(j)),
            decreases 10 - k,
        {
            let e = expense_at_position(k);
            let total = self.category_total(e);
            r.push((e, total));
            k = k + 1;
        }
        r
    }
}

/// The category at a position in the fixed category order.
pub fn expense_at_position(k: usize) -> (r: ExpenseType)
    requires
        k < 10,
    ensures
        r == expense_at(k as int),
{
    match k {
        0 => ExpenseType::FUN,
        1 => ExpenseType::RESTAURANT,
        2 => ExpenseType::SHOPPING,
        3 => ExpenseType::INVESTMENT,
        4 => ExpenseType::FREETIME,
        5 => ExpenseType::HOME,
        6 => ExpenseType::CLOTH,
        7 => ExpenseType::CAR,
        8 => ExpenseType::TRAVEL,
        _ => ExpenseType::OTHER,
    }
}

} // verus!
