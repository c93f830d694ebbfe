//! The numbers behind the charts: per-category percentages for the pie
//! chart, the balance over time for the line chart, and the x-axis
//! labels.

use vstd::prelude::*;
use crate::app::RecordLister;
use crate::amount::AMOUNT_LIMIT;
use crate::date::{date_text, format_date, Date};
use crate::manager::{spec_balance, spec_category_total, wf_records};
use crate::record::{expense_at, spec_expense_display, Record};

verus! {

/// A non-negative total, in whole units, clamped into `u64`: what the
/// pie chart can show of a category total in cents.
pub open spec fn spec_pie_value(cents: int) -> u64 {
    if cents < 0 {
        0u64
    } else if cents / 100 > u64::MAX {
        u64::MAX
    } else {
        (cents / 100) as u64
    }
}

/// The pie-chart data: for each of the ten categories, in the fixed
/// category order, its display name and its expense total in whole
/// units.
pub fn percentage_for_pie(record_lister: &RecordLister) -> (r: Vec<(&'static str, u64)>)
    requires
        record_lister.wf(),
    ensures
        r@.len() == 10,
        forall|k: int|
            0 <= k < 10 ==> (#[trigger] r@[k]).0@ == spec_expense_display(expense_at(k)) && r@[k].1
                == spec_pie_value(spec_category_total(record_lister.record_manager@, expense_at(k))),
{
    let totals = record_lister.record_manager.categories_to_hash();
    let mut r: Vec<(&'static str, u64)> = Vec::new();
    let mut k: usize = 0;
    while k < 10
        invariant
            k <= 10,
            totals@.len() == 10,
            forall|j: int|
                0 <= j < 10 ==> (#[trigger] totals@[j]).0 == expense_at(j) && totals@[j].1
                    == spec_category_total(record_lister.record_manager@, expense_at(j)),
            r@.len() == k,
            forall|j: int|
                0 <= j < k ==> (#[trigger] r@[j]).0@ == spec_expense_display(expense_at(j))
                    && r@[j].1 == spec_pie_value(
                    spec_category_total(record_lister.record_manager@, expense_at(j)),
                ),
        decreases 10 - k,
    {
        let (category, cents) = totals[k];
        let value: u64 = if cents < 0 {
            0
        } else {
            let units = cents / 100;
            if units > u64::MAX as i128 {
                u64::MAX
            } else {
                units as u64
            }
        };
        r.push((crate::record::expense_display(&category), value));
        k = k + 1;
    }
    r
}

/// One day's entry replaced or inserted, keeping the entries ordered by
/// date: the upsert that builds the balance-over-time series.
pub open spec fn spec_upsert(es: Seq<(Date, i128)>, d: Date, v: i128) -> Seq<(Date, i128)>
    decreases es.len(),
{
    if es.len() == 0 {
        seq![(d, v)]
    } else if d.spec_lt(es[0].0) {
        seq![(d, v)] + es
    } else if d == es[0].0 {
        seq![(d, v)] + es.drop_first()
    } else {
        seq![es[0]] + spec_upsert(es.drop_first(), d, v)
    }
}

/// Where an upsert lands: with `pos` the first position whose date is
/// not before `d`, the entry either replaces the equal-dated one there
/// or is inserted there.
proof fn lemma_upsert_at(es: Seq<(Date, i128)>, d: Date, v: i128, pos: int)
    requires
        0 <= pos <= es.len(),
        forall|j: int| 0 <= j < pos ==> (#[trigger] es[j]).0.spec_lt(d),
        pos < es.len() ==> d.spec_le(es[pos].0),
    ensures
        spec_upsert(es, d, v) == if pos < es.len() && es[pos].0 == d {
            es.take(pos) + seq![(d, v)] + es.skip(pos + 1)
        } else {
            es.take(pos) + seq![(d, v)] + es.skip(pos)
        },
    decreases es.len(),
{
    if es.len() == 0 {
        assert(spec_upsert(es, d, v) =~= es.take(pos) + seq![(d, v)] + es.skip(pos));
    } else if pos == 0 {
        if es[0].0 == d {
            assert(!d.spec_lt(es[0].0));
            assert(spec_upsert(es, d, v) =~= es.take(0) + seq![(d, v)] + es.skip(1));
        } else {
            assert(d.spec_lt(es[0].0));
            assert(spec_upsert(es, d, v) =~= es.take(0) + seq![(d, v)] + es.skip(0));
        }
    } else {
        assert(es[0].0.spec_lt(d));
        assert(!d.spec_lt(es[0].0));
        assert(es[0].0 != d);
        let t = es.drop_first();
        assert forall|j: int| 0 <= j < pos - 1 implies (#[trigger] t[j]).0.spec_lt(d) by {
            assert(t[j] == es[j + 1]);
        }
        if pos - 1 < t.len() {
            assert(t[pos - 1] == es[pos]);
        }
        lemma_upsert_at(t, d, v, pos - 1);
        if pos < es.len() && es[pos].0 == d {
            assert(seq![es[0]] + (t.take(pos - 1) + seq![(d, v)] + t.skip(pos)) =~= es.take(pos)
                + seq![(d, v)] + es.skip(pos + 1));
        } else {
            assert(seq![es[0]] + (t.take(pos - 1) + seq![(d, v)] + t.skip(pos - 1)) =~= es.take(pos)
                + seq![(d, v)] + es.skip(pos));
        }
    }
}

/// The entries are strictly ordered by date.
pub open spec fn sorted_by_date(es: Seq<(Date, i128)>) -> bool {
    forall|p: int, q: int|
        0 <= p < q < es.len() ==> (#[trigger] es[p]).0.spec_lt((#[trigger] es[q]).0)
}

/// The balance-over-time series: one entry per day that carries a
/// record, in ascending date order. A day's value is the running
/// balance after the last record (in storage order) dated that day.
pub open spec fn spec_day_entries(s: Seq<Record>) -> Seq<(Date, i128)>
    decreases s.len(),
{
    if s.len() == 0 {
        Seq::<(Date, i128)>::empty()
    } else {
        spec_upsert(spec_day_entries(s.drop_last()), s.last().time, spec_balance(s) as i128)
    }
}

/// The balance-over-time data for the line chart, in cents per day.
pub fn data_for_time_graph(record_lister: &RecordLister) -> (r: Vec<(Date, i128)>)
    requires
        record_lister.wf(),
    ensures
        r@ == spec_day_entries(record_lister.record_manager@),
        sorted_by_date(r@),
        forall|k: int|
            0 <= k < r@.len() ==> exists|i: int|
                0 <= i < record_lister.record_manager@.len() && (#[trigger] r@[k]).0
                    == record_lister.record_manager@[i].time,
{
    let s = record_lister.record_manager.get_all();
    let ghost records = record_lister.record_manager@;
    let n = s.len();
    let mut r: Vec<(Date, i128)> = Vec::new();
    let mut balance: i128 = 0;
    let mut i: usize = 0;
    while i < n
        invariant
            i <= n,
            n == records.len(),
            s@ == records,
            wf_records(records),
            balance == spec_balance(records.take(i as int)),
            -(i as int * AMOUNT_LIMIT as int) <= balance <= i as int * AMOUNT_LIMIT as int,
            r@ == spec_day_entries(records.take(i as int)),
            sorted_by_date(r@),
            forall|k: int|
                0 <= k < r@.len() ==> exists|j: int|
                    0 <= j < i && (#[trigger] r@[k]).0 == records[j].time,
        decreases n - i,
    {
        let rec = s[i];
        proof {
            assert(records.take(i + 1).drop_last() =~= records.take(i as int));
            assert(records.take(i + 1).last() == records[i as int]);
            assert(records[i as int].wf());
        }
        match rec.money_type {
            crate::record::MoneyType::INCOME => {
                balance = balance + rec.amount as i128;
            },
            crate::record::MoneyType::EXPENSE => {
                balance = balance - rec.amount as i128;
            },
        }
        let d = rec.time;
        // Find the first entry whose date is not before `d`.
        let mut pos: usize = 0;
        while pos < r.len() && r[pos].0.lt(&d)
            invariant
                pos <= r@.len(),
                forall|j: int| 0 <= j < pos ==> (#[trigger] r@[j]).0.spec_lt(d),
            decreases r@.len() - pos,
        {
            pos = pos + 1;
        }
        proof {
            if pos < r@.len() {
                crate::date::lemma_date_order_total(d, r@[pos as int].0);
            }
            lemma_upsert_at(r@, d, balance, pos as int);
        }
        let ghost before = r@;
        if pos < r.len() && r[pos].0 == d {
            r.remove(pos);
            r.insert(pos, (d, balance));
            proof {
                assert(r@ =~= before.take(pos as int) + seq![(d, balance)] + before.skip(
                    pos as int + 1,
                ));
            }
        } else {
            r.insert(pos, (d, balance));
            proof {
                assert(r@ =~= before.take(pos as int) + seq![(d, balance)] + before.skip(
                    pos as int,
                ));
            }
        }
        proof {
            assert(r@ == spec_day_entries(records.take(i + 1)));
            assert forall|p: int, q: int| 0 <= p < q < r@.len() implies (#[trigger] r@[p]).0
                .spec_lt((#[trigger] r@[q]).0) by {
                let posi = pos as int;
                if p < posi && q == posi {
                    assert(r@[p] == before[p]);
                    assert(before[p].0.spec_lt(d));
                } else if p == posi && q > posi {
                    if posi < before.len() && before[posi].0 == d {
                        assert(r@[q] == before[q]);
                        assert(d.spec_le(before[posi].0));
                        assert(before[posi].0.spec_lt(before[q].0));
                    } else {
                        assert(r@[q] == before[q - 1]);
                        if posi < before.len() {
                            assert(d.spec_le(before[posi].0));
                            if q - 1 > posi {
                                assert(before[posi].0.spec_lt(before[q - 1].0));
                            }
                            assert(before[posi].0 != d);
                        }
                    }
                } else if p < posi && q > posi {
                    if posi < before.len() && before[posi].0 == d {
                        assert(r@[p] == before[p] && r@[q] == before[q]);
                    } else {
                        assert(r@[p] == before[p] && r@[q] == before[q - 1]);
                        if p < q - 1 {
                        } else {
                            assert(p == posi - 1 && q == posi + 1);
                            assert(before[p].0.spec_lt(d));
                            assert(d.spec_le(before[posi].0));
                        }
                    }
                } else if p < posi && q < posi {
                    assert(r@[p] == before[p] && r@[q] == before[q]);
                } else {
                    // both past the upsert position
                    if posi < before.len() && before[posi].0 == d {
                        assert(r@[p] == before[p] && r@[q] == before[q]);
                    } else {
                        assert(r@[p] == before[p - 1] && r@[q] == before[q - 1]);
                    }
                }
            }
            assert forall|k: int| 0 <= k < r@.len() implies exists|j: int|
                0 <= j < i + 1 && (#[trigger] r@[k]).0 == records[j].time by {
                let posi = pos as int;
                if k == posi {
                    assert(r@[k].0 == records[i as int].time);
                } else if k < posi {
                    assert(r@[k] == before[k]);
                } else {
                    if posi < before.len() && before[posi].0 == d {
                        assert(r@[k] == before[k]);
                    } else {
                        assert(r@[k] == before[k - 1]);
                    }
                }
            }
        }
        i = i + 1;
    }
    proof {
        assert(records.take(n as int) =~= records);
    }
    r
}

/// The dates that carry records, ascending and without duplicates: the
/// dates of the balance-over-time series.
pub open spec fn spec_chart_dates(s: Seq<Record>) -> Seq<Date> {
    spec_day_entries(s).map_values(|e: (Date, i128)| e.0)
}

/// Every `step`-th date from position `i` on.
pub open spec fn spec_walk(ds: Seq<Date>, step: int, i: int) -> Seq<Date>
    decreases ds.len() - i,
{
    if 0 <= i < ds.len() && step >= 1 {
        if i + step < ds.len() {
            seq![ds[i]] + spec_walk(ds, step, i + step)
        } else {
            seq![ds[i]]
        }
    } else {
        Seq::<Date>::empty()
    }
}

/// Which dates label the x axis: all of them when they fit the label
/// budget, otherwise every `step`-th one with the last date appended
/// when the walk missed it.
pub open spec fn spec_x_label_dates(ds: Seq<Date>, label_count: int) -> Seq<Date> {
    if ds.len() == 0 {
        Seq::<Date>::empty()
    } else if ds.len() <= label_count {
        ds
    } else {
        let cap = if label_count >= 1 {
            label_count
        } else {
            1
        };
        let step0 = ds.len() as int / cap;
        let step = if step0 >= 1 {
            step0
        } else {
            1
        };
        let w = spec_walk(ds, step, 0);
        if w.len() > 0 && w.last() == ds.last() {
            w
        } else {
            w.push(ds.last())
        }
    }
}

/// The x-axis labels for the balance chart: the chosen dates, each as
/// its `DD.MM.YYYY` text.
pub fn generate_x_labels(record_lister: &RecordLister, label_count: usize) -> (r: Vec<String>)
    requires
        record_lister.wf(),
    ensures
        ({
            let picked = spec_x_label_dates(
                spec_chart_dates(record_lister.record_manager@),
                label_count as int,
            );
            r@.len() == picked.len() && forall|k: int|
                0 <= k < picked.len() ==> (#[trigger] r@[k])@ == date_text(picked[k])
        }),
{
    let ghost records = record_lister.record_manager@;
    let entries = data_for_time_graph(record_lister);
    let mut dates: Vec<Date> = Vec::new();
    let mut i: usize = 0;
    let n = entries.len();
    while i < n
        invariant
            i <= n,
            n == entries@.len(),
            entries@ == spec_day_entries(records),
            dates@ =~= spec_chart_dates(records).take(i as int),
        decreases n - i,
    {
        dates.push(entries[i].0);
        proof {
            assert(dates@ =~= spec_chart_dates(records).take(i + 1));
        }
        i = i + 1;
    }
    proof {
        assert(spec_chart_dates(records).take(n as int) =~= spec_chart_dates(records));
    }
    let ghost ds = spec_chart_dates(records);
    proof {
        assert forall|k: int| 0 <= k < ds.len() implies (#[trigger] ds[k]).wf() by {
            assert(ds[k] == spec_day_entries(records)[k].0);
            let j = choose|j: int|
                0 <= j < records.len() && spec_day_entries(records)[k].0 == records[j].time;
            assert(records[j].wf());
        }
    }
    let len = dates.len();
    if len == 0 {
        return Vec::new();
    }
    if len <= label_count {
        let mut out: Vec<String> = Vec::new();
        let mut k: usize = 0;
        while k < len
            invariant
                k <= len,
                len == dates@.len(),
                dates@ == ds,
                forall|j: int| 0 <= j < ds.len() ==> (#[trigger] ds[j]).wf(),
                out@.len() == k,
                forall|j: int| 0 <= j < k ==> (#[trigger] out@[j])@ == date_text(ds[j]),
            decreases len - k,
        {
            let line = format_date(&dates[k]);
            out.push(line);
            k = k + 1;
        }
        return out;
    }
    let cap: usize = if label_count >= 1 {
        label_count
    } else {
        1
    };
    let step0 = len / cap;
    let step: usize = if step0 >= 1 {
        step0
    } else {
        1
    };
    let mut out: Vec<String> = Vec::new();
    let ghost mut taken: Seq<Date> = Seq::<Date>::empty();
    let mut counter: usize = 0;
    let mut last_pushed = dates[0];
    while counter < len
        invariant
            len == dates@.len(),
            dates@ == ds,
            len > 0,
            step >= 1,
            forall|j: int| 0 <= j < ds.len() ==> (#[trigger] ds[j]).wf(),
            out@.len() == taken.len(),
            forall|j: int| 0 <= j < taken.len() ==> (#[trigger] out@[j])@ == date_text(taken[j]),
            spec_walk(ds, step as int, 0) =~= taken + spec_walk(ds, step as int, counter as int),
            counter > 0 ==> taken.len() > 0 && taken.last() == last_pushed,
            counter == 0 ==> taken.len() == 0,
        decreases len - counter,
    {
        let d = dates[counter];
        let line = format_date(&d);
        out.push(line);
        last_pushed = d;
        proof {
            taken = taken.push(d);
            if counter + step < len {
                assert(spec_walk(ds, step as int, counter as int) =~= seq![ds[counter as int]]
                    + spec_walk(ds, step as int, counter as int + step as int));
            } else {
                assert(spec_walk(ds, step as int, counter as int) =~= seq![ds[counter as int]]);
                assert(spec_walk(ds, step as int, counter as int + step as int)
                    =~= Seq::<Date>::empty());
            }
            assert(spec_walk(ds, step as int, 0) =~= taken + spec_walk(
                ds,
                step as int,
                counter as int + step as int,
            ));
        }
        if step < len - counter {
            counter = counter + step;
        } else {
            proof {
                assert(spec_walk(ds, step as int, counter as int + step as int)
                    =~= Seq::<Date>::empty());
                assert(spec_walk(ds, step as int, len as int) =~= Seq::<Date>::empty());
            }
            counter = len;
        }
    }
    proof {
        assert(spec_walk(ds, step as int, counter as int) =~= Seq::<Date>::empty());
        assert(taken =~= spec_walk(ds, step as int, 0));
        assert(taken.len() > 0);
    }
    let last_date = dates[len - 1];
    if !(last_pushed == last_date) {
        let line = format_date(&last_date);
        out.push(line);
        proof {
            taken = taken.push(last_date);
        }
    }
    proof {
        let picked = spec_x_label_dates(ds, label_count as int);
        assert(picked =~= taken);
    }
    out
}

} // verus!
