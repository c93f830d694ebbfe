//! Monetary amounts as integer cents, with the two-decimal text form
//! used on screen and in the input fields.

use vstd::prelude::*;
use crate::text::{
    all_digits, dec_digits, digit_char, digit_val, digit_str, digits_val, is_digit_char,
    lemma_digit_char_val, lemma_digits_val_dec_digits, lemma_digits_val_nonneg, u64_text,
};

verus! {

/// The largest magnitude an amount may have, in cents.
///
/// Amounts are bounded so that sums over arbitrarily many records fit in
/// the 128-bit integers the aggregation functions return.
pub const AMOUNT_LIMIT: i64 = 999_999_999_999;

/// A representable amount of money, in cents.
pub open spec fn amount_ok(c: int) -> bool {
    -AMOUNT_LIMIT <= c <= AMOUNT_LIMIT
}

/// The two-decimal text of an amount in cents: an optional minus sign,
/// the whole units without leading zeros, a dot, and exactly two
/// fraction digits.
pub open spec fn amount_text(c: int) -> Seq<char> {
    let a = if c < 0 { -c } else { c };
    let sign: Seq<char> = if c < 0 { seq!['-'] } else { Seq::<char>::empty() };
    let frac = a % 100;
    sign + dec_digits((a / 100) as nat) + seq!['.', digit_char(frac / 10), digit_char(frac % 10)]
}

/// Formats cents with two decimals, as `{:.2}` formatting would.
pub fn format_amount(c: i64) -> (r: String)
    requires
        amount_ok(c as int),
    ensures
        r@ == amount_text(c as int),
{
    proof {
        reveal_strlit("-");
        reveal_strlit(".");
    }
    let neg = c < 0;
    let a: i64 = if neg { -c } else { c };
    let mut s = if neg { String::from_str("-") } else { String::new() };
    let units = u64_text((a / 100) as u64);
    s.append(units.as_str());
    s.append(".");
    let frac = a % 100;
    s.append(digit_str((frac / 10) as u64));
    s.append(digit_str((frac % 10) as u64));
    proof {
        assert(s@ =~= amount_text(c as int));
    }
    s
}

/// The index of the first `'.'` in `s`, or `s.len()` when there is none.
pub open spec fn first_dot(s: Seq<char>) -> int
    decreases s.len(),
{
    if s.len() == 0 {
        0
    } else if s[0] == '.' {
        0
    } else {
        1 + first_dot(s.drop_first())
    }
}

pub proof fn lemma_first_dot(s: Seq<char>)
    ensures
        0 <= first_dot(s) <= s.len(),
        forall|i: int| 0 <= i < first_dot(s) ==> s[i] != '.',
        first_dot(s) < s.len() ==> s[first_dot(s)] == '.',
    decreases s.len(),
{
    if s.len() > 0 && s[0] != '.' {
        let t = s.drop_first();
        lemma_first_dot(t);
        assert forall|i: int| 0 <= i < first_dot(s) implies s[i] != '.' by {
            if i > 0 {
                assert(t[i - 1] == s[i]);
            }
        }
        if first_dot(s) < s.len() {
            assert(t[first_dot(t)] == s[first_dot(s)]);
        }
    }
}

/// The cents contributed by the fraction digits: the first two count,
/// anything further is cut off.
pub open spec fn frac_cents(f: Seq<char>) -> int {
    if f.len() == 0 {
        0
    } else if f.len() == 1 {
        digit_val(f[0]) * 10
    } else {
        digit_val(f[0]) * 10 + digit_val(f[1])
    }
}

/// What parsing an amount yields, in cents.
///
/// The accepted forms are an optional `'+'` or `'-'` sign followed by
/// decimal digits, optionally with one dot somewhere among them; at
/// least one digit must be present. Values beyond `AMOUNT_LIMIT` cents
/// in magnitude are rejected.
pub open spec fn spec_parse_amount(s: Seq<char>) -> Option<i64> {
    if s.len() == 0 {
        None
    } else {
        let neg = s[0] == '-';
        let t = if s[0] == '-' || s[0] == '+' { s.drop_first() } else { s };
        let dot = first_dot(t);
        let whole = t.take(dot);
        let frac = if dot < t.len() { t.skip(dot + 1) } else { Seq::<char>::empty() };
        if all_digits(whole) && all_digits(frac) && whole.len() + frac.len() >= 1 {
            let m = digits_val(whole) * 100 + frac_cents(frac);
            if m > AMOUNT_LIMIT {
                None
            } else if neg {
                Some((-m) as i64)
            } else {
                Some(m as i64)
            }
        } else {
            None
        }
    }
}

/// The largest whole-unit value an amount may have.
const UNIT_CAP: i64 = 9_999_999_999;

/// Parses a decimal amount into cents.
#[verifier::loop_isolation(false)]
pub fn parse_amount(s: &str) -> (r: Option<i64>)
    ensures
        r == spec_parse_amount(s@),
{
    let len = s.unicode_len();
    if len == 0 {
        return None;
    }
    let first = s.get_char(0);
    let neg = first == '-';
    let start: usize = if first == '-' || first == '+' { 1 } else { 0 };
    let ghost t = if first == '-' || first == '+' { s@.drop_first() } else { s@ };
    proof {
        lemma_first_dot(t);
    }
    let ghost dot_g = first_dot(t);
    let ghost whole_g = t.take(dot_g);
    // Scan the whole-unit digits up to the dot, if any.
    let mut i: usize = start;
    let mut acc: i64 = 0;
    let mut over = false;
    while i < len && s.get_char(i) != '.'
        invariant
            start <= i <= len,
            len == s@.len(),
            t =~= (if start == 1 { s@.drop_first() } else { s@ }),
            start == 0 || start == 1,
            all_digits(t.take(i - start)),
            i - start <= first_dot(t),
            !over ==> 0 <= acc <= UNIT_CAP && acc == digits_val(t.take(i - start)),
            over ==> digits_val(t.take(i - start)) > UNIT_CAP,
        decreases len - i,
    {
        let c = s.get_char(i);
        proof {
            assert(t[i - start] == s@[i as int]);
            assert(t.take(i - start + 1).drop_last() =~= t.take(i - start));
            assert(t.take(i - start + 1).last() == t[i - start]);
        }
        if c < '0' || c > '9' {
            proof {
                // A non-digit, non-dot character makes the whole part
                // malformed wherever the dot is.
                assert(i - start < first_dot(t));
                assert(whole_g[i - start] == t[i - start]);
                assert(!is_digit_char(whole_g[i - start]));
            }
            return None;
        }
        let d: i64 = (c as u32 - '0' as u32) as i64;
        proof {
            assert(is_digit_char(t[i - start]) && digit_val(t[i - start]) == d);
        }
        if !over {
            if acc > (UNIT_CAP - d) / 10 {
                proof {
                    lemma_digits_val_nonneg(t.take(i - start));
                }
                over = true;
            } else {
                acc = acc * 10 + d;
            }
        } else {
            proof {
                assert(digits_val(t.take(i - start + 1)) == digits_val(t.take(i - start)) * 10 + d);
            }
        }
        i = i + 1;
    }
    proof {
        // The scan stopped at the dot or the end, so it covered exactly
        // the whole part.
        assert(i - start <= first_dot(t));
        if i < len {
            assert(t[i - start] == s@[i as int]);
            assert(i - start == first_dot(t));
        } else {
            assert(first_dot(t) <= t.len());
            assert(i - start == t.len());
        }
        assert(whole_g =~= t.take(i - start));
    }
    // Scan the fraction digits after the dot, if any.
    let ghost frac_g = if dot_g < t.len() { t.skip(dot_g + 1) } else { Seq::<char>::empty() };
    let mut fc: i64 = 0;
    let had_dot = i < len;
    if i < len {
        let mut j: usize = i + 1;
        while j < len
            invariant
                i + 1 <= j <= len,
                len == s@.len(),
                t =~= (if start == 1 { s@.drop_first() } else { s@ }),
                start == 0 || start == 1,
                i - start == first_dot(t),
                i < len,
                frac_g =~= t.skip(i - start + 1),
                all_digits(frac_g.take(j - i - 1)),
                0 <= fc <= 99,
                fc == frac_cents(frac_g.take(j - i - 1)),
            decreases len - j,
        {
            let c = s.get_char(j);
            proof {
                assert(frac_g[j - i - 1] == t[j - start]);
                assert(t[j - start] == s@[j as int]);
            }
            if c < '0' || c > '9' {
                proof {
                    assert(!is_digit_char(frac_g[j - i - 1]));
                }
                return None;
            }
            let d: i64 = (c as u32 - '0' as u32) as i64;
            proof {
                assert(is_digit_char(frac_g[j - i - 1]) && digit_val(frac_g[j - i - 1]) == d);
                assert(frac_g.take(j - i - 1 + 1).drop_last() =~= frac_g.take(j - i - 1));
            }
            if j == i + 1 {
                fc = d * 10;
            } else if j == i + 2 {
                fc = fc + d;
            }
            proof {
                let p = frac_g.take(j - i);
                if j - i - 1 >= 2 {
                    assert(p[0] == frac_g[0]);
                    assert(p[1] == frac_g[1]);
                    assert(frac_cents(p) == frac_cents(frac_g.take(j - i - 1)));
                }
            }
            j = j + 1;
        }
        proof {
            assert(frac_g =~= frac_g.take(j - i - 1));
        }
    } else {
        proof {
            assert(frac_g =~= Seq::<char>::empty());
        }
    }
    // All characters seen; decide.
    let whole_len = i - start;
    let frac_len = if had_dot { len - i - 1 } else { 0 };
    if whole_len + frac_len == 0 {
        return None;
    }
    if over {
        proof {
            assert(digits_val(whole_g) > UNIT_CAP);
            lemma_digits_val_nonneg(frac_g);
            assert(frac_cents(frac_g) >= 0);
        }
        return None;
    }
    let m = acc * 100 + fc;
    proof {
        assert(m <= AMOUNT_LIMIT);
    }
    if neg {
        Some(-m)
    } else {
        Some(m)
    }
}

/// Whatever parses as an amount is representable.
pub proof fn lemma_parse_amount_ok(s: Seq<char>)
    ensures
        spec_parse_amount(s) is Some ==> amount_ok(spec_parse_amount(s)->0 as int),
{
    if s.len() > 0 {
        let t = if s[0] == '-' || s[0] == '+' { s.drop_first() } else { s };
        let dot = first_dot(t);
        let whole = t.take(dot);
        let frac = if dot < t.len() { t.skip(dot + 1) } else { Seq::<char>::empty() };
        if all_digits(whole) && all_digits(frac) && whole.len() + frac.len() >= 1 {
            lemma_digits_val_nonneg(whole);
            if frac.len() > 0 {
                assert(is_digit_char(frac[0]));
            }
            if frac.len() > 1 {
                assert(is_digit_char(frac[1]));
            }
            assert(frac_cents(frac) >= 0);
        }
    }
}

/// Formatting an amount and parsing the text back gives the same cents.
pub proof fn lemma_amount_round_trip(c: int)
    requires
        amount_ok(c),
    ensures
        spec_parse_amount(amount_text(c)) == Some(c as i64),
{
    let a = if c < 0 { -c } else { c };
    let units = (a / 100) as nat;
    let frac = a % 100;
    let digits = dec_digits(units);
    let tail = seq!['.', digit_char(frac / 10), digit_char(frac % 10)];
    let s = amount_text(c);
    lemma_digits_val_dec_digits(units);
    lemma_digit_char_val(frac / 10);
    lemma_digit_char_val(frac % 10);
    let t = if c < 0 { s.drop_first() } else { s };
    assert(t =~= digits + tail);
    lemma_first_dot_after_digits(digits, tail);
    assert(first_dot(t) == digits.len());
    assert(t.take(digits.len() as int) =~= digits);
    let f = t.skip(digits.len() as int + 1);
    assert(f =~= seq![digit_char(frac / 10), digit_char(frac % 10)]);
    assert(all_digits(f));
    assert(frac_cents(f) == (frac / 10) * 10 + frac % 10);
    assert(digits_val(digits) * 100 + frac_cents(f) == a);
}

/// The first dot of a digit string followed by a dot-led tail sits right
/// after the digits.
proof fn lemma_first_dot_after_digits(digits: Seq<char>, tail: Seq<char>)
    requires
        all_digits(digits),
        tail.len() > 0,
        tail[0] == '.',
    ensures
        first_dot(digits + tail) == digits.len(),
    decreases digits.len(),
{
    let s = digits + tail;
    if digits.len() == 0 {
        assert(s =~= tail);
    } else {
        assert(is_digit_char(digits[0]));
        assert(s[0] != '.');
        let d2 = digits.drop_first();
        assert(s.drop_first() =~= d2 + tail);
        assert(all_digits(d2)) by {
            assert(forall|i: int| 0 <= i < d2.len() ==> d2[i] == digits[i + 1]);
        }
        lemma_first_dot_after_digits(d2, tail);
    }
}

} // verus!
