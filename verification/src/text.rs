//! Decimal digit strings, padding, trimming: the character-level ground
//! that record formatting and input validation are built on.

use vstd::prelude::*;

verus! {

/// The digit character for a value in `0 .. 10`.
pub open spec fn digit_char(d: int) -> char {
    if d == 0 {
        '0'
    } else if d == 1 {
        '1'
    } else if d == 2 {
        '2'
    } else if d == 3 {
        '3'
    } else if d == 4 {
        '4'
    } else if d == 5 {
        '5'
    } else if d == 6 {
        '6'
    } else if d == 7 {
        '7'
    } else if d == 8 {
        '8'
    } else {
        '9'
    }
}

pub open spec fn is_digit_char(c: char) -> bool {
    '0' <= c && c <= '9'
}

/// The value of a digit character.
pub open spec fn digit_val(c: char) -> int {
    c as int - '0' as int
}

pub open spec fn all_digits(s: Seq<char>) -> bool {
    forall|i: int| 0 <= i < s.len() ==> is_digit_char(#[trigger] s[i])
}

/// The decimal digits of a natural number, most significant first,
/// with no leading zero (a single `'0'` for zero itself).
pub open spec fn dec_digits(n: nat) -> Seq<char>
    decreases n,
{
    if n < 10 {
        seq![digit_char(n as int)]
    } else {
        dec_digits(n / 10) + seq![digit_char((n % 10) as int)]
    }
}

/// Signed decimal text: a leading `'-'` for negative values.
pub open spec fn int_text(i: int) -> Seq<char> {
    if i < 0 {
        seq!['-'] + dec_digits((-i) as nat)
    } else {
        dec_digits(i as nat)
    }
}

/// The numeric value of a digit string, most significant first.
pub open spec fn digits_val(s: Seq<char>) -> int
    decreases s.len(),
{
    if s.len() == 0 {
        0
    } else {
        digits_val(s.drop_last()) * 10 + digit_val(s.last())
    }
}

pub proof fn lemma_digit_char_val(d: int)
    requires
        0 <= d < 10,
    ensures
        is_digit_char(digit_char(d)),
        digit_val(digit_char(d)) == d,
{
}

/// Reading back the digits of `n` yields `n`, and they are all digits.
pub proof fn lemma_digits_val_dec_digits(n: nat)
    ensures
        all_digits(dec_digits(n)),
        digits_val(dec_digits(n)) == n,
        dec_digits(n).len() >= 1,
    decreases n,
{
    if n < 10 {
        lemma_digit_char_val(n as int);
        let s = dec_digits(n);
        assert(s.drop_last() =~= Seq::<char>::empty());
        assert(digits_val(Seq::<char>::empty()) == 0);
        assert(s.last() == digit_char(n as int));
    } else {
        lemma_digits_val_dec_digits(n / 10);
        lemma_digit_char_val((n % 10) as int);
        let head = dec_digits(n / 10);
        let whole = dec_digits(n);
        assert(whole.drop_last() =~= head);
        assert(whole.last() == digit_char((n % 10) as int));
        assert(digits_val(whole) == (n / 10) * 10 + n % 10);
        assert forall|i: int| 0 <= i < whole.len() implies is_digit_char(#[trigger] whole[i]) by {
            if i < whole.len() - 1 {
                assert(whole[i] == head[i]);
            }
        }
    }
}

/// A digit string's value is non-negative.
pub proof fn lemma_digits_val_nonneg(s: Seq<char>)
    requires
        all_digits(s),
    ensures
        digits_val(s) >= 0,
    decreases s.len(),
{
    if s.len() > 0 {
        assert(all_digits(s.drop_last()));
        lemma_digits_val_nonneg(s.drop_last());
        assert(digit_val(s.last()) >= 0);
    }
}

/// `n` spaces.
pub open spec fn spaces(n: nat) -> Seq<char>
    decreases n,
{
    if n == 0 {
        Seq::<char>::empty()
    } else {
        spaces((n - 1) as nat).push(' ')
    }
}

pub proof fn lemma_spaces_len(n: nat)
    ensures
        spaces(n).len() == n,
    decreases n,
{
    if n > 0 {
        lemma_spaces_len((n - 1) as nat);
    }
}

/// `s` padded with spaces on the left up to width `w`.
pub open spec fn pad_left(s: Seq<char>, w: int) -> Seq<char> {
    if s.len() >= w {
        s
    } else {
        spaces((w - s.len()) as nat) + s
    }
}

/// `s` padded with spaces on the right up to width `w`.
pub open spec fn pad_right(s: Seq<char>, w: int) -> Seq<char> {
    if s.len() >= w {
        s
    } else {
        s + spaces((w - s.len()) as nat)
    }
}

/// A one-character string for a decimal digit.
pub fn digit_str(d: u64) -> (r: &'static str)
    requires
        d < 10,
    ensures
        r@ =~= seq![digit_char(d as int)],
{
    proof {
        reveal_strlit("0");
        reveal_strlit("1");
        reveal_strlit("2");
        reveal_strlit("3");
        reveal_strlit("4");
        reveal_strlit("5");
        reveal_strlit("6");
        reveal_strlit("7");
        reveal_strlit("8");
        reveal_strlit("9");
    }
    match d {
        0 => "0",
        1 => "1",
        2 => "2",
        3 => "3",
        4 => "4",
        5 => "5",
        6 => "6",
        7 => "7",
        8 => "8",
        _ => "9",
    }
}

/// The decimal text of `n`.
pub fn u64_text(n: u64) -> (r: String)
    ensures
        r@ == dec_digits(n as nat),
    decreases n,
{
    if n < 10 {
        String::from_str(digit_str(n))
    } else {
        let mut s = u64_text(n / 10);
        s.append(digit_str(n % 10));
        s
    }
}

/// The signed decimal text of `i`.
pub fn i64_text(i: i64) -> (r: String)
    requires
        i != i64::MIN,
    ensures
        r@ == int_text(i as int),
{
    if i < 0 {
        proof {
            reveal_strlit("-");
        }
        let mut s = String::from_str("-");
        let m = u64_text((-i) as u64);
        s.append(m.as_str());
        assert(s@ =~= int_text(i as int));
        s
    } else {
        u64_text(i as u64)
    }
}

/// A string of `n` spaces.
pub fn spaces_text(n: usize) -> (r: String)
    ensures
        r@ == spaces(n as nat),
{
    let mut s = String::new();
    let mut i: usize = 0;
    while i < n
        invariant
            i <= n,
            s@ == spaces(i as nat),
        decreases n - i,
    {
        s.append(" ");
        proof {
            reveal_strlit(" ");
            assert(s@ =~= spaces((i + 1) as nat));
        }
        i = i + 1;
    }
    s
}

/// `s` left-padded with spaces to width `w`.
pub fn pad_left_text(s: String, w: usize) -> (r: String)
    ensures
        r@ == pad_left(s@, w as int),
{
    let len = s.as_str().unicode_len();
    if len >= w {
        s
    } else {
        proof {
            lemma_spaces_len((w - s@.len()) as nat);
        }
        let mut r = spaces_text(w - len);
        r.append(s.as_str());
        r
    }
}

/// `s` right-padded with spaces to width `w`.
pub fn pad_right_text(s: String, w: usize) -> (r: String)
    ensures
        r@ == pad_right(s@, w as int),
{
    let len = s.as_str().unicode_len();
    if len >= w {
        s
    } else {
        proof {
            lemma_spaces_len((w - s@.len()) as nat);
        }
        let mut r = s;
        let pad = spaces_text(w - len);
        r.append(pad.as_str());
        r
    }
}

/// Character-for-character string equality.
pub fn str_eq(a: &str, b: &str) -> (r: bool)
    ensures
        r == (a@ == b@),
{
    let la = a.unicode_len();
    let lb = b.unicode_len();
    if la != lb {
        return false;
    }
    let mut i: usize = 0;
    while i < la
        invariant
            i <= la,
            la == a@.len(),
            la == b@.len(),
            forall|j: int| 0 <= j < i ==> a@[j] == b@[j],
        decreases la - i,
    {
        if a.get_char(i) != b.get_char(i) {
            return false;
        }
        i = i + 1;
    }
    proof {
        assert(a@ =~= b@);
    }
    true
}

/// `s` without its last character; the empty sequence stays empty.
pub open spec fn chop_last(s: Seq<char>) -> Seq<char> {
    if s.len() == 0 {
        s
    } else {
        s.drop_last()
    }
}

/// Whitespace as the input trimmer understands it.
pub open spec fn is_space(c: char) -> bool {
    c == ' ' || c == '\t' || c == '\n' || c == '\r'
}

/// `s` with leading and trailing whitespace removed.
pub open spec fn spec_trim(s: Seq<char>) -> Seq<char>
    decreases s.len(),
{
    if s.len() == 0 {
        s
    } else if is_space(s[0]) {
        spec_trim(s.drop_first())
    } else if is_space(s.last()) {
        spec_trim(s.drop_last())
    } else {
        s
    }
}

proof fn lemma_trim_subrange(s: Seq<char>, start: int, end: int)
    requires
        0 <= start <= end <= s.len(),
        forall|i: int| 0 <= i < start ==> is_space(#[trigger] s[i]),
        forall|i: int| end <= i < s.len() ==> is_space(#[trigger] s[i]),
        start < end ==> !is_space(s[start]) && !is_space(s[end - 1]),
    ensures
        spec_trim(s) == s.subrange(start, end),
    decreases s.len(),
{
    if s.len() == 0 {
        assert(s.subrange(start, end) =~= s);
    } else if is_space(s[0]) {
        let t = s.drop_first();
        if start > 0 {
            assert forall|i: int| 0 <= i < start - 1 implies is_space(#[trigger] t[i]) by {
                assert(t[i] == s[i + 1]);
            }
            assert forall|i: int| end - 1 <= i < t.len() implies is_space(#[trigger] t[i]) by {
                assert(t[i] == s[i + 1]);
            }
            if start < end {
                assert(t[start - 1] == s[start]);
                assert(t[end - 2] == s[end - 1]);
            }
            lemma_trim_subrange(t, start - 1, end - 1);
            assert(t.subrange(start - 1, end - 1) =~= s.subrange(start, end));
        } else {
            // The first character is a space and nothing precedes `start`,
            // so the window is empty and every character of `s` is a space.
            assert(start == end);
            assert forall|i: int| 0 <= i < t.len() implies is_space(#[trigger] t[i]) by {
                assert(t[i] == s[i + 1]);
                if i + 1 < start {
                } else {
                    assert(end <= i + 1);
                }
            }
            lemma_trim_subrange(t, 0, 0);
            assert(t.subrange(0, 0) =~= s.subrange(start, end));
        }
    } else if is_space(s.last()) {
        // The first character is not a space, so `start == 0`; the last is a
        // space, so `end < s.len()`.
        assert(start == 0);
        if end == s.len() {
            if start < end {
                assert(false);
            } else {
                assert(is_space(s[0]));
                assert(false);
            }
        }
        let t = s.drop_last();
        assert forall|i: int| end <= i < t.len() implies is_space(#[trigger] t[i]) by {
            assert(t[i] == s[i]);
        }
        if start < end {
            assert(t[start] == s[start]);
            assert(t[end - 1] == s[end - 1]);
        }
        lemma_trim_subrange(t, start, end);
        assert(t.subrange(start, end) =~= s.subrange(start, end));
    } else {
        assert(start == 0);
        if end < s.len() {
            assert(is_space(s[s.len() - 1]));
            assert(false);
        }
        assert(s.subrange(0, s.len() as int) =~= s);
    }
}

/// Whether `c` is whitespace, executably.
fn is_space_char(c: char) -> (r: bool)
    ensures
        r == is_space(c),
{
    c == ' ' || c == '\t' || c == '\n' || c == '\r'
}

/// `s` with leading and trailing whitespace removed.
pub fn trim(s: &str) -> (r: &str)
    ensures
        r@ == spec_trim(s@),
{
    let len = s.unicode_len();
    let mut start: usize = 0;
    while start < len && is_space_char(s.get_char(start))
        invariant
            start <= len,
            len == s@.len(),
            forall|i: int| 0 <= i < start ==> is_space(#[trigger] s@[i]),
        decreases len - start,
    {
        start = start + 1;
    }
    let mut end: usize = len;
    while end > start && is_space_char(s.get_char(end - 1))
        invariant
            start <= end <= len,
            len == s@.len(),
            forall|i: int| end <= i < len ==> is_space(#[trigger] s@[i]),
        decreases end,
    {
        end = end - 1;
    }
    proof {
        lemma_trim_subrange(s@, start as int, end as int);
    }
    s.substring_char(start, end)
}

/// Relies on `String::push`: appends one character at the end.
#[verifier::external_body]
pub fn push_char(s: &mut String, c: char)
    ensures
        final(s)@ == old(s)@.push(c),
{
    s.push(c);
}

/// Relies on `String::pop`: removes and returns the last character, if any.
#[verifier::external_body]
pub fn pop_char(s: &mut String) -> (r: Option<char>)
    ensures
        old(s)@.len() == 0 ==> final(s)@ == old(s)@ && r is None,
        old(s)@.len() > 0 ==> final(s)@ == old(s)@.drop_last() && r == Some(old(s)@.last()),
{
    s.pop()
}

} // verus!
