//! Timestamps: seconds since the Unix epoch written as ISO 8601 UTC
//! date-times (`YYYY-MM-DDTHH:MM:SSZ`) in the proleptic Gregorian calendar.

use vstd::prelude::*;

use crate::ordering::lex_lt;
use crate::text::{decimal, decimal_string, digit_char};

verus! {

broadcast use vstd::string::group_string_axioms;

/// Whether `y` is a leap year of the Gregorian calendar.
pub open spec fn is_leap(y: nat) -> bool {
    (y % 4 == 0 && y % 100 != 0) || y % 400 == 0
}

/// The number of days of year `y`.
pub open spec fn year_days(y: nat) -> nat {
    if is_leap(y) {
        366
    } else {
        365
    }
}

/// The number of days of month `m` (1 to 12) of year `y`.
pub open spec fn month_days(y: nat, m: nat) -> nat {
    if m == 2 {
        if is_leap(y) {
            29
        } else {
            28
        }
    } else if m == 4 || m == 6 || m == 9 || m == 11 {
        30
    } else {
        31
    }
}

/// The date (year, month, day) that lies `days` days after the first day
/// of month `m` of year `y`, counting whole months within the year.
pub open spec fn date_in_year(y: nat, m: nat, days: nat) -> (nat, nat, nat)
    decreases 12 - m,
{
    if 1 <= m < 12 && days >= month_days(y, m) {
        date_in_year(y, m + 1, (days - month_days(y, m)) as nat)
    } else {
        (y, m, days + 1)
    }
}

/// The date (year, month, day) that lies `days` days after January 1st of
/// year `y`, counting whole years first.
pub open spec fn date_after(y: nat, days: nat) -> (nat, nat, nat)
    decreases days,
{
    if days >= year_days(y) {
        date_after(y + 1, (days - year_days(y)) as nat)
    } else {
        date_in_year(y, 1, days)
    }
}

/// `n` in decimal, left-padded with zeros to at least `width` digits.
#[verifier::opaque]
pub open spec fn padded(n: nat, width: nat) -> Seq<char> {
    if decimal(n).len() < width {
        Seq::new((width - decimal(n).len()) as nat, |i: int| '0') + decimal(n)
    } else {
        decimal(n)
    }
}

/// The ISO 8601 UTC date-time `secs` seconds after 1970-01-01T00:00:00Z.
pub open spec fn iso_timestamp(secs: u64) -> Seq<char> {
    let (y, m, d) = date_after(1970, (secs / 86400) as nat);
    let rest = (secs % 86400) as nat;
    padded(y, 4) + "-"@ + padded(m, 2) + "-"@ + padded(d, 2) + "T"@ + padded(rest / 3600, 2) + ":"@
        + padded((rest % 3600) / 60, 2) + ":"@ + padded(rest % 60, 2) + "Z"@
}

/// The number of days of year `y`.
fn year_length(y: u64) -> (n: u64)
    ensures
        n == year_days(y as nat),
{
    if (y % 4 == 0 && y % 100 != 0) || y % 400 == 0 {
        366
    } else {
        365
    }
}

/// The number of days of month `m` of year `y`.
fn month_length(y: u64, m: u64) -> (n: u64)
    ensures
        n == month_days(y as nat, m as nat),
{
    if m == 2 {
        if (y % 4 == 0 && y % 100 != 0) || y % 400 == 0 {
            29
        } else {
            28
        }
    } else if m == 4 || m == 6 || m == 9 || m == 11 {
        30
    } else {
        31
    }
}

/// The date `days` days after 1970-01-01.
fn date_of_day(days: u64) -> (r: (u64, u64, u64))
    ensures
        (r.0 as nat, r.1 as nat, r.2 as nat) == date_after(1970, days as nat),
{
    let mut y: u64 = 1970;
    let mut left: u64 = days;
    while left >= year_length(y)
        invariant
            1970 <= y,
            (y - 1970) * 365 + left <= days,
            date_after(y as nat, left as nat) == date_after(1970, days as nat),
        decreases left,
    {
        let n = year_length(y);
        left = left - n;
        y = y + 1;
    }
    let mut m: u64 = 1;
    while 1 <= m && m < 12 && left >= month_length(y, m)
        invariant
            1 <= m <= 12,
            left < 366,
            date_in_year(y as nat, m as nat, left as nat) == date_after(1970, days as nat),
        decreases 12 - m,
    {
        let n = month_length(y, m);
        left = left - n;
        m = m + 1;
    }
    (y, m, left + 1)
}

/// `n` in decimal, left-padded with zeros to at least `width` digits.
fn padded_decimal(n: u64, width: usize) -> (s: String)
    ensures
        s@ == padded(n as nat, width as nat),
{
    reveal(padded);
    let digits = decimal_string(n);
    let len = digits.as_str().unicode_len();
    if len >= width {
        return digits;
    }
    let mut s = String::new();
    let mut i: usize = 0;
    while i < width - len
        invariant
            len < width,
            i <= width - len,
            s@ == Seq::new(i as nat, |k: int| '0'),
        decreases width - len - i,
    {
        s.append("0");
        proof {
            reveal_strlit("0");
        }
        assert(s@ =~= Seq::new((i + 1) as nat, |k: int| '0'));
        i = i + 1;
    }
    s.append(digits.as_str());
    s
}

/// The ISO 8601 UTC date-time `secs` seconds after the Unix epoch, such as
/// "1970-01-01T00:00:00Z" for 0.
pub fn iso_timestamp_string(secs: u64) -> (s: String)
    ensures
        s@ == iso_timestamp(secs),
{
    let (y, m, d) = date_of_day(secs / 86400);
    let rest = secs % 86400;
    let mut s = padded_decimal(y, 4);
    s.append("-");
    s.append(padded_decimal(m, 2).as_str());
    s.append("-");
    s.append(padded_decimal(d, 2).as_str());
    s.append("T");
    s.append(padded_decimal(rest / 3600, 2).as_str());
    s.append(":");
    s.append(padded_decimal((rest % 3600) / 60, 2).as_str());
    s.append(":");
    s.append(padded_decimal(rest % 60, 2).as_str());
    s.append("Z");
    s
}

// ---------------------------------------------------------------------------
// Order of timestamps
// ---------------------------------------------------------------------------

/// Date `a` (year, month, day) comes before date `b`.
pub open spec fn date_lt(a: (nat, nat, nat), b: (nat, nat, nat)) -> bool {
    a.0 < b.0 || (a.0 == b.0 && (a.1 < b.1 || (a.1 == b.1 && a.2 < b.2)))
}

/// The days of year `y` from the first day of month `m` on.
pub open spec fn days_from_month(y: nat, m: nat) -> nat
    decreases 13 - m,
{
    if 1 <= m <= 12 {
        month_days(y, m) + days_from_month(y, m + 1)
    } else {
        0
    }
}

proof fn lemma_year_days_by_month(y: nat)
    ensures
        days_from_month(y, 1) == year_days(y),
{
    reveal_with_fuel(days_from_month, 13);
}

proof fn lemma_in_year_shape(y: nat, m: nat, days: nat)
    requires
        1 <= m <= 12,
        days < days_from_month(y, m),
    ensures
        date_in_year(y, m, days).0 == y,
        m <= date_in_year(y, m, days).1 <= 12,
        1 <= date_in_year(y, m, days).2 <= 31,
    decreases 12 - m,
{
    if m < 12 && days >= month_days(y, m) {
        lemma_in_year_shape(y, m + 1, (days - month_days(y, m)) as nat);
    } else if m == 12 {
        assert(days_from_month(y, 13) == 0);
    } else {
    }
}

proof fn lemma_in_year_mono(y: nat, m: nat, d1: nat, d2: nat)
    requires
        1 <= m <= 12,
        d1 < d2 < days_from_month(y, m),
    ensures
        date_lt(date_in_year(y, m, d1), date_in_year(y, m, d2)),
    decreases 12 - m,
{
    lemma_in_year_shape(y, m, d1);
    lemma_in_year_shape(y, m, d2);
    if m < 12 && d2 >= month_days(y, m) {
        if d1 >= month_days(y, m) {
            lemma_in_year_mono(y, m + 1, (d1 - month_days(y, m)) as nat, (d2 - month_days(y, m)) as nat);
        } else {
            lemma_in_year_shape(y, m + 1, (d2 - month_days(y, m)) as nat);
        }
    }
}

proof fn lemma_date_after_shape(y: nat, days: nat)
    ensures
        date_after(y, days).0 >= y,
        1 <= date_after(y, days).1 <= 12,
        1 <= date_after(y, days).2 <= 31,
    decreases days,
{
    if days >= year_days(y) {
        lemma_date_after_shape(y + 1, (days - year_days(y)) as nat);
    } else {
        lemma_year_days_by_month(y);
        lemma_in_year_shape(y, 1, days);
    }
}

proof fn lemma_date_after_mono(y: nat, d1: nat, d2: nat)
    requires
        d1 < d2,
    ensures
        date_lt(date_after(y, d1), date_after(y, d2)),
    decreases d2,
{
    lemma_year_days_by_month(y);
    if d2 >= year_days(y) {
        if d1 >= year_days(y) {
            lemma_date_after_mono(y + 1, (d1 - year_days(y)) as nat, (d2 - year_days(y)) as nat);
        } else {
            lemma_in_year_shape(y, 1, d1);
            lemma_date_after_shape(y + 1, (d2 - year_days(y)) as nat);
        }
    } else {
        lemma_in_year_mono(y, 1, d1, d2);
    }
}

/// Ten to the power `w`.
pub open spec fn pow10(w: nat) -> nat
    decreases w,
{
    if w == 0 {
        1
    } else {
        10 * pow10((w - 1) as nat)
    }
}

/// The last `w` decimal digits of `n`, most significant first.
pub open spec fn digits(n: nat, w: nat) -> Seq<char>
    decreases w,
{
    if w == 0 {
        Seq::empty()
    } else {
        digits(n / 10, (w - 1) as nat).push(digit_char(n % 10))
    }
}

proof fn lemma_digit_char_lt(a: nat, b: nat)
    requires
        a < b < 10,
    ensures
        digit_char(a) < digit_char(b),
{
}

proof fn lemma_lex_lt_append(a: Seq<char>, b: Seq<char>, x: Seq<char>, y: Seq<char>)
    requires
        a.len() == b.len(),
        lex_lt(a, b),
    ensures
        lex_lt(a + x, b + y),
    decreases a.len(),
{
    if a[0] == b[0] {
        assert((a + x).drop_first() =~= a.drop_first() + x);
        assert((b + y).drop_first() =~= b.drop_first() + y);
        lemma_lex_lt_append(a.drop_first(), b.drop_first(), x, y);
    }
}

proof fn lemma_lex_lt_same_prefix(a: Seq<char>, x: Seq<char>, y: Seq<char>)
    requires
        lex_lt(x, y),
    ensures
        lex_lt(a + x, a + y),
    decreases a.len(),
{
    if a.len() == 0 {
        assert(a + x =~= x);
        assert(a + y =~= y);
    } else {
        assert((a + x).drop_first() =~= a.drop_first() + x);
        assert((a + y).drop_first() =~= a.drop_first() + y);
        lemma_lex_lt_same_prefix(a.drop_first(), x, y);
    }
}

proof fn lemma_digits_lt(n1: nat, n2: nat, w: nat)
    requires
        n1 < n2 < pow10(w),
    ensures
        digits(n1, w).len() == w,
        digits(n2, w).len() == w,
        lex_lt(digits(n1, w), digits(n2, w)),
    decreases w,
{
    lemma_digits_len(n1, w);
    lemma_digits_len(n2, w);
    let p = pow10((w - 1) as nat);
    assert(n2 / 10 < p) by (nonlinear_arith)
        requires
            n2 < 10 * p,
    ;
    if n1 / 10 < n2 / 10 {
        lemma_digits_lt(n1 / 10, n2 / 10, (w - 1) as nat);
        lemma_lex_lt_append(
            digits(n1 / 10, (w - 1) as nat),
            digits(n2 / 10, (w - 1) as nat),
            seq![digit_char(n1 % 10)],
            seq![digit_char(n2 % 10)],
        );
        assert(digits(n1, w) =~= digits(n1 / 10, (w - 1) as nat) + seq![digit_char(n1 % 10)]);
        assert(digits(n2, w) =~= digits(n2 / 10, (w - 1) as nat) + seq![digit_char(n2 % 10)]);
    } else {
        assert(n1 / 10 == n2 / 10);
        assert(n1 % 10 < n2 % 10);
        lemma_digit_char_lt(n1 % 10, n2 % 10);
        let a = digits(n1 / 10, (w - 1) as nat);
        lemma_lex_lt_same_prefix(a, seq![digit_char(n1 % 10)], seq![digit_char(n2 % 10)]);
        assert(digits(n1, w) =~= a + seq![digit_char(n1 % 10)]);
        assert(digits(n2, w) =~= a + seq![digit_char(n2 % 10)]);
    }
}

proof fn lemma_digits_len(n: nat, w: nat)
    ensures
        digits(n, w).len() == w,
    decreases w,
{
    if w > 0 {
        lemma_digits_len(n / 10, (w - 1) as nat);
    }
}

proof fn lemma_padded_2(n: nat)
    requires
        n < 100,
    ensures
        padded(n, 2) == digits(n, 2),
{
    reveal(padded);
    reveal_with_fuel(decimal, 3);
    reveal_with_fuel(digits, 3);
    if n < 10 {
        assert(padded(n, 2) =~= digits(n, 2));
    } else {
        assert(padded(n, 2) =~= digits(n, 2));
    }
}

proof fn lemma_padded_4(n: nat)
    requires
        n < 10000,
    ensures
        padded(n, 4) == digits(n, 4),
{
    reveal(padded);
    reveal_with_fuel(decimal, 5);
    reveal_with_fuel(digits, 5);
    if n < 10 {
        assert(padded(n, 4) =~= digits(n, 4));
    } else if n < 100 {
        assert(padded(n, 4) =~= digits(n, 4));
    } else if n < 1000 {
        assert(padded(n, 4) =~= digits(n, 4));
    } else {
        assert(padded(n, 4) =~= digits(n, 4));
    }
}

/// Time-of-day part of a timestamp after the date: `THH:MM:SSZ`.
spec fn clock_text(rest: nat) -> Seq<char> {
    "T"@ + (padded(rest / 3600, 2) + (":"@ + (padded((rest % 3600) / 60, 2) + (":"@ + (padded(
        rest % 60,
        2,
    ) + "Z"@)))))
}

/// Date part of a timestamp and what follows it.
spec fn date_text(date: (nat, nat, nat), rest: nat) -> Seq<char> {
    padded(date.0, 4) + ("-"@ + (padded(date.1, 2) + ("-"@ + (padded(date.2, 2) + clock_text(rest)))))
}

proof fn lemma_iso_parts(secs: u64)
    ensures
        iso_timestamp(secs) == date_text(date_after(1970, (secs / 86400) as nat), (secs % 86400) as nat),
{
    let (y, m, d) = date_after(1970, (secs / 86400) as nat);
    let rest = (secs % 86400) as nat;
    assert(iso_timestamp(secs) =~= date_text((y, m, d), rest));
}

proof fn lemma_pow10_values()
    ensures
        pow10(2) == 100,
        pow10(4) == 10000,
{
    reveal_with_fuel(pow10, 5);
}

/// Two-digit fields compare as their numbers.
proof fn lemma_padded_2_lt(n1: nat, n2: nat)
    requires
        n1 < n2 < 100,
    ensures
        padded(n1, 2).len() == 2,
        padded(n2, 2).len() == padded(n1, 2).len(),
        lex_lt(padded(n1, 2), padded(n2, 2)),
{
    lemma_pow10_values();
    lemma_padded_2(n1);
    lemma_padded_2(n2);
    lemma_digits_lt(n1, n2, 2);
}

proof fn lemma_clock_text_lt(r1: nat, r2: nat)
    requires
        r1 < r2 < 86400,
    ensures
        lex_lt(clock_text(r1), clock_text(r2)),
{
    let (h1, h2) = (r1 / 3600, r2 / 3600);
    let (m1, m2) = ((r1 % 3600) / 60, (r2 % 3600) / 60);
    let (s1, s2) = (r1 % 60, r2 % 60);
    let tail1 = ":"@ + (padded(s1, 2) + "Z"@);
    let tail2 = ":"@ + (padded(s2, 2) + "Z"@);
    let mt1 = padded(m1, 2) + tail1;
    let mt2 = padded(m2, 2) + tail2;
    let ht1 = padded(h1, 2) + (":"@ + mt1);
    let ht2 = padded(h2, 2) + (":"@ + mt2);
    if h1 < h2 {
        lemma_padded_2_lt(h1, h2);
        lemma_lex_lt_append(padded(h1, 2), padded(h2, 2), ":"@ + mt1, ":"@ + mt2);
    } else {
        assert(h1 == h2);
        if m1 < m2 {
            lemma_padded_2_lt(m1, m2);
            lemma_lex_lt_append(padded(m1, 2), padded(m2, 2), tail1, tail2);
        } else {
            assert(m1 == m2 && s1 < s2);
            lemma_padded_2_lt(s1, s2);
            lemma_lex_lt_append(padded(s1, 2), padded(s2, 2), "Z"@, "Z"@);
            lemma_lex_lt_same_prefix(":"@, padded(s1, 2) + "Z"@, padded(s2, 2) + "Z"@);
            lemma_lex_lt_same_prefix(padded(m1, 2), tail1, tail2);
        }
        lemma_lex_lt_same_prefix(":"@, mt1, mt2);
        lemma_lex_lt_same_prefix(padded(h1, 2), ":"@ + mt1, ":"@ + mt2);
    }
    lemma_lex_lt_same_prefix("T"@, ht1, ht2);
}

/// Four-digit fields compare as their numbers.
proof fn lemma_padded_4_lt(n1: nat, n2: nat)
    requires
        n1 < n2 < 10000,
    ensures
        padded(n1, 4).len() == padded(n2, 4).len(),
        lex_lt(padded(n1, 4), padded(n2, 4)),
{
    lemma_pow10_values();
    lemma_padded_4(n1);
    lemma_padded_4(n2);
    lemma_digits_lt(n1, n2, 4);
}

/// Timestamps order as the times they write: up to the end of year 9999,
/// the ISO 8601 text of an earlier time comes first in lexicographic order,
/// the order image listings are sorted by.
pub proof fn law_timestamp_text_orders_as_time(t1: u64, t2: u64)
    requires
        t1 < t2,
        date_after(1970, (t2 / 86400) as nat).0 <= 9999,
    ensures
        lex_lt(iso_timestamp(t1), iso_timestamp(t2)),
{
    lemma_iso_parts(t1);
    lemma_iso_parts(t2);
    let n1 = (t1 / 86400) as nat;
    let n2 = (t2 / 86400) as nat;
    let r1 = (t1 % 86400) as nat;
    let r2 = (t2 % 86400) as nat;
    let a = date_after(1970, n1);
    let b = date_after(1970, n2);
    lemma_date_after_shape(1970, n1);
    lemma_date_after_shape(1970, n2);
    let c1 = clock_text(r1);
    let c2 = clock_text(r2);
    let dc1 = padded(a.2, 2) + c1;
    let dc2 = padded(b.2, 2) + c2;
    let mdc1 = padded(a.1, 2) + ("-"@ + dc1);
    let mdc2 = padded(b.1, 2) + ("-"@ + dc2);
    if n1 < n2 {
        lemma_date_after_mono(1970, n1, n2);
        if a.0 < b.0 {
            lemma_padded_4_lt(a.0, b.0);
            lemma_lex_lt_append(padded(a.0, 4), padded(b.0, 4), "-"@ + mdc1, "-"@ + mdc2);
        } else {
            if a.1 < b.1 {
                lemma_padded_2_lt(a.1, b.1);
                lemma_lex_lt_append(padded(a.1, 2), padded(b.1, 2), "-"@ + dc1, "-"@ + dc2);
            } else {
                lemma_padded_2_lt(a.2, b.2);
                lemma_lex_lt_append(padded(a.2, 2), padded(b.2, 2), c1, c2);
                lemma_lex_lt_same_prefix("-"@, dc1, dc2);
                lemma_lex_lt_same_prefix(padded(a.1, 2), "-"@ + dc1, "-"@ + dc2);
            }
            lemma_lex_lt_same_prefix("-"@, mdc1, mdc2);
            lemma_lex_lt_same_prefix(padded(a.0, 4), "-"@ + mdc1, "-"@ + mdc2);
        }
    } else {
        assert(n1 == n2 && r1 < r2);
        lemma_clock_text_lt(r1, r2);
        lemma_lex_lt_same_prefix(padded(a.2, 2), c1, c2);
        lemma_lex_lt_same_prefix("-"@, dc1, dc2);
        lemma_lex_lt_same_prefix(padded(a.1, 2), "-"@ + dc1, "-"@ + dc2);
        lemma_lex_lt_same_prefix("-"@, mdc1, mdc2);
        lemma_lex_lt_same_prefix(padded(a.0, 4), "-"@ + mdc1, "-"@ + mdc2);
    }
}

} // verus!
