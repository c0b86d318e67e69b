//! A plain Gregorian calendar model: validity, ordering, day stepping for the
//! forecast horizon, `YYYY-MM-DD` parsing and rendering, and the one-year
//! shift used by the historical proxy.

use vstd::prelude::*;
use crate::numfmt::{pad2, pad4, fmt_pad2, fmt_pad4};

verus! {

/// A calendar date. Valid values satisfy `date_valid`.
#[derive(PartialEq, Eq, Structural, Clone, Copy, Debug)]
pub struct Date {
    pub year: u32,
    pub month: u32,
    pub day: u32,
}

pub open spec fn is_leap(y: int) -> bool {
    (y % 4 == 0 && y % 100 != 0) || y % 400 == 0
}

pub open spec fn days_in_month(y: int, m: int) -> int {
    if m == 2 {
        if is_leap(y) {
            29
        } else {
            28
        }
    } else if m == 4 || m == 6 || m == 9 || m == 11 {
        30
    } else {
        31
    }
}

pub open spec fn date_valid(d: Date) -> bool {
    1 <= d.year <= 9999 && 1 <= d.month <= 12 && 1 <= d.day <= days_in_month(
        d.year as int,
        d.month as int,
    )
}

/// Chronological order on dates (lexicographic on year, month, day).
pub open spec fn date_le(a: Date, b: Date) -> bool {
    a.year < b.year || (a.year == b.year && (a.month < b.month || (a.month == b.month && a.day
        <= b.day)))
}

/// Exec comparison mirroring `date_le`.
pub fn date_le_exec(a: &Date, b: &Date) -> (r: bool)
    ensures
        r == date_le(*a, *b),
{
    a.year < b.year || (a.year == b.year && (a.month < b.month || (a.month == b.month && a.day
        <= b.day)))
}

/// The day after `d`.
pub open spec fn next_day_spec(d: Date) -> Date {
    if d.day < days_in_month(d.year as int, d.month as int) {
        Date { year: d.year, month: d.month, day: (d.day + 1) as u32 }
    } else if d.month < 12 {
        Date { year: d.year, month: (d.month + 1) as u32, day: 1 }
    } else {
        Date { year: (d.year + 1) as u32, month: 1, day: 1 }
    }
}

/// `d` advanced by `n` days.
pub open spec fn date_plus_days(d: Date, n: int) -> Date
    decreases n,
{
    if n <= 0 {
        d
    } else {
        next_day_spec(date_plus_days(d, n - 1))
    }
}

pub proof fn lemma_next_day_valid(d: Date)
    requires
        date_valid(d),
        d.year < 9999 || !(d.month == 12 && d.day == 31),
    ensures
        date_valid(next_day_spec(d)),
        next_day_spec(d).year <= d.year + 1,
        next_day_spec(d).year == d.year + 1 ==> next_day_spec(d).month == 1
            && next_day_spec(d).day == 1,
{
}

/// Advancing at most 31 days from a date below the model's last year stays valid.
pub proof fn lemma_date_plus_days_valid(d: Date, n: int)
    requires
        date_valid(d),
        d.year < 9999,
        0 <= n <= 31,
    ensures
        date_valid(date_plus_days(d, n)),
        date_plus_days(d, n).year <= d.year + 1,
        date_plus_days(d, n).year == d.year + 1 ==> date_plus_days(d, n).month == 1
            && date_plus_days(d, n).day <= n,
    decreases n,
{
    if n > 0 {
        lemma_date_plus_days_valid(d, n - 1);
        let p = date_plus_days(d, n - 1);
        if p.year == d.year + 1 {
            assert(!(p.month == 12 && p.day == 31));
        }
        lemma_next_day_valid(p);
    }
}

/// Exec step to the next day.
pub fn next_day(d: &Date) -> (r: Date)
    requires
        date_valid(*d),
        d.year < 9999 || !(d.month == 12 && d.day == 31),
    ensures
        r == next_day_spec(*d),
{
    let dim: u32 = if d.month == 2 {
        if (d.year % 4 == 0 && d.year % 100 != 0) || d.year % 400 == 0 {
            29
        } else {
            28
        }
    } else if d.month == 4 || d.month == 6 || d.month == 9 || d.month == 11 {
        30
    } else {
        31
    };
    if d.day < dim {
        Date { year: d.year, month: d.month, day: d.day + 1 }
    } else if d.month < 12 {
        Date { year: d.year, month: d.month + 1, day: 1 }
    } else {
        Date { year: d.year + 1, month: 1, day: 1 }
    }
}

/// `d` advanced by `n` days (the forecast horizon uses `n = 16`).
pub fn date_add_days(d: &Date, n: u32) -> (r: Date)
    requires
        date_valid(*d),
        d.year < 9999,
        n <= 31,
    ensures
        r == date_plus_days(*d, n as int),
        date_valid(r),
{
    let mut cur: Date = *d;
    let mut k: u32 = 0;
    proof {
        lemma_date_plus_days_valid(*d, n as int);
    }
    while k < n
        invariant
            0 <= k <= n <= 31,
            date_valid(*d),
            d.year < 9999,
            cur == date_plus_days(*d, k as int),
        decreases n - k,
    {
        proof {
            lemma_date_plus_days_valid(*d, k as int);
            lemma_date_plus_days_valid(*d, k + 1);
            if cur.year == d.year + 1 {
                assert(!(cur.month == 12 && cur.day == 31));
            }
        }
        cur = next_day(&cur);
        k = k + 1;
    }
    cur
}

/// The `YYYY-MM-DD` rendering of a date.
pub open spec fn date_fmt(d: Date) -> Seq<u8> {
    pad4(d.year as int) + seq![45u8] + pad2(d.month as int) + seq![45u8] + pad2(d.day as int)
}

/// Render a date as `YYYY-MM-DD`.
pub fn format_date(d: &Date) -> (r: Vec<u8>)
    requires
        date_valid(*d),
    ensures
        r@ == date_fmt(*d),
        r@.len() == 10,
{
    let mut r = fmt_pad4(d.year);
    r.push(45);
    let m = fmt_pad2(d.month);
    crate::bytes::push_all(&mut r, &m);
    r.push(45);
    let dd = fmt_pad2(d.day);
    crate::bytes::push_all(&mut r, &dd);
    proof {
        assert(r@ =~= date_fmt(*d));
    }
    r
}

pub open spec fn is_digit(b: u8) -> bool {
    48 <= b <= 57
}

/// The date a well-formed `YYYY-MM-DD` byte string denotes, if any.
pub open spec fn parse_date_spec(s: Seq<u8>) -> Option<Date> {
    if s.len() == 10 && is_digit(s[0]) && is_digit(s[1]) && is_digit(s[2]) && is_digit(s[3])
        && s[4] == 45 && is_digit(s[5]) && is_digit(s[6]) && s[7] == 45 && is_digit(s[8])
        && is_digit(s[9]) {
        let y = (s[0] - 48) * 1000 + (s[1] - 48) * 100 + (s[2] - 48) * 10 + (s[3] - 48);
        let m = (s[5] - 48) * 10 + (s[6] - 48);
        let d = (s[8] - 48) * 10 + (s[9] - 48);
        let date = Date { year: y as u32, month: m as u32, day: d as u32 };
        if date_valid(date) {
            Some(date)
        } else {
            None
        }
    } else {
        None
    }
}

/// Parse a `YYYY-MM-DD` byte string into a valid date.
pub fn parse_date(s: &Vec<u8>) -> (r: Option<Date>)
    ensures
        r == parse_date_spec(s@),
        r is Some ==> date_valid(r->Some_0),
{
    if s.len() != 10 {
        return None;
    }
    let mut k: usize = 0;
    while k < 10
        invariant
            s@.len() == 10,
            0 <= k <= 10,
            forall|j: int|
                0 <= j < k ==> (if j == 4 || j == 7 {
                    s@[j] == 45
                } else {
                    is_digit(s@[j])
                }),
        decreases 10 - k,
    {
        if k == 4 || k == 7 {
            if s[k] != 45 {
                return None;
            }
        } else {
            if s[k] < 48 || s[k] > 57 {
                return None;
            }
        }
        k = k + 1;
    }
    let y: u32 = ((s[0] - 48) as u32) * 1000 + ((s[1] - 48) as u32) * 100 + ((s[2] - 48) as u32)
        * 10 + ((s[3] - 48) as u32);
    let m: u32 = ((s[5] - 48) as u32) * 10 + ((s[6] - 48) as u32);
    let d: u32 = ((s[8] - 48) as u32) * 10 + ((s[9] - 48) as u32);
    let date = Date { year: y, month: m, day: d };
    let dim: u32 = if m == 2 {
        if (y % 4 == 0 && y % 100 != 0) || y % 400 == 0 {
            29
        } else {
            28
        }
    } else if m == 4 || m == 6 || m == 9 || m == 11 {
        30
    } else {
        31
    };
    if 1 <= y && 1 <= m && m <= 12 && 1 <= d && d <= dim {
        Some(date)
    } else {
        None
    }
}

/// The same calendar day one year earlier, if that day exists.
pub open spec fn shift_year_back_spec(d: Date) -> Option<Date> {
    if d.year >= 2 {
        let s = Date { year: (d.year - 1) as u32, month: d.month, day: d.day };
        if date_valid(s) {
            Some(s)
        } else {
            None
        }
    } else {
        None
    }
}

/// Shift a date back one calendar year, preserving month and day.
pub fn shift_year_back(d: &Date) -> (r: Option<Date>)
    requires
        date_valid(*d),
    ensures
        r == shift_year_back_spec(*d),
        r is Some ==> date_valid(r->Some_0),
{
    if d.year < 2 {
        return None;
    }
    let y = d.year - 1;
    let dim: u32 = if d.month == 2 {
        if (y % 4 == 0 && y % 100 != 0) || y % 400 == 0 {
            29
        } else {
            28
        }
    } else if d.month == 4 || d.month == 6 || d.month == 9 || d.month == 11 {
        30
    } else {
        31
    };
    if d.day <= dim {
        Some(Date { year: y, month: d.month, day: d.day })
    } else {
        None
    }
}

/// Rendered dates hold only digits and dashes, never a marker byte.
pub proof fn lemma_date_fmt_bytes(d: Date)
    requires
        date_valid(d),
    ensures
        forall|k: int|
            0 <= k < date_fmt(d).len() ==> (48 <= #[trigger] date_fmt(d)[k] <= 57 || date_fmt(
                d,
            )[k] == 45),
{
    assert forall|k: int| 0 <= k < date_fmt(d).len() implies (48 <= #[trigger] date_fmt(d)[k]
        <= 57 || date_fmt(d)[k] == 45) by {
        let y = d.year as int;
        let m = d.month as int;
        let dd = d.day as int;
        assert(0 <= y / 1000 <= 9);
        assert(0 <= m / 10 <= 9 && 0 <= dd / 10 <= 9);
        assert(0 <= y % 10 < 10 && 0 <= (y / 10) % 10 < 10 && 0 <= (y / 100) % 10 < 10);
        assert(0 <= m % 10 < 10 && 0 <= dd % 10 < 10);
    }
}

} // verus!
