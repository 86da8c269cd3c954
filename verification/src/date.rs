//! Calendar dates as plain year/month/day values.
//!
//! Dates enter the system only through `YYYY-MM-DD` tokens, and the core
//! only compares them and keeps them for display, so a plain triple with a
//! calendar-validity invariant models them exactly.

use vstd::prelude::*;

verus! {

#[derive(Clone, Copy, Debug, PartialEq, Eq, Structural)]
pub struct Date {
    pub y: u16,
    pub m: u8,
    pub d: u8,
}

pub open spec fn is_leap_year(y: int) -> bool {
    (y % 4 == 0 && y % 100 != 0) || y % 400 == 0
}

pub open spec fn days_in_month(y: int, m: int) -> int {
    if m == 2 {
        if is_leap_year(y) {
            29
        } else {
            28
        }
    } else if m == 4 || m == 6 || m == 9 || m == 11 {
        30
    } else {
        31
    }
}

impl Date {
    /// A calendar-valid date with a four-digit year.
    pub open spec fn wf(self) -> bool {
        &&& self.y <= 9999
        &&& 1 <= self.m <= 12
        &&& 1 <= self.d <= days_in_month(self.y as int, self.m as int)
    }

}

/// Executable counterpart of [`days_in_month`].
pub fn month_len(y: u16, m: u8) -> (n: u8)
    ensures
        n as int == days_in_month(y as int, m as int),
{
    if m == 2 {
        if (y % 4 == 0 && y % 100 != 0) || y % 400 == 0 {
            29
        } else {
            28
        }
    } else if m == 4 || m == 6 || m == 9 || m == 11 {
        30
    } else {
        31
    }
}

/// `c` is an ASCII decimal digit.
pub open spec fn spec_is_digit(c: char) -> bool {
    48 <= c as u32 <= 57
}

/// The numeric value of an ASCII digit.
pub open spec fn digit_val(c: char) -> int {
    c as u32 - 48
}

/// `t` has the shape `YYYY-MM-DD` with all-digit fields.
pub open spec fn is_date_shaped(t: Seq<char>) -> bool {
    &&& t.len() == 10
    &&& spec_is_digit(t[0]) && spec_is_digit(t[1]) && spec_is_digit(t[2]) && spec_is_digit(t[3])
    &&& t[4] == '-'
    &&& spec_is_digit(t[5]) && spec_is_digit(t[6])
    &&& t[7] == '-'
    &&& spec_is_digit(t[8]) && spec_is_digit(t[9])
}

/// The date value a `YYYY-MM-DD` token denotes, ignoring validity.
pub open spec fn date_of_token(t: Seq<char>) -> Date {
    Date {
        y: (digit_val(t[0]) * 1000 + digit_val(t[1]) * 100 + digit_val(t[2]) * 10 + digit_val(
            t[3],
        )) as u16,
        m: (digit_val(t[5]) * 10 + digit_val(t[6])) as u8,
        d: (digit_val(t[8]) * 10 + digit_val(t[9])) as u8,
    }
}

/// A token parses as a date exactly when it is `YYYY-MM-DD` shaped and
/// denotes a calendar-valid date.
pub open spec fn parse_date(t: Seq<char>) -> Option<Date> {
    if is_date_shaped(t) && date_of_token(t).wf() {
        Some(date_of_token(t))
    } else {
        None
    }
}

/// Executable digit test.
pub fn is_digit(c: char) -> (r: bool)
    ensures
        r == spec_is_digit(c),
{
    let u = c as u32;
    48 <= u && u <= 57
}

/// Executable digit value.
fn dval(c: char) -> (n: u8)
    requires
        spec_is_digit(c),
    ensures
        n as int == digit_val(c),
{
    (c as u32 - 48) as u8
}

/// Parse the characters `v[from..to]` as a `YYYY-MM-DD` date token.
pub fn parse_date_chars(v: &Vec<char>, from: usize, to: usize) -> (r: Option<Date>)
    requires
        from <= to <= v@.len(),
    ensures
        r == parse_date(v@.subrange(from as int, to as int)),
{
    let ghost t = v@.subrange(from as int, to as int);
    if to - from != 10 {
        return None;
    }
    let ok = is_digit(v[from]) && is_digit(v[from + 1]) && is_digit(v[from + 2]) && is_digit(
        v[from + 3],
    ) && v[from + 4] == '-' && is_digit(v[from + 5]) && is_digit(v[from + 6]) && v[from + 7] == '-'
        && is_digit(v[from + 8]) && is_digit(v[from + 9]);
    if !ok {
        assert(!is_date_shaped(t));
        return None;
    }
    assert(is_date_shaped(t));
    let y: u16 = dval(v[from]) as u16 * 1000 + dval(v[from + 1]) as u16 * 100 + dval(
        v[from + 2],
    ) as u16 * 10 + dval(v[from + 3]) as u16;
    let m: u8 = dval(v[from + 5]) * 10 + dval(v[from + 6]);
    let d: u8 = dval(v[from + 8]) * 10 + dval(v[from + 9]);
    let date = Date { y, m, d };
    assert(date == date_of_token(t));
    if 1 <= m && m <= 12 && 1 <= d && d <= month_len(y, m) {
        Some(date)
    } else {
        assert(!date_of_token(t).wf());
        None
    }
}

} // verus!
