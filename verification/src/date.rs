use vstd::prelude::*;

verus! {

/// A calendar day, the granularity at which messages are filtered.
#[derive(Clone, Copy, PartialEq, Eq, Structural, Debug)]
pub struct Date {
    pub year: u16,
    pub month: u8,
    pub day: u8,
}

pub open spec fn leap_year(y: int) -> bool {
    y % 4 == 0 && (y % 100 != 0 || y % 400 == 0)
}

pub open spec fn days_in_month(y: int, m: int) -> int {
    if m == 2 {
        if leap_year(y) {
            29
        } else {
            28
        }
    } else if m == 4 || m == 6 || m == 9 || m == 11 {
        30
    } else {
        31
    }
}

/// Strict calendar order at day granularity.
pub open spec fn date_lt(a: Date, b: Date) -> bool {
    a.year < b.year || (a.year == b.year && (a.month < b.month || (a.month == b.month && a.day
        < b.day)))
}

/// Whether a message dated `d` passes an optional `since` cutoff: the
/// cutoff day itself is included, strictly earlier days are not.
pub open spec fn date_included(d: Date, since: Option<Date>) -> bool {
    match since {
        None => true,
        Some(s) => !date_lt(d, s),
    }
}

impl Date {
    /// The triple names a real calendar day.
    pub open spec fn valid(self) -> bool {
        1 <= self.month <= 12 && 1 <= self.day <= days_in_month(
            self.year as int,
            self.month as int,
        )
    }

    /// Builds a day from its parts, rejecting triples that name no real
    /// calendar day.
    pub fn new(year: u16, month: u8, day: u8) -> (r: Option<Date>)
        ensures
            r == (if (Date { year, month, day }).valid() {
                Some(Date { year, month, day })
            } else {
                None::<Date>
            }),
    {
        let d = Date { year, month, day };
        if month < 1 || month > 12 {
            return None;
        }
        let max_day: u8 = if month == 2 {
            if year % 4 == 0 && (year % 100 != 0 || year % 400 == 0) {
                29
            } else {
                28
            }
        } else if month == 4 || month == 6 || month == 9 || month == 11 {
            30
        } else {
            31
        };
        if day < 1 || day > max_day {
            return None;
        }
        Some(d)
    }

    /// Whether the triple names a real calendar day.
    pub fn is_valid(&self) -> (b: bool)
        ensures
            b == self.valid(),
    {
        let max_day: u8 = if self.month == 2 {
            if self.year % 4 == 0 && (self.year % 100 != 0 || self.year % 400 == 0) {
                29
            } else {
                28
            }
        } else if self.month == 4 || self.month == 6 || self.month == 9 || self.month == 11 {
            30
        } else {
            31
        };
        1 <= self.month && self.month <= 12 && 1 <= self.day && self.day <= max_day
    }

    /// Whether `self` lies strictly before `other` in calendar order.
    pub fn is_before(&self, other: &Date) -> (b: bool)
        ensures
            b == date_lt(*self, *other),
    {
        self.year < other.year || (self.year == other.year && (self.month < other.month || (
        self.month == other.month && self.day < other.day)))
    }
}

pub open spec fn digit_char(d: int) -> char {
    if d == 0 {
        '0'
    } else if d == 1 {
        '1'
    } else if d == 2 {
        '2'
    } else if d == 3 {
        '3'
    } else if d == 4 {
        '4'
    } else if d == 5 {
        '5'
    } else if d == 6 {
        '6'
    } else if d == 7 {
        '7'
    } else if d == 8 {
        '8'
    } else {
        '9'
    }
}

/// Two decimal digits, zero-padded, for month and day numbers.
pub open spec fn two_digit_chars(n: int) -> Seq<char> {
    seq![digit_char(n / 10), digit_char(n % 10)]
}

/// The year as printed in an output filename: zero-padded to four
/// digits, five digits when the year needs them.
pub open spec fn year_chars(y: int) -> Seq<char> {
    if y < 10000 {
        seq![
            digit_char(y / 1000),
            digit_char((y / 100) % 10),
            digit_char((y / 10) % 10),
            digit_char(y % 10),
        ]
    } else {
        seq![
            digit_char(y / 10000),
            digit_char((y / 1000) % 10),
            digit_char((y / 100) % 10),
            digit_char((y / 10) % 10),
            digit_char(y % 10),
        ]
    }
}

/// The day written as `YYYY-MM-DD`.
pub open spec fn date_chars(d: Date) -> Seq<char> {
    year_chars(d.year as int) + seq!['-'] + two_digit_chars(d.month as int) + seq!['-']
        + two_digit_chars(d.day as int)
}

fn digit_to_char(d: u16) -> (c: char)
    requires
        d < 10,
    ensures
        c == digit_char(d as int),
{
    if d == 0 {
        '0'
    } else if d == 1 {
        '1'
    } else if d == 2 {
        '2'
    } else if d == 3 {
        '3'
    } else if d == 4 {
        '4'
    } else if d == 5 {
        '5'
    } else if d == 6 {
        '6'
    } else if d == 7 {
        '7'
    } else if d == 8 {
        '8'
    } else {
        '9'
    }
}

fn push_two_digits(out: &mut Vec<char>, n: u8)
    requires
        n < 100,
    ensures
        final(out)@ == old(out)@ + two_digit_chars(n as int),
{
    out.push(digit_to_char((n / 10) as u16));
    out.push(digit_to_char((n % 10) as u16));
    proof {
        assert(final(out)@ =~= old(out)@ + two_digit_chars(n as int));
    }
}

/// Appends `YYYY-MM-DD` for a valid calendar day.
pub(crate) fn push_date_chars(out: &mut Vec<char>, d: Date)
    requires
        d.valid(),
    ensures
        final(out)@ == old(out)@ + date_chars(d),
{
    let y = d.year;
    if y < 10000 {
        out.push(digit_to_char(y / 1000));
        out.push(digit_to_char((y / 100) % 10));
        out.push(digit_to_char((y / 10) % 10));
        out.push(digit_to_char(y % 10));
    } else {
        out.push(digit_to_char(y / 10000));
        out.push(digit_to_char((y / 1000) % 10));
        out.push(digit_to_char((y / 100) % 10));
        out.push(digit_to_char((y / 10) % 10));
        out.push(digit_to_char(y % 10));
    }
    out.push('-');
    push_two_digits(out, d.month);
    out.push('-');
    push_two_digits(out, d.day);
    proof {
        assert(final(out)@ =~= old(out)@ + date_chars(d));
    }
}

} // verus!
