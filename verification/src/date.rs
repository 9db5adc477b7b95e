//! Local calendar dates and wall-clock timestamps, held as plain numbers,
//! with their fixed sortable textual forms.

use vstd::prelude::*;

verus! {

/// A local calendar date.
#[derive(Clone, Copy, Debug, PartialEq, Eq, Structural)]
pub struct Date {
    pub year: u16,
    pub month: u8,
    pub day: u8,
}

impl Date {
    /// A date the library renders: a four-digit year and in-range month and
    /// day numbers.
    pub open spec fn wf(self) -> bool {
        &&& 1 <= self.year <= 9999
        &&& 1 <= self.month <= 12
        &&& 1 <= self.day <= 31
    }
}

/// A local wall-clock timestamp.
#[derive(Clone, Copy, Debug, PartialEq, Eq, Structural)]
pub struct DateTime {
    pub date: Date,
    pub hour: u8,
    pub minute: u8,
    pub second: u8,
}

impl DateTime {
    pub open spec fn wf(self) -> bool {
        &&& self.date.wf()
        &&& self.hour <= 23
        &&& self.minute <= 59
        &&& self.second <= 59
    }
}

/// The ascii digit for a value below ten.
pub open spec fn digit_char(d: int) -> char
    recommends
        0 <= d < 10,
{
    (0x30 + d) as char
}

/// A number rendered as exactly two digits, zero-padded.
pub open spec fn two_digits(n: int) -> Seq<char> {
    seq![digit_char(n / 10 % 10), digit_char(n % 10)]
}

/// A number rendered as exactly four digits, zero-padded.
pub open spec fn four_digits(n: int) -> Seq<char> {
    seq![
        digit_char(n / 1000 % 10),
        digit_char(n / 100 % 10),
        digit_char(n / 10 % 10),
        digit_char(n % 10),
    ]
}

/// The fixed sortable date form `YYYY-MM-DD`.
pub open spec fn date_str(d: Date) -> Seq<char> {
    four_digits(d.year as int) + seq!['-'] + two_digits(d.month as int) + seq!['-'] + two_digits(
        d.day as int,
    )
}

/// The timestamp form `YYYY-MM-DDTHH:MM:SS`.
pub open spec fn datetime_str(dt: DateTime) -> Seq<char> {
    date_str(dt.date) + seq!['T'] + two_digits(dt.hour as int) + seq![':'] + two_digits(
        dt.minute as int,
    ) + seq![':'] + two_digits(dt.second as int)
}

fn push_digit(s: &mut String, d: u8)
    requires
        d < 10,
    ensures
        final(s)@ == old(s)@.push(digit_char(d as int)),
{
    let ghost entry = s@;
    proof {
        reveal_strlit("0");
        reveal_strlit("1");
        reveal_strlit("2");
        reveal_strlit("3");
        reveal_strlit("4");
        reveal_strlit("5");
        reveal_strlit("6");
        reveal_strlit("7");
        reveal_strlit("8");
        reveal_strlit("9");
    }
    if d == 0 {
        s.append("0");
    } else if d == 1 {
        s.append("1");
    } else if d == 2 {
        s.append("2");
    } else if d == 3 {
        s.append("3");
    } else if d == 4 {
        s.append("4");
    } else if d == 5 {
        s.append("5");
    } else if d == 6 {
        s.append("6");
    } else if d == 7 {
        s.append("7");
    } else if d == 8 {
        s.append("8");
    } else {
        s.append("9");
    }
    proof {
        assert(s@ =~= entry.push(digit_char(d as int)));
    }
}

/// Renders a date in the fixed sortable `YYYY-MM-DD` form.
pub fn format_date(d: &Date) -> (r: String)
    ensures
        r@ == date_str(*d),
{
    let mut r = String::new();
    push_digit(&mut r, (d.year / 1000 % 10) as u8);
    push_digit(&mut r, (d.year / 100 % 10) as u8);
    push_digit(&mut r, (d.year / 10 % 10) as u8);
    push_digit(&mut r, (d.year % 10) as u8);
    r.append("-");
    push_digit(&mut r, d.month / 10 % 10);
    push_digit(&mut r, d.month % 10);
    r.append("-");
    push_digit(&mut r, d.day / 10 % 10);
    push_digit(&mut r, d.day % 10);
    proof {
        reveal_strlit("-");
        assert(r@ =~= date_str(*d));
    }
    r
}

/// Renders a timestamp in the `YYYY-MM-DDTHH:MM:SS` form.
pub fn format_datetime(dt: &DateTime) -> (r: String)
    ensures
        r@ == datetime_str(*dt),
{
    let mut r = format_date(&dt.date);
    r.append("T");
    push_digit(&mut r, dt.hour / 10 % 10);
    push_digit(&mut r, dt.hour % 10);
    r.append(":");
    push_digit(&mut r, dt.minute / 10 % 10);
    push_digit(&mut r, dt.minute % 10);
    r.append(":");
    push_digit(&mut r, dt.second / 10 % 10);
    push_digit(&mut r, dt.second % 10);
    proof {
        reveal_strlit("T");
        reveal_strlit(":");
        assert(r@ =~= datetime_str(*dt));
    }
    r
}

/// Builds a timestamp from raw clock fields, accepting exactly the ranges
/// the library renders.
pub fn datetime_from_fields(year: i32, month: u32, day: u32, hour: u32, minute: u32, second: u32)
    -> (r: Option<DateTime>)
    ensures
        r is Some <==> {
            &&& 1 <= year <= 9999
            &&& 1 <= month <= 12
            &&& 1 <= day <= 31
            &&& hour <= 23
            &&& minute <= 59
            &&& second <= 59
        },
        r matches Some(dt) ==> {
            &&& dt.wf()
            &&& dt.date.year == year
            &&& dt.date.month == month
            &&& dt.date.day == day
            &&& dt.hour == hour
            &&& dt.minute == minute
            &&& dt.second == second
        },
{
    if 1 <= year && year <= 9999 && 1 <= month && month <= 12 && 1 <= day && day <= 31 && hour
        <= 23 && minute <= 59 && second <= 59 {
        Some(
            DateTime {
                date: Date { year: year as u16, month: month as u8, day: day as u8 },
                hour: hour as u8,
                minute: minute as u8,
                second: second as u8,
            },
        )
    } else {
        None
    }
}

/// Relies on `chrono::Local::now` for the current local wall-clock time and
/// on the `Datelike` and `Timelike` accessors of `chrono::NaiveDateTime` for
/// its fields: the month number is 1 to 12, the day of month is 1 to 31, the
/// hour is 0 to 23, and the minute and the second are each 0 to 59. Nothing
/// is promised of the year beyond its type. Relies also on the process
/// clock sitting at or after the Unix epoch: `chrono::Utc::now`, which
/// `Local::now` reads, panics for an earlier system clock.
#[verifier::external_body]
fn clock_now_fields() -> (r: (i32, u32, u32, u32, u32, u32))
    ensures
        1 <= r.1 <= 12,
        1 <= r.2 <= 31,
        r.3 <= 23,
        r.4 <= 59,
        r.5 <= 59,
{
    let now = chrono::Local::now().naive_local();
    (
        chrono::Datelike::year(&now),
        chrono::Datelike::month(&now),
        chrono::Datelike::day(&now),
        chrono::Timelike::hour(&now),
        chrono::Timelike::minute(&now),
        chrono::Timelike::second(&now),
    )
}

/// Reads the local clock. Whatever the clock reports, the result is a
/// well-formed timestamp; `None` comes only when the clock's year falls
/// outside the four-digit range the library renders.
pub fn current_datetime() -> (r: Option<DateTime>)
    ensures
        r matches Some(dt) ==> dt.wf(),
{
    let (year, month, day, hour, minute, second) = clock_now_fields();
    datetime_from_fields(year, month, day, hour, minute, second)
}

} // verus!
