//! Calendar dates and timestamps as plain values, and their `%F` text
//! (`YYYY-MM-DD`), which the `time` crate writes and reads.

use vstd::prelude::*;
use crate::text::{int_text, zero_padded};

verus! {

/// Whether a year of the proleptic Gregorian calendar has a 29th of February.
pub open spec fn is_leap_year(year: int) -> bool {
    year % 4 == 0 && (year % 100 != 0 || year % 400 == 0)
}

/// The number of days of a month (1 to 12) of a year.
pub open spec fn days_in_month(year: int, month: int) -> int {
    if month == 2 {
        if is_leap_year(year) { 29 } else { 28 }
    } else if month == 4 || month == 6 || month == 9 || month == 11 {
        30
    } else {
        31
    }
}

/// A year is a leap year when four divides it, except the years that a
/// hundred divides and four hundred does not; February has 29 days exactly
/// in the leap years, April, June, September and November 30, the other
/// months 31.
pub proof fn lemma_month_lengths(year: int, month: int)
    requires
        1 <= month <= 12,
    ensures
        year % 4 != 0 ==> !is_leap_year(year),
        year % 4 == 0 && year % 100 != 0 ==> is_leap_year(year),
        year % 100 == 0 && year % 400 != 0 ==> !is_leap_year(year),
        year % 400 == 0 ==> is_leap_year(year),
        month == 2 ==> (days_in_month(year, month) == 29 <==> is_leap_year(year)),
        month == 2 ==> 28 <= days_in_month(year, month) <= 29,
        (month == 4 || month == 6 || month == 9 || month == 11) ==> days_in_month(year, month) == 30,
        (month == 1 || month == 3 || month == 5 || month == 7 || month == 8 || month == 10 || month
            == 12) ==> days_in_month(year, month) == 31,
{
}

/// The dates that the `time` crate can represent.
pub open spec fn valid_date(year: int, month: int, day: int) -> bool {
    &&& -100_000 <= year <= 100_000
    &&& 1 <= month <= 12
    &&& 1 <= day <= days_in_month(year, month)
}

/// The `%F` text of a date: the year in decimal, with `+` in front from the
/// year 10000 on, then the month and the day on two digits each.
pub open spec fn iso_date_text(year: int, month: int, day: int) -> Seq<char> {
    (if year >= 10_000 { seq!['+'] } else { Seq::<char>::empty() }) + int_text(year) + seq!['-']
        + zero_padded(month as nat, 2) + seq!['-'] + zero_padded(day as nat, 2)
}

/// What `time::Date::parse` with the format `%F` gives for a text: the year,
/// month and day of the date read, or the text of the parse error.
pub uninterp spec fn iso_date_parse(s: Seq<char>) -> Result<(int, int, int), Seq<char>>;

/// When the text is the `%F` text of a valid date, the result of reading it
/// is that date.
pub open spec fn reads_back_written_date(s: Seq<char>, r: Result<CalendarDate, String>) -> bool {
    forall|y: int, m: int, d: int|
        #![trigger iso_date_text(y, m, d)]
        valid_date(y, m, d) && s == iso_date_text(y, m, d) ==> (r matches Ok(dt) && dt.year == y
            && dt.month == m && dt.day == d)
}

/// A calendar date.
#[derive(Clone, Copy, Debug, PartialEq, Eq, Structural)]
pub struct CalendarDate {
    pub year: i32,
    pub month: u8,
    pub day: u8,
}

impl CalendarDate {
    /// The date exists and lies in the range that the `time` crate handles.
    pub open spec fn valid(&self) -> bool {
        valid_date(self.year as int, self.month as int, self.day as int)
    }

    /// The `%F` text of the date.
    pub open spec fn iso_text(&self) -> Seq<char> {
        iso_date_text(self.year as int, self.month as int, self.day as int)
    }

    /// Writes the date as `YYYY-MM-DD` (format `%F`).
    pub fn to_iso_string(&self) -> (r: String)
        requires
            self.valid(),
        ensures
            r@ == self.iso_text(),
    {
        format_iso_date(self.year, self.month, self.day)
    }

    /// Reads a date written as `YYYY-MM-DD` (format `%F`); on failure the
    /// error holds the parser's message. The text that `to_iso_string` writes
    /// of a valid date reads back as that date.
    pub fn parse_iso(s: &str) -> (r: Result<CalendarDate, String>)
        ensures
            match r {
                Ok(d) => {
                    &&& d.valid()
                    &&& iso_date_parse(s@) == Ok::<(int, int, int), Seq<char>>(
                        (d.year as int, d.month as int, d.day as int),
                    )
                },
                Err(e) => iso_date_parse(s@) == Err::<(int, int, int), Seq<char>>(e@),
            },
            reads_back_written_date(s@, r),
    {
        parse_iso_date(s)
    }
}

/// A date and a time of day, as the database stores when a match was seen.
#[derive(Clone, Copy, Debug, PartialEq, Eq, Structural)]
pub struct Timestamp {
    pub date: CalendarDate,
    pub hour: u8,
    pub minute: u8,
    pub second: u8,
    pub nanosecond: u32,
}

impl Timestamp {
    /// The date is valid and the time of day lies within one day.
    pub open spec fn valid(&self) -> bool {
        &&& self.date.valid()
        &&& self.hour < 24
        &&& self.minute < 60
        &&& self.second < 60
        &&& self.nanosecond < 1_000_000_000
    }
}

/// Formats a date through `time::Date::try_from_ymd` and `time::Date::format`
/// with `%F`. In the `time` source, `%F` writes the year with `{}` (after a
/// `+` when it is 10000 or more), a `-`, the month and the day each with
/// `{:02}`. A valid date is accepted by `try_from_ymd`, so nothing panics.
#[verifier::external_body]
fn format_iso_date(year: i32, month: u8, day: u8) -> (r: String)
    requires
        valid_date(year as int, month as int, day as int),
    ensures
        r@ == iso_date_text(year as int, month as int, day as int),
{
    time::Date::try_from_ymd(year, month, day).unwrap().format("%F")
}

/// Reads a date through `time::Date::parse` with `%F`. The contract claims
/// that the result is the one named `iso_date_parse` for this text, that a
/// date read is a valid date (every `time::Date` is), and that the `%F` text
/// of a valid date reads back as that date: in the `time` source, `%F` reads
/// an optional sign (`+` or `-`, then up to six digits, else up to four), a
/// `-`, two digits of month, a `-`, two digits of day, and builds the date
/// with `try_from_ymd`. What the parser does with other texts (extra
/// characters after the day, for one) is left unsaid.
#[verifier::external_body]
fn parse_iso_date(s: &str) -> (r: Result<CalendarDate, String>)
    ensures
        match r {
            Ok(d) => {
                &&& d.valid()
                &&& iso_date_parse(s@) == Ok::<(int, int, int), Seq<char>>(
                    (d.year as int, d.month as int, d.day as int),
                )
            },
            Err(e) => iso_date_parse(s@) == Err::<(int, int, int), Seq<char>>(e@),
        },
        reads_back_written_date(s@, r),
{
    match time::Date::parse(s, "%F") {
        Ok(d) => Ok(CalendarDate { year: d.year(), month: d.month(), day: d.day() }),
        Err(e) => Err(e.to_string()),
    }
}

} // verus!
