//! Calendar facts about seconds counted from the Unix epoch: leap years,
//! month lengths, and the conversion from an epoch count to a calendar date.

pub mod error;

use crate::text::{dec_pad, dec_str, push_decimal, push_decimal_padded};
use vstd::prelude::*;
use vstd::string::*;

verus! {

/// Largest day count from the Unix epoch that the calendar conversion
/// accepts; it keeps the computed year well inside `u16`.
pub const MAX_EPOCH_DAYS: u64 = 23_000_000;

/// Largest second count from the Unix epoch that the calendar conversion
/// accepts.
pub const MAX_EPOCH_SECONDS: u64 = 86_400 * 23_000_000;

/// Months of the Gregorian calendar.
#[derive(Debug, Clone, Copy, PartialEq, Eq, Structural)]
pub enum Month {
    January,
    February,
    March,
    April,
    May,
    June,
    July,
    August,
    September,
    October,
    November,
    December,
}

/// The month's place in the year: 1 for January through 12 for December.
pub open spec fn month_number(m: Month) -> int {
    match m {
        Month::January => 1,
        Month::February => 2,
        Month::March => 3,
        Month::April => 4,
        Month::May => 5,
        Month::June => 6,
        Month::July => 7,
        Month::August => 8,
        Month::September => 9,
        Month::October => 10,
        Month::November => 11,
        Month::December => 12,
    }
}

impl Month {
    /// The month that follows this one, December wrapping to January.
    pub open spec fn spec_next_month(self) -> Month {
        match self {
            Month::January => Month::February,
            Month::February => Month::March,
            Month::March => Month::April,
            Month::April => Month::May,
            Month::May => Month::June,
            Month::June => Month::July,
            Month::July => Month::August,
            Month::August => Month::September,
            Month::September => Month::October,
            Month::October => Month::November,
            Month::November => Month::December,
            Month::December => Month::January,
        }
    }

    /// Steps to the next month, wrapping December around to January.
    pub fn next_month(&self) -> (m: Month)
        ensures
            m == self.spec_next_month(),
    {
        match self {
            Month::January => Month::February,
            Month::February => Month::March,
            Month::March => Month::April,
            Month::April => Month::May,
            Month::May => Month::June,
            Month::June => Month::July,
            Month::July => Month::August,
            Month::August => Month::September,
            Month::September => Month::October,
            Month::October => Month::November,
            Month::November => Month::December,
            Month::December => Month::January,
        }
    }

    /// The month's number, 1 through 12.
    pub fn number(&self) -> (n: u8)
        ensures
            n == month_number(*self),
    {
        match self {
            Month::January => 1,
            Month::February => 2,
            Month::March => 3,
            Month::April => 4,
            Month::May => 5,
            Month::June => 6,
            Month::July => 7,
            Month::August => 8,
            Month::September => 9,
            Month::October => 10,
            Month::November => 11,
            Month::December => 12,
        }
    }

    /// The month with the given number, or `InvalidMonthError` when the
    /// number is outside 1 through 12.
    pub fn try_from(value: u8) -> (r: Result<Month, InvalidMonthError>)
        ensures
            1 <= value <= 12 ==> (r matches Ok(m) && month_number(m) == value),
            !(1 <= value <= 12) ==> r is Err,
    {
        match value {
            1 => Ok(Month::January),
            2 => Ok(Month::February),
            3 => Ok(Month::March),
            4 => Ok(Month::April),
            5 => Ok(Month::May),
            6 => Ok(Month::June),
            7 => Ok(Month::July),
            8 => Ok(Month::August),
            9 => Ok(Month::September),
            10 => Ok(Month::October),
            11 => Ok(Month::November),
            12 => Ok(Month::December),
            _ => Err(InvalidMonthError),
        }
    }
}

/// Error for a month number outside 1 through 12.
#[derive(Debug, Clone, Copy, PartialEq, Eq, Structural)]
pub struct InvalidMonthError;

/// Whether `y` is a Gregorian leap year. Years before the calendar's
/// adoption in 1582 are never leap years.
pub open spec fn is_leap(y: int) -> bool {
    y >= 1582 && y % 4 == 0 && (y % 100 != 0 || y % 400 == 0)
}

/// Decides whether a year is a leap year; years before 1582 never are.
pub fn is_leap_year(year: u16) -> (r: bool)
    ensures
        r == is_leap(year as int),
{
    if year < 1582 || year % 4 != 0 {
        return false;
    }
    if year % 100 != 0 {
        return true;
    }
    year % 400 == 0
}

/// Days in the given month of the given year.
pub open spec fn spec_days_in_month(y: int, m: Month) -> int {
    match m {
        Month::January => 31,
        Month::February => if is_leap(y) { 29 } else { 28 },
        Month::March => 31,
        Month::April => 30,
        Month::May => 31,
        Month::June => 30,
        Month::July => 31,
        Month::August => 31,
        Month::September => 30,
        Month::October => 31,
        Month::November => 30,
        Month::December => 31,
    }
}

/// The number of days in a month of a given year.
pub fn days_in_month(year: u16, month: Month) -> (d: u8)
    ensures
        d == spec_days_in_month(year as int, month),
{
    match month {
        Month::January => 31,
        Month::February => {
            if is_leap_year(year) {
                29
            } else {
                28
            }
        },
        Month::March => 31,
        Month::April => 30,
        Month::May => 31,
        Month::June => 30,
        Month::July => 31,
        Month::August => 31,
        Month::September => 30,
        Month::October => 31,
        Month::November => 30,
        Month::December => 31,
    }
}

/// Days in the given year: 366 in a leap year, 365 otherwise.
pub open spec fn spec_days_in_year(y: int) -> int {
    if is_leap(y) {
        366
    } else {
        365
    }
}

/// Days between the start of 1970 and the start of year `y` (0 for 1970
/// itself and for earlier years).
pub open spec fn days_before_year(y: int) -> int
    decreases y - 1970,
{
    if y <= 1970 {
        0
    } else {
        days_before_year(y - 1) + spec_days_in_year(y - 1)
    }
}

/// Days between the start of year `y` and the first day of month `m`.
pub open spec fn days_before_month(y: int, m: Month) -> int {
    let feb: int = if is_leap(y) { 29 } else { 28 };
    match m {
        Month::January => 0,
        Month::February => 31,
        Month::March => 31 + feb,
        Month::April => 62 + feb,
        Month::May => 92 + feb,
        Month::June => 123 + feb,
        Month::July => 153 + feb,
        Month::August => 184 + feb,
        Month::September => 215 + feb,
        Month::October => 245 + feb,
        Month::November => 276 + feb,
        Month::December => 306 + feb,
    }
}

/// Every year from 1970 on contributes at least 365 days.
proof fn lemma_days_before_year_lower(y: int)
    requires
        y >= 1970,
    ensures
        days_before_year(y) >= 365 * (y - 1970),
    decreases y - 1970,
{
    if y > 1970 {
        lemma_days_before_year_lower(y - 1);
    }
}

/// Determines the year that contains the given day count from the Unix
/// epoch, together with the days left over once the earlier whole years
/// are taken out. The leftover count is zero only for the epoch day
/// itself; otherwise it runs from 1 up to the length of the found year.
pub fn year(epoch_days: u64) -> (r: (u16, u16))
    requires
        epoch_days <= MAX_EPOCH_DAYS,
    ensures
        r.0 >= 1970,
        days_before_year(r.0 as int) + r.1 == epoch_days,
        r.1 <= spec_days_in_year(r.0 as int),
        r.1 >= 1 || r.0 == 1970,
{
    let mut year: u16 = 1970;
    let mut remaining_days: u64 = epoch_days;
    loop
        invariant
            1970 <= year,
            days_before_year(year as int) + remaining_days == epoch_days,
            remaining_days >= 1 || year == 1970,
            epoch_days <= MAX_EPOCH_DAYS,
            days_before_year(year as int) >= 365 * (year as int - 1970),
        ensures
            1970 <= year,
            days_before_year(year as int) + remaining_days == epoch_days,
            remaining_days >= 1 || year == 1970,
            remaining_days <= spec_days_in_year(year as int),
        decreases remaining_days,
    {
        match is_leap_year(year) {
            false if remaining_days <= 365 => {
                break;
            },
            false => {
                remaining_days = remaining_days - 365;
            },
            true if remaining_days <= 366 => {
                break;
            },
            true => {
                remaining_days = remaining_days - 366;
            },
        };
        year = year + 1;
    }
    (year, remaining_days as u16)
}

/// Determines the month of `year` that contains the given day of the
/// year, together with the day inside that month. The in-month day is
/// zero only when the day of the year is zero; otherwise it runs from 1
/// up to the month's length.
pub fn month(year: u16, day_of_year: u16) -> (r: (Month, u8))
    requires
        day_of_year <= spec_days_in_year(year as int),
    ensures
        days_before_month(year as int, r.0) + r.1 == day_of_year,
        r.1 <= spec_days_in_month(year as int, r.0),
        r.1 >= 1 || r.0 == Month::January,
{
    let mut month = Month::January;
    let mut remaining_days: u16 = day_of_year;
    loop
        invariant
            days_before_month(year as int, month) + remaining_days == day_of_year,
            remaining_days >= 1 || month == Month::January,
            day_of_year <= spec_days_in_year(year as int),
        ensures
            days_before_month(year as int, month) + remaining_days == day_of_year,
            remaining_days >= 1 || month == Month::January,
            remaining_days <= spec_days_in_month(year as int, month),
        decreases 12 - month_number(month),
    {
        let days_in_month = days_in_month(year, month) as u16;
        if remaining_days <= days_in_month {
            break;
        }
        proof {
            // December always has enough days left to break.
            assert(month != Month::December);
        }
        remaining_days = remaining_days - days_in_month;
        month = month.next_month();
    }
    (month, remaining_days as u8)
}

/// A calendar date and time, derived from a count of seconds since the
/// Unix epoch.
#[derive(Debug, Clone, Copy)]
pub struct DateTime {
    /// Whole seconds since the Unix epoch.
    pub epoch_seconds: u64,
    /// Nanoseconds beyond the whole seconds, below one billion.
    pub epoch_sub_nanoseconds: u32,
    /// Whole days since the Unix epoch.
    pub epoch_days: u64,
    /// The calendar year.
    pub year: u16,
    /// Days of `year` that passed before this date, plus the current one.
    pub day_of_year: u16,
    /// The calendar month.
    pub month: Month,
    /// The day inside `month`.
    pub day: u8,
}

impl DateTime {
    /// The fields agree with one another: the day counts decompose the
    /// epoch second count into year, month and day.
    pub open spec fn wf(self) -> bool {
        &&& self.epoch_days == self.epoch_seconds as int / 86_400
        &&& self.year >= 1970
        &&& days_before_year(self.year as int) + self.day_of_year == self.epoch_days
        &&& self.day_of_year <= spec_days_in_year(self.year as int)
        &&& days_before_month(self.year as int, self.month) + self.day == self.day_of_year
        &&& self.day <= spec_days_in_month(self.year as int, self.month)
        &&& self.epoch_sub_nanoseconds < 1_000_000_000
    }

    /// Builds the date reached after the given seconds and nanoseconds
    /// from the Unix epoch.
    pub fn from_epoch(epoch_seconds: u64, epoch_sub_nanoseconds: u32) -> (dt: DateTime)
        requires
            epoch_seconds <= MAX_EPOCH_SECONDS,
            epoch_sub_nanoseconds < 1_000_000_000,
        ensures
            dt.wf(),
            dt.epoch_seconds == epoch_seconds,
            dt.epoch_sub_nanoseconds == epoch_sub_nanoseconds,
    {
        let epoch_days = epoch_seconds / 86_400;
        let (y, day_of_year) = year(epoch_days);
        let (m, day) = month(y, day_of_year);
        DateTime {
            epoch_seconds,
            epoch_sub_nanoseconds,
            epoch_days,
            year: y,
            day_of_year,
            month: m,
            day,
        }
    }

    /// Retrieves the current time. Clocks far past the supported range
    /// are clamped to its edge.
    pub fn now() -> (dt: DateTime)
        ensures
            dt.wf(),
    {
        let (secs, nanos) = system_epoch();
        let secs = if secs > MAX_EPOCH_SECONDS {
            MAX_EPOCH_SECONDS
        } else {
            secs
        };
        DateTime::from_epoch(secs, nanos)
    }

    /// The year.
    pub fn year(&self) -> (r: u16)
        ensures
            r == self.year,
    {
        self.year
    }

    /// The month.
    pub fn month(&self) -> (r: Month)
        ensures
            r == self.month,
    {
        self.month
    }

    /// The day.
    pub fn day(&self) -> (r: u8)
        ensures
            r == self.day,
    {
        self.day
    }

    /// The day of the year.
    pub fn day_of_year(&self) -> (r: u16)
        ensures
            r == self.day_of_year,
    {
        self.day_of_year
    }

    /// The date and time as text: the zero-padded date, the day of the
    /// year, and the raw epoch counts it was derived from.
    pub fn display_string(&self) -> (r: String)
        ensures
            r@ == dec_pad(self.year as int, 4) + "/"@ + dec_pad(month_number(self.month), 2)
                + "/"@ + dec_pad(self.day as int, 2) + ", Day "@ + dec_str(
                self.day_of_year as int,
            ) + ", ("@ + dec_str(self.epoch_seconds as int) + " sec "@ + dec_str(
                self.epoch_sub_nanoseconds as int,
            ) + " ns, day "@ + dec_str(self.epoch_days as int) + ", from epoch)"@,
    {
        let mut out = String::new();
        push_decimal_padded(&mut out, self.year as u64, 4);
        out.append("/");
        push_decimal_padded(&mut out, self.month.number() as u64, 2);
        out.append("/");
        push_decimal_padded(&mut out, self.day as u64, 2);
        out.append(", Day ");
        push_decimal(&mut out, self.day_of_year as u64);
        out.append(", (");
        push_decimal(&mut out, self.epoch_seconds);
        out.append(" sec ");
        push_decimal(&mut out, self.epoch_sub_nanoseconds as u64);
        out.append(" ns, day ");
        push_decimal(&mut out, self.epoch_days);
        out.append(", from epoch)");
        proof {
            assert(out@ =~= dec_pad(self.year as int, 4) + "/"@ + dec_pad(
                month_number(self.month),
                2,
            ) + "/"@ + dec_pad(self.day as int, 2) + ", Day "@ + dec_str(self.day_of_year as int)
                + ", ("@ + dec_str(self.epoch_seconds as int) + " sec "@ + dec_str(
                self.epoch_sub_nanoseconds as int,
            ) + " ns, day "@ + dec_str(self.epoch_days as int) + ", from epoch)"@);
        }
        out
    }

    /// Is it a leap year.
    pub fn is_leap_year(&self) -> (r: bool)
        ensures
            r == is_leap(self.year as int),
    {
        is_leap_year(self.year)
    }
}

/// Relies on `std::time::SystemTime::now` and `duration_since(UNIX_EPOCH)`:
/// whole seconds since the Unix epoch and the nanoseconds beyond them,
/// which std documents to lie below one billion. A clock before the epoch
/// is reported as the epoch itself.
#[verifier::external_body]
fn system_epoch() -> (r: (u64, u32))
    ensures
        r.1 < 1_000_000_000,
{
    match std::time::SystemTime::now().duration_since(std::time::UNIX_EPOCH) {
        Ok(d) => (d.as_secs(), d.subsec_nanos()),
        Err(_) => (0, 0),
    }
}

} // verus!
