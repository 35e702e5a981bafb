//! Date-times without a time zone, as the transcript writes them, and the
//! calendar arithmetic that is left to `chrono`.

use crate::calendar::{
    day_seconds, is_leap_year, lemma_order_is_instant_order, representable, Civil, MAX_YEAR,
    MIN_YEAR,
};
use chrono::{Datelike, NaiveDate, NaiveDateTime, TimeDelta, Timelike};
use vstd::prelude::*;

verus! {

/// A date and a time of day, to the second, without a time zone.
///
/// Every value is a second of a day of the proleptic Gregorian calendar, in
/// a year from [`MIN_YEAR`] to [`MAX_YEAR`]; its view is that [`Civil`]
/// date-time.
#[derive(Clone, Copy, Debug, PartialEq, Eq, Hash, Structural)]
pub struct DateTime {
    year: i32,
    month: u32,
    day: u32,
    hour: u32,
    minute: u32,
    second: u32,
}

impl View for DateTime {
    type V = Civil;

    closed spec fn view(&self) -> Civil {
        Civil {
            year: self.year as int,
            month: self.month as int,
            day: self.day as int,
            hour: self.hour as int,
            minute: self.minute as int,
            second: self.second as int,
        }
    }
}

/// Leap years repeat every 400 years.
proof fn lemma_leap_year_cycle(year: int, cycles: int)
    ensures
        is_leap_year(year + 400 * cycles) == is_leap_year(year),
{
    let shifted = year + 400 * cycles;
    assert(shifted % 4 == year % 4);
    assert(shifted % 100 == year % 100);
    assert(shifted % 400 == year % 400);
}

/// Whether `year` has a 29 February.
fn leap_year(year: i32) -> (r: bool)
    requires
        MIN_YEAR <= year <= MAX_YEAR,
    ensures
        r == is_leap_year(year as int),
{
    let shifted: u32 = (year + 262400) as u32;
    proof {
        lemma_leap_year_cycle(year as int, 656);
    }
    shifted % 4 == 0 && (shifted % 100 != 0 || shifted % 400 == 0)
}

/// Number of days in a month, for a month from 1 to 12.
fn month_length(year: i32, month: u32) -> (r: u32)
    requires
        MIN_YEAR <= year <= MAX_YEAR,
        1 <= month <= 12,
    ensures
        r == crate::calendar::days_in_month(year as int, month as int),
{
    if month == 2 {
        if leap_year(year) {
            29
        } else {
            28
        }
    } else if month == 4 || month == 6 || month == 9 || month == 11 {
        30
    } else {
        31
    }
}

impl DateTime {
    /// What holds of every `DateTime`: it is a second of a day of the
    /// calendar, in a year from [`MIN_YEAR`] to [`MAX_YEAR`].
    #[verifier::type_invariant]
    pub open spec fn wf(self) -> bool {
        representable(self@)
    }

    /// The date-time with the given fields, if they name a second of a day
    /// of the calendar in a year that a `DateTime` can hold.
    pub fn new(year: i32, month: u32, day: u32, hour: u32, minute: u32, second: u32) -> (r: Option<
        DateTime,
    >)
        ensures
            r is Some <==> representable(
                Civil {
                    year: year as int,
                    month: month as int,
                    day: day as int,
                    hour: hour as int,
                    minute: minute as int,
                    second: second as int,
                },
            ),
            r matches Some(d) ==> d@ == (Civil {
                year: year as int,
                month: month as int,
                day: day as int,
                hour: hour as int,
                minute: minute as int,
                second: second as int,
            }),
    {
        if year < MIN_YEAR || year > MAX_YEAR || month < 1 || month > 12 || day < 1 || hour >= 24
            || minute >= 60 || second >= 60 {
            return None;
        }
        if day > month_length(year, month) {
            return None;
        }
        Some(DateTime { year, month, day, hour, minute, second })
    }

    /// Whether `self` comes before `other`.
    pub fn is_before(&self, other: &DateTime) -> (r: bool)
        ensures
            r == (self@.instant() < other@.instant()),
            representable(self@),
            representable(other@),
    {
        proof {
            use_type_invariant(self);
            use_type_invariant(other);
            lemma_order_is_instant_order(self@, other@);
        }
        if self.year != other.year {
            self.year < other.year
        } else if self.month != other.month {
            self.month < other.month
        } else if self.day != other.day {
            self.day < other.day
        } else if self.hour != other.hour {
            self.hour < other.hour
        } else if self.minute != other.minute {
            self.minute < other.minute
        } else {
            self.second < other.second
        }
    }

    /// Midnight at the start of the same day.
    pub fn midnight(&self) -> (r: DateTime)
        ensures
            r@ == self@.midnight(),
            representable(r@),
    {
        proof {
            use_type_invariant(self);
        }
        DateTime { year: self.year, month: self.month, day: self.day, hour: 0, minute: 0, second: 0 }
    }

    /// Midnight at the start of the first day of the same month.
    pub fn month_start(&self) -> (r: DateTime)
        ensures
            r@ == self@.month_start(),
            representable(r@),
    {
        proof {
            use_type_invariant(self);
        }
        DateTime { year: self.year, month: self.month, day: 1, hour: 0, minute: 0, second: 0 }
    }

    /// Midnight at the start of 1 January of `year`.
    pub fn year_start(year: i32) -> (r: DateTime)
        requires
            MIN_YEAR <= year <= MAX_YEAR,
        ensures
            r@ == Civil::year_start(year as int),
            representable(r@),
    {
        DateTime { year, month: 1, day: 1, hour: 0, minute: 0, second: 0 }
    }

    /// Days elapsed since the Monday of the same week: 0 for a Monday, 6
    /// for a Sunday.
    pub fn days_from_monday(&self) -> (r: u32)
        ensures
            r == self@.days_from_monday(),
            r < 7,
    {
        proof {
            use_type_invariant(self);
        }
        match weekday_from_monday(self) {
            Some(n) => n,
            None => vstd::pervasive::unreached(),
        }
    }

    /// The same time of day `days` days later (earlier, for a negative
    /// count), or `None` where that day lies outside the years that a
    /// `DateTime` can hold.
    pub fn plus_days(&self, days: i64) -> (r: Option<DateTime>)
        ensures
            r is Some <==> representable(self@.plus_days(days as int)),
            r matches Some(t) ==> t@ == self@.plus_days(days as int),
    {
        proof {
            use_type_invariant(self);
        }
        add_days(self, days)
    }

    /// Seconds from `earlier` to `self`; negative where `self` comes first.
    pub fn seconds_since(&self, earlier: &DateTime) -> (r: i64)
        ensures
            r == self@.instant() - earlier@.instant(),
    {
        proof {
            use_type_invariant(self);
            use_type_invariant(earlier);
        }
        match seconds_between(self, earlier) {
            Some(n) => n,
            None => vstd::pervasive::unreached(),
        }
    }

    /// The date-time written as `chrono` displays it, such as
    /// `2019-09-11 01:57:17`.
    pub fn to_string(&self) -> (r: String)
        ensures
            r@ == displayed_datetime(self@),
    {
        proof {
            use_type_invariant(self);
        }
        match display(self) {
            Some(s) => s,
            None => vstd::pervasive::unreached(),
        }
    }

    /// The year.
    pub fn year(&self) -> (r: i32)
        ensures
            r == self@.year,
            representable(self@),
    {
        proof {
            use_type_invariant(self);
        }
        self.year
    }

    /// The month, from 1 to 12.
    pub fn month(&self) -> (r: u32)
        ensures
            r == self@.month,
            representable(self@),
    {
        proof {
            use_type_invariant(self);
        }
        self.month
    }

    /// The day of the month, from 1.
    pub fn day(&self) -> (r: u32)
        ensures
            r == self@.day,
            representable(self@),
    {
        proof {
            use_type_invariant(self);
        }
        self.day
    }

    /// The hour of the day, from 0 to 23.
    pub fn hour(&self) -> (r: u32)
        ensures
            r == self@.hour,
            representable(self@),
    {
        proof {
            use_type_invariant(self);
        }
        self.hour
    }

    /// The minute of the hour, from 0 to 59.
    pub fn minute(&self) -> (r: u32)
        ensures
            r == self@.minute,
            representable(self@),
    {
        proof {
            use_type_invariant(self);
        }
        self.minute
    }

    /// The second of the minute, from 0 to 59.
    pub fn second(&self) -> (r: u32)
        ensures
            r == self@.second,
            representable(self@),
    {
        proof {
            use_type_invariant(self);
        }
        self.second
    }
}

/// A span of time in whole seconds; negative where the end comes before the
/// start.
#[derive(Clone, Copy, Debug, PartialEq, Eq, Hash, Structural)]
pub struct Duration {
    pub seconds: i64,
}

impl Duration {
    /// The number of whole days in a span of `seconds` seconds, rounded
    /// towards zero.
    pub open spec fn whole_days(seconds: int) -> int {
        if seconds >= 0 {
            seconds / day_seconds()
        } else {
            -((-seconds) / day_seconds())
        }
    }

    /// The span of `days` days.
    pub fn days(days: u32) -> (r: Duration)
        ensures
            r.seconds == days * day_seconds(),
    {
        Duration { seconds: (days as i64) * 86400 }
    }

    /// The span in seconds.
    pub fn num_seconds(&self) -> (r: i64)
        ensures
            r == self.seconds,
    {
        self.seconds
    }

    /// The number of whole days in the span, rounded towards zero.
    pub fn num_days(&self) -> (r: i64)
        ensures
            r == Self::whole_days(self.seconds as int),
    {
        if self.seconds >= 0 {
            self.seconds / 86400
        } else {
            let magnitude: u64 = (-(self.seconds + 1)) as u64 + 1;
            -((magnitude / 86400) as i64)
        }
    }
}

/// What `chrono` reads out of `text` under the strftime-style `format`: the
/// parsed date-time, or `None` where `chrono` rejects the text.
pub uninterp spec fn parsed_datetime(text: Seq<char>, format: Seq<char>) -> Option<Civil>;

/// How `chrono` writes a date-time out (`2019-09-11 01:57:17`).
pub uninterp spec fn displayed_datetime(c: Civil) -> Seq<char>;

/// Calls `chrono::NaiveDateTime::parse_from_str` and copies the fields of
/// what it returns (`Datelike::year`, `month`, `day`; `Timelike::hour`,
/// `minute`, `second`). The result is whatever `chrono` reads out of the
/// text, named and not described; it is always a second of a day that a
/// `DateTime` can hold. A leap second (`:60`) comes back as second 59.
#[verifier::external_body]
pub(crate) fn parse_with_format(text: &str, format: &str) -> (r: Option<DateTime>)
    ensures
        r matches Some(d) ==> representable(d@),
        match r {
            Some(d) => parsed_datetime(text@, format@) == Some(d@),
            None => parsed_datetime(text@, format@) is None,
        },
{
    let t = match NaiveDateTime::parse_from_str(text, format) {
        Ok(t) => t,
        Err(_) => return None,
    };
    let (year, month, day) = (t.year(), t.month(), t.day());
    let (hour, minute, second) = (t.hour(), t.minute(), t.second());
    Some(DateTime { year, month, day, hour, minute, second })
}

/// Makes the `chrono` date of the fields (`NaiveDate::from_ymd_opt`) and
/// calls `Datelike::weekday` and `Weekday::num_days_from_monday` on it: the
/// number of days since the Monday of the week, which the calendar fixes as
/// the day number less one, modulo 7 (day 1 is a Monday). The date of a
/// `DateTime` is always one that `chrono` can make.
#[verifier::external_body]
fn weekday_from_monday(d: &DateTime) -> (r: Option<u32>)
    requires
        representable(d@),
    ensures
        match r {
            Some(n) => n == d@.days_from_monday(),
            None => false,
        },
{
    Some(NaiveDate::from_ymd_opt(d.year, d.month, d.day)?.weekday().num_days_from_monday())
}

/// Makes the `chrono` date-time of the fields (`NaiveDate::from_ymd_opt`,
/// `NaiveDate::and_hms_opt`) and calls `NaiveDateTime::checked_add_signed`
/// on it with a span of whole days (`TimeDelta::try_days`). The result is
/// the same time of day `days` days later (or earlier, for a negative
/// count); `None` means that this day lies outside the years that `chrono`,
/// and so a `DateTime`, can hold.
#[verifier::external_body]
fn add_days(d: &DateTime, days: i64) -> (r: Option<DateTime>)
    requires
        representable(d@),
    ensures
        match r {
            Some(t) => representable(t@) && t@ == d@.plus_days(days as int),
            None => !representable(d@.plus_days(days as int)),
        },
{
    let from = NaiveDate::from_ymd_opt(d.year, d.month, d.day)?;
    let from = from.and_hms_opt(d.hour, d.minute, d.second)?;
    let t = from.checked_add_signed(TimeDelta::try_days(days)?)?;
    let (year, month, day) = (t.year(), t.month(), t.day());
    let (hour, minute, second) = (t.hour(), t.minute(), t.second());
    Some(DateTime { year, month, day, hour, minute, second })
}

/// Makes the `chrono` date-times of the fields (`NaiveDate::from_ymd_opt`,
/// `NaiveDate::and_hms_opt`) and calls `NaiveDateTime::signed_duration_since`
/// and `TimeDelta::num_seconds`: the number of seconds from `earlier` to
/// `later`, negative where `later` comes first. Any two date-times that
/// `chrono` holds are fewer seconds apart than an `i64` can count.
#[verifier::external_body]
fn seconds_between(later: &DateTime, earlier: &DateTime) -> (r: Option<i64>)
    requires
        representable(later@),
        representable(earlier@),
    ensures
        match r {
            Some(n) => n == later@.instant() - earlier@.instant(),
            None => false,
        },
{
    let a = NaiveDate::from_ymd_opt(later.year, later.month, later.day)?;
    let a = a.and_hms_opt(later.hour, later.minute, later.second)?;
    let b = NaiveDate::from_ymd_opt(earlier.year, earlier.month, earlier.day)?;
    let b = b.and_hms_opt(earlier.hour, earlier.minute, earlier.second)?;
    Some(a.signed_duration_since(b).num_seconds())
}

/// Makes the `chrono` date-time of the fields (`NaiveDate::from_ymd_opt`,
/// `NaiveDate::and_hms_opt`) and formats it through its `Display`. The
/// result is named, not described.
#[verifier::external_body]
fn display(d: &DateTime) -> (r: Option<String>)
    requires
        representable(d@),
    ensures
        match r {
            Some(s) => s@ == displayed_datetime(d@),
            None => false,
        },
{
    let t = NaiveDate::from_ymd_opt(d.year, d.month, d.day)?;
    let t = t.and_hms_opt(d.hour, d.minute, d.second)?;
    Some(format!("{}", t))
}

} // verus!
