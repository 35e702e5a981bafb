//! The proleptic Gregorian calendar as a mathematical model: day counts,
//! civil date-times and the facts about them that the timeline relies on.

use vstd::prelude::*;

verus! {

/// The earliest year that a [`DateTime`](crate::datetime::DateTime) can
/// hold: the earliest year of a date of `chrono`.
pub const MIN_YEAR: i32 = -262143;

/// The latest year that a [`DateTime`](crate::datetime::DateTime) can hold:
/// the latest year of a date of `chrono`.
pub const MAX_YEAR: i32 = 262142;

/// Seconds in one civil day.
pub open spec fn day_seconds() -> int {
    86400
}

/// Whether `year` has a 29 February.
pub open spec fn is_leap_year(year: int) -> bool {
    year % 4 == 0 && (year % 100 != 0 || year % 400 == 0)
}

/// Number of days in `year`.
pub open spec fn days_in_year(year: int) -> int {
    if is_leap_year(year) {
        366
    } else {
        365
    }
}

/// Number of days in month `month` (1 to 12) of `year`.
pub open spec fn days_in_month(year: int, month: int) -> int {
    if month == 2 {
        if is_leap_year(year) {
            29
        } else {
            28
        }
    } else if month == 4 || month == 6 || month == 9 || month == 11 {
        30
    } else {
        31
    }
}

/// Number of days of `year` that precede the first day of `month`.
pub open spec fn days_before_month(year: int, month: int) -> int {
    let leap: int = if is_leap_year(year) && month > 2 {
        1
    } else {
        0
    };
    leap + if month <= 1 {
        0int
    } else if month == 2 {
        31
    } else if month == 3 {
        59
    } else if month == 4 {
        90
    } else if month == 5 {
        120
    } else if month == 6 {
        151
    } else if month == 7 {
        181
    } else if month == 8 {
        212
    } else if month == 9 {
        243
    } else if month == 10 {
        273
    } else if month == 11 {
        304
    } else {
        334
    }
}

/// Number of days between 1 January of year 1 and 1 January of `year`
/// (negative for years before year 1).
pub open spec fn days_before_year(year: int) -> int {
    365 * (year - 1) + (year - 1) / 4 - (year - 1) / 100 + (year - 1) / 400
}

/// Whether `(year, month, day)` names a day of the calendar.
pub open spec fn is_date(year: int, month: int, day: int) -> bool {
    1 <= month <= 12 && 1 <= day <= days_in_month(year, month)
}

/// The running number of a day, counted so that 1 January of year 1 is day 1.
pub open spec fn day_number(year: int, month: int, day: int) -> int {
    days_before_year(year) + days_before_month(year, month) + day
}

/// Each month begins where the previous one ends.
pub proof fn lemma_month_steps(year: int, month: int)
    requires
        1 <= month <= 12,
    ensures
        days_before_month(year, month) + days_in_month(year, month) == if month < 12 {
            days_before_month(year, month + 1)
        } else {
            days_in_year(year)
        },
{
}

/// How the quotient by 4 moves from one integer to the next.
proof fn lemma_quotient_step_4(x: int)
    ensures
        x / 4 - (x - 1) / 4 == if x % 4 == 0 {
            1int
        } else {
            0int
        },
{
}

/// How the quotient by 100 moves from one integer to the next.
proof fn lemma_quotient_step_100(x: int)
    ensures
        x / 100 - (x - 1) / 100 == if x % 100 == 0 {
            1int
        } else {
            0int
        },
        x % 100 == 0 ==> x % 4 == 0,
{
}

/// How the quotient by 400 moves from one integer to the next.
proof fn lemma_quotient_step_400(x: int)
    ensures
        x / 400 - (x - 1) / 400 == if x % 400 == 0 {
            1int
        } else {
            0int
        },
        x % 400 == 0 ==> x % 100 == 0,
{
}

/// Each year begins where the previous one ends.
pub proof fn lemma_year_steps(year: int)
    ensures
        days_before_year(year + 1) == days_before_year(year) + days_in_year(year),
{
    lemma_quotient_step_4(year);
    lemma_quotient_step_100(year);
    lemma_quotient_step_400(year);
}

/// The first days of two years lie at least 365, and at most 366, days apart
/// for every year between them.
pub proof fn lemma_year_starts_apart(from: int, to: int)
    requires
        from <= to,
    ensures
        365 * (to - from) <= days_before_year(to) - days_before_year(from) <= 366 * (to - from),
    decreases to - from,
{
    if from < to {
        lemma_year_starts_apart(from, to - 1);
        lemma_year_steps(to - 1);
    }
}

/// A civil date and time of day: the mathematical value of a [`DateTime`].
pub struct Civil {
    pub year: int,
    pub month: int,
    pub day: int,
    pub hour: int,
    pub minute: int,
    pub second: int,
}

impl Civil {
    /// Whether the fields name a day of the calendar and a second of that day.
    pub open spec fn valid(self) -> bool {
        &&& is_date(self.year, self.month, self.day)
        &&& 0 <= self.hour < 24
        &&& 0 <= self.minute < 60
        &&& 0 <= self.second < 60
    }

    /// The running number of the day (1 January of year 1 is day 1).
    pub open spec fn day_number(self) -> int {
        day_number(self.year, self.month, self.day)
    }

    /// Seconds elapsed since midnight.
    pub open spec fn second_of_day(self) -> int {
        self.hour * 3600 + self.minute * 60 + self.second
    }

    /// Seconds elapsed since midnight before day 1: the position of the
    /// date-time on the time line. Earlier date-times have smaller instants.
    pub open spec fn instant(self) -> int {
        self.day_number() * day_seconds() + self.second_of_day()
    }

    /// Days elapsed since the Monday of the same week (0 for a Monday).
    pub open spec fn days_from_monday(self) -> int {
        (self.day_number() - 1) % 7
    }

    /// Midnight at the start of the same day.
    pub open spec fn midnight(self) -> Civil {
        Civil { hour: 0, minute: 0, second: 0, ..self }
    }

    /// Midnight at the start of the first day of the same month.
    pub open spec fn month_start(self) -> Civil {
        Civil { day: 1, hour: 0, minute: 0, second: 0, ..self }
    }

    /// Midnight at the start of 1 January of `year`.
    pub open spec fn year_start(year: int) -> Civil {
        Civil { year, month: 1, day: 1, hour: 0, minute: 0, second: 0 }
    }

    /// The same time of day, `days` days later (earlier, for a negative
    /// count).
    pub open spec fn plus_days(self, days: int) -> Civil {
        let date = day_at(self.day_number() + days);
        Civil { hour: self.hour, minute: self.minute, second: self.second, ..date }
    }

    /// Whether `self` comes before `other` when the fields are compared from
    /// the year down to the second.
    pub open spec fn precedes(self, other: Civil) -> bool {
        ||| self.year < other.year
        ||| self.year == other.year && self.month < other.month
        ||| self.year == other.year && self.month == other.month && self.day < other.day
        ||| self.year == other.year && self.month == other.month && self.day == other.day
            && self.second_of_day() < other.second_of_day()
    }
}

/// Whether a civil date-time is one that a
/// [`DateTime`](crate::datetime::DateTime) can hold: a second of a day of the
/// calendar, in a year from [`MIN_YEAR`] to [`MAX_YEAR`].
pub open spec fn representable(c: Civil) -> bool {
    c.valid() && MIN_YEAR <= c.year <= MAX_YEAR
}

/// A day lies within its year.
pub proof fn lemma_day_within_year(year: int, month: int, day: int)
    requires
        is_date(year, month, day),
    ensures
        days_before_year(year) < day_number(year, month, day) <= days_before_year(year + 1),
        1 <= days_before_month(year, month) + day <= days_in_year(year),
{
    lemma_year_steps(year);
}

/// Comparing two date-times field by field agrees with comparing their
/// instants.
pub proof fn lemma_order_is_instant_order(a: Civil, b: Civil)
    requires
        a.valid(),
        b.valid(),
    ensures
        a.precedes(b) <==> a.instant() < b.instant(),
        a == b <==> a.instant() == b.instant(),
{
    lemma_day_within_year(a.year, a.month, a.day);
    lemma_day_within_year(b.year, b.month, b.day);
    if a.year < b.year {
        lemma_year_starts_apart(a.year + 1, b.year);
    } else if b.year < a.year {
        lemma_year_starts_apart(b.year + 1, a.year);
    } else if a.month < b.month {
        lemma_months_apart(a.year, a.month, b.month);
    } else if b.month < a.month {
        lemma_months_apart(a.year, b.month, a.month);
    }
}

/// A later month of the same year begins after the earlier month has ended.
pub proof fn lemma_months_apart(year: int, earlier: int, later: int)
    requires
        1 <= earlier < later <= 12,
    ensures
        days_before_month(year, earlier) + days_in_month(year, earlier) <= days_before_month(
            year,
            later,
        ),
{
}

/// The day after a day of the calendar.
pub open spec fn next_day(c: Civil) -> Civil {
    if c.day < days_in_month(c.year, c.month) {
        Civil { day: c.day + 1, ..c }
    } else if c.month < 12 {
        Civil { month: c.month + 1, day: 1, ..c }
    } else {
        Civil { year: c.year + 1, month: 1, day: 1, ..c }
    }
}

/// The day before a day of the calendar.
pub open spec fn previous_day(c: Civil) -> Civil {
    if c.day > 1 {
        Civil { day: c.day - 1, ..c }
    } else if c.month > 1 {
        Civil { month: c.month - 1, day: days_in_month(c.year, c.month - 1), ..c }
    } else {
        Civil { year: c.year - 1, month: 12, day: 31, ..c }
    }
}

/// The neighbours of a day are days of the calendar, one day number away.
pub proof fn lemma_neighbour_days(c: Civil)
    requires
        c.valid(),
    ensures
        next_day(c).valid(),
        next_day(c).day_number() == c.day_number() + 1,
        next_day(c).second_of_day() == c.second_of_day(),
        previous_day(c).valid(),
        previous_day(c).day_number() == c.day_number() - 1,
        previous_day(c).second_of_day() == c.second_of_day(),
{
    lemma_month_steps(c.year, c.month);
    lemma_year_steps(c.year);
    lemma_year_steps(c.year - 1);
    if c.month > 1 {
        lemma_month_steps(c.year, c.month - 1);
    }
}

/// Midnight at the start of the day whose running number is `n`.
pub open spec fn day_at(n: int) -> Civil {
    choose|c: Civil| #[trigger] c.valid() && c == c.midnight() && c.day_number() == n
}

/// Every running number belongs to exactly one day of the calendar.
pub proof fn lemma_day_at(n: int)
    ensures
        day_at(n).valid(),
        day_at(n) == day_at(n).midnight(),
        day_at(n).day_number() == n,
        forall|c: Civil| #[trigger] c.valid() && c.day_number() == n ==> c.midnight() == day_at(n),
    decreases
        if n >= 1 {
            n - 1
        } else {
            1 - n
        },
{
    let first = Civil { year: 1, month: 1, day: 1, hour: 0, minute: 0, second: 0 };
    let witness = if n == 1 {
        first
    } else if n > 1 {
        lemma_day_at(n - 1);
        lemma_neighbour_days(day_at(n - 1));
        next_day(day_at(n - 1))
    } else {
        lemma_day_at(n + 1);
        lemma_neighbour_days(day_at(n + 1));
        previous_day(day_at(n + 1))
    };
    assert(witness.valid() && witness == witness.midnight() && witness.day_number() == n);
    assert forall|c: Civil| #[trigger] c.valid() && c.day_number() == n implies c.midnight()
        == day_at(n) by {
        lemma_order_is_instant_order(c.midnight(), day_at(n));
    }
}

/// Moving by whole days keeps the time of day and moves the day number, and
/// with it the instant, by as much.
pub proof fn lemma_plus_days(c: Civil, days: int)
    requires
        c.valid(),
    ensures
        c.plus_days(days).valid(),
        c.plus_days(days).day_number() == c.day_number() + days,
        c.plus_days(days).second_of_day() == c.second_of_day(),
        c.plus_days(days).instant() == c.instant() + days * day_seconds(),
        c.plus_days(0) == c,
{
    lemma_day_at(c.day_number() + days);
    lemma_day_at(c.day_number());
}

} // verus!
