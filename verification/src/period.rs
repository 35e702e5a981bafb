//! Period kinds, and where each of them cuts the time line into buckets.

use crate::calendar::{
    day_at, day_seconds, lemma_day_at, lemma_day_within_year, lemma_order_is_instant_order,
    lemma_plus_days, lemma_year_steps, representable, Civil, MAX_YEAR,
};
use crate::datetime::{DateTime, Duration};
use vstd::prelude::*;

verus! {

/// The period that one bucket of a timeline covers.
#[derive(Clone, Copy, Debug, PartialEq, Eq, Hash, Structural)]
pub enum TimelineType {
    Daily,
    Weekly,
    Monthly,
    Yearly,
}

impl TimelineType {
    /// The nominal length of a period in days. It is what an average is
    /// taken over, and the step from a bucket's start into the next bucket;
    /// it is not the length of the bucket itself.
    pub open spec fn nominal_days(self) -> int {
        match self {
            TimelineType::Daily => 1,
            TimelineType::Weekly => 7,
            TimelineType::Monthly => 31,
            TimelineType::Yearly => 365,
        }
    }

    /// The start of the bucket that a date-time is assigned to: midnight of
    /// the same day; of the Monday of the same week; of the first of the
    /// same month; of 1 January of the same year, or of the next year for a
    /// date-time in December.
    pub open spec fn bucket_start(self, c: Civil) -> Civil {
        match self {
            TimelineType::Daily => c.midnight(),
            TimelineType::Weekly => day_at(c.day_number() - c.days_from_monday()),
            TimelineType::Monthly => c.month_start(),
            TimelineType::Yearly => Civil::year_start(
                if c.month == 12 {
                    c.year + 1
                } else {
                    c.year
                },
            ),
        }
    }

    /// The start of the bucket that follows the one starting at `start`: the
    /// nominal length is added and the sum is aligned again.
    pub open spec fn bucket_end(self, start: Civil) -> Civil {
        self.bucket_start(start.plus_days(self.nominal_days()))
    }

    /// The name of the period kind, in lower case.
    pub open spec fn name(self) -> Seq<char> {
        match self {
            TimelineType::Daily => "daily"@,
            TimelineType::Weekly => "weekly"@,
            TimelineType::Monthly => "monthly"@,
            TimelineType::Yearly => "yearly"@,
        }
    }

    /// The nominal length of the period in days.
    pub fn as_days(&self) -> (r: u32)
        ensures
            r == self.nominal_days(),
    {
        match self {
            TimelineType::Daily => 1,
            TimelineType::Weekly => 7,
            TimelineType::Monthly => 31,
            TimelineType::Yearly => 365,
        }
    }

    /// The nominal length of the period as a span of time.
    pub fn duration(&self) -> (r: Duration)
        ensures
            r.seconds == self.nominal_days() * day_seconds(),
    {
        Duration::days(self.as_days())
    }

    /// Whether the bucket that `date` is assigned to starts within the years
    /// that a date-time can hold.
    pub fn can_start(&self, date: &DateTime) -> (r: bool)
        ensures
            r == representable(self.bucket_start(date@)),
    {
        match self {
            TimelineType::Daily | TimelineType::Monthly => {
                proof {
                    use_type_invariant(date);
                }
                true
            },
            TimelineType::Weekly => {
                let back: u32 = date.days_from_monday();
                let day = date.midnight();
                proof {
                    use_type_invariant(date);
                    lemma_week_start(date@);
                }
                day.plus_days(-(back as i64)).is_some()
            },
            TimelineType::Yearly => date.month() != 12 || date.year() < MAX_YEAR,
        }
    }

    /// The start of the bucket that `date` is assigned to.
    pub fn start_of(&self, date: &DateTime) -> (r: DateTime)
        requires
            representable(self.bucket_start(date@)),
        ensures
            r@ == self.bucket_start(date@),
    {
        match self {
            TimelineType::Daily => date.midnight(),
            TimelineType::Weekly => {
                let back: u32 = date.days_from_monday();
                let day = date.midnight();
                proof {
                    use_type_invariant(date);
                    lemma_week_start(date@);
                }
                match day.plus_days(-(back as i64)) {
                    Some(r) => r,
                    None => vstd::pervasive::unreached(),
                }
            },
            TimelineType::Monthly => date.month_start(),
            TimelineType::Yearly => {
                let year: i32 = if date.month() == 12 {
                    date.year() + 1
                } else {
                    date.year()
                };
                DateTime::year_start(year)
            },
        }
    }

    /// The name of the period kind, in lower case.
    pub fn to_string(&self) -> (r: String)
        ensures
            r@ == self.name(),
    {
        match self {
            TimelineType::Daily => "daily".to_owned(),
            TimelineType::Weekly => "weekly".to_owned(),
            TimelineType::Monthly => "monthly".to_owned(),
            TimelineType::Yearly => "yearly".to_owned(),
        }
    }
}

/// The week of a date-time starts as many days before the midnight of its
/// day as that day is after Monday.
proof fn lemma_week_start(c: Civil)
    requires
        c.valid(),
    ensures
        c.midnight().plus_days(-c.days_from_monday()) == TimelineType::Weekly.bucket_start(c),
{
    lemma_day_at(c.day_number() - c.days_from_monday());
}

/// The start of a bucket is a second of a day of the calendar.
pub proof fn lemma_bucket_start_valid(kind: TimelineType, c: Civil)
    requires
        c.valid(),
    ensures
        kind.bucket_start(c).valid(),
        kind.bucket_start(c).second_of_day() == 0,
{
    lemma_day_at(c.day_number() - c.days_from_monday());
}

/// Aligning twice is aligning once.
pub proof fn law_start_of_idempotent(kind: TimelineType, c: Civil)
    requires
        c.valid(),
    ensures
        kind.bucket_start(kind.bucket_start(c)) == kind.bucket_start(c),
{
    if kind == TimelineType::Weekly {
        let monday = c.day_number() - c.days_from_monday();
        lemma_day_at(monday);
        assert((monday - 1) % 7 == 0);
    }
}

/// A date-time is never before the start of its bucket, except that the
/// yearly period assigns December to the year that follows.
pub proof fn law_start_of_not_after(kind: TimelineType, c: Civil)
    requires
        c.valid(),
        !(kind == TimelineType::Yearly && c.month == 12),
    ensures
        kind.bucket_start(c).instant() <= c.instant(),
{
    lemma_bucket_start_valid(kind, c);
    match kind {
        TimelineType::Weekly => {
            lemma_day_at(c.day_number() - c.days_from_monday());
        },
        _ => {
            lemma_order_is_instant_order(kind.bucket_start(c), c);
        },
    }
}

/// Under the yearly period a date-time in December is assigned to the
/// bucket of the next year, which starts after it.
pub proof fn law_december_starts_next_year(c: Civil)
    requires
        c.valid(),
        c.month == 12,
    ensures
        TimelineType::Yearly.bucket_start(c) == Civil::year_start(c.year + 1),
        TimelineType::Yearly.bucket_start(c).instant() > c.instant(),
{
    lemma_order_is_instant_order(c, Civil::year_start(c.year + 1));
}

/// The bucket that follows starts strictly later: stepping by the nominal
/// length always leaves the calendar unit, and aligning falls back no
/// further than to the start of the next one.
pub proof fn lemma_bucket_end_after(kind: TimelineType, c: Civil)
    requires
        c.valid(),
    ensures
        kind.bucket_end(c).valid(),
        kind.bucket_end(c).instant() > c.instant(),
{
    let t = c.plus_days(kind.nominal_days());
    lemma_plus_days(c, kind.nominal_days());
    lemma_bucket_start_valid(kind, t);
    let end = kind.bucket_start(t);
    lemma_order_is_instant_order(c, t);
    match kind {
        TimelineType::Daily => {
            assert(end.day_number() == c.day_number() + 1);
        },
        TimelineType::Weekly => {
            let n = c.day_number();
            lemma_day_at(t.day_number() - t.days_from_monday());
            assert(t.days_from_monday() <= 6);
            assert(end.day_number() >= n + 1);
        },
        TimelineType::Monthly => {
            assert(t.year > c.year || (t.year == c.year && t.month > c.month)) by {
                if t.year == c.year && t.month == c.month {
                    assert(t.day_number() - c.day_number() == t.day - c.day);
                }
            }
            lemma_order_is_instant_order(c, end);
        },
        TimelineType::Yearly => {
            if t.year == c.year {
                lemma_day_within_year(c.year, c.month, c.day);
                lemma_day_within_year(t.year, t.month, t.day);
                lemma_year_steps(c.year);
                assert(t.month == 12);
            }
            lemma_order_is_instant_order(c, end);
        },
    }
}

/// Stepping from a bucket's start into the next bucket, and aligning again,
/// stays within the years that a date-time can hold as long as the start is
/// not after a date-time two years short of the last of them. The start of
/// the next bucket is in the same year as the start or later.
pub proof fn lemma_bucket_end_fits(kind: TimelineType, cursor: Civil, last: Civil)
    requires
        representable(cursor),
        last.valid(),
        cursor.instant() <= last.instant(),
        last.year + 2 <= MAX_YEAR,
    ensures
        representable(cursor.plus_days(kind.nominal_days())),
        representable(kind.bucket_end(cursor)),
{
    let t = cursor.plus_days(kind.nominal_days());
    lemma_plus_days(cursor, kind.nominal_days());
    lemma_order_is_instant_order(cursor, last);
    lemma_order_is_instant_order(cursor, t);
    assert(t.year <= cursor.year + 1) by {
        lemma_day_within_year(cursor.year, cursor.month, cursor.day);
        lemma_day_within_year(t.year, t.month, t.day);
        lemma_year_steps(cursor.year + 1);
        if t.year >= cursor.year + 2 {
            crate::calendar::lemma_year_starts_apart(cursor.year + 2, t.year);
        }
    }
    lemma_bucket_end_after(kind, cursor);
    let end = kind.bucket_end(cursor);
    lemma_order_is_instant_order(cursor, end);
    if kind == TimelineType::Weekly {
        lemma_day_at(t.day_number() - t.days_from_monday());
        lemma_order_is_instant_order(end, t);
    }
}

} // verus!
