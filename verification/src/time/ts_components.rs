//! Conversion between epoch seconds and calendar breakdowns.
use crate::error::ScheduleError;
use crate::time::calendar::{
    breakdown_of, days_before_month, days_before_year, days_in_year, is_leap_year,
    leap_years_before, lemma_breakdown_of_epoch, lemma_days_before_month, lemma_days_before_year,
    lemma_days_before_year_grows, month_length, Breakdown,
};
use vstd::prelude::*;
use vstd::std_specs::convert::FromSpecImpl;

verus! {

/// The calendar breakdown of an instant: year, month, day, hour, minute and
/// second, in UTC.
///
/// Every value is a valid date and time from 1970 on whose instant can be
/// counted in a `u64` of seconds.
#[derive(Clone, Copy, Debug, PartialEq, Eq, PartialOrd, Ord)]
pub struct TSComponents {
    year: u64,
    month: u8,
    day: u8,
    hour: u8,
    minute: u8,
    second: u8,
}

impl View for TSComponents {
    type V = Breakdown;

    closed spec fn view(&self) -> Breakdown {
        Breakdown {
            year: self.year as int,
            month: self.month as int,
            day: self.day as int,
            hour: self.hour as int,
            minute: self.minute as int,
            second: self.second as int,
        }
    }
}

/// Days since 1970-01-01 of the first day of `year`, for years before 1970 too.
spec fn year_start(year: int) -> int {
    365 * (year - 1970) + leap_years_before(year) - 477
}

/// From one year to the next the start moves by the length of the year.
proof fn lemma_year_start_step(year: int)
    requires
        year >= 1,
    ensures
        year_start(year + 1) == year_start(year) + days_in_year(year),
{
}

/// The first day of the year reached by whole cycles counted from 1601.
proof fn lemma_year_start_of_cycles(cycles: int, centuries: int, quadrennial: int)
    requires
        0 <= cycles,
        0 <= centuries <= 3,
        0 <= quadrennial <= 24,
    ensures
        year_start(1601 + cycles * 400 + centuries * 100 + quadrennial * 4) == cycles * 146097
            + centuries * 36524 + quadrennial * 1461 - 134774,
{
    let y = 1600 + cycles * 400 + centuries * 100 + quadrennial * 4;
    assert(y / 4 == 400 + cycles * 100 + centuries * 25 + quadrennial);
    assert(y / 100 == 16 + cycles * 4 + centuries);
    assert(y / 400 == 4 + cycles);
}

impl TSComponents {
    #[verifier::type_invariant]
    spec fn well_formed(self) -> bool {
        self@.valid() && self@.epoch() <= u64::MAX
    }

    /// The value that holds the breakdown `c`.
    pub closed spec fn holding(c: Breakdown) -> TSComponents {
        TSComponents {
            year: c.year as u64,
            month: c.month as u8,
            day: c.day as u8,
            hour: c.hour as u8,
            minute: c.minute as u8,
            second: c.second as u8,
        }
    }

    /// Builds a breakdown from its six fields. Fields outside their calendar
    /// range, a year before 1970 and a date whose instant no `u64` of seconds
    /// can count are a `RangeError`.
    pub fn new(year: u64, month: u8, day: u8, hour: u8, minute: u8, second: u8) -> (made: Result<
        TSComponents,
        ScheduleError,
    >)
        ensures
            ({
                let c = Breakdown {
                    year: year as int,
                    month: month as int,
                    day: day as int,
                    hour: hour as int,
                    minute: minute as int,
                    second: second as int,
                };
                if c.valid() && c.epoch() <= u64::MAX {
                    made is Ok && made->Ok_0@ == c
                } else {
                    made == Err::<TSComponents, ScheduleError>(ScheduleError::RangeError)
                }
            }),
    {
        if year < 1970 || month < 1 || month > 12 || hour > 23 || minute > 59 || second > 59 {
            return Err(ScheduleError::RangeError);
        }
        if day < 1 || day as u64 > Self::month_days(year, month) {
            return Err(ScheduleError::RangeError);
        }
        let epoch: u128 = Self::epoch_of_fields(year, month, day, hour, minute, second);
        if epoch > u64::MAX as u128 {
            return Err(ScheduleError::RangeError);
        }
        Ok(TSComponents { year, month, day, hour, minute, second })
    }

    /// The instant that six valid fields denote, in seconds since 1970.
    pub(crate) fn epoch_of_fields(
        year: u64,
        month: u8,
        day: u8,
        hour: u8,
        minute: u8,
        second: u8,
    ) -> (epoch: u128)
        requires
            (Breakdown {
                year: year as int,
                month: month as int,
                day: day as int,
                hour: hour as int,
                minute: minute as int,
                second: second as int,
            }).valid(),
        ensures
            epoch == (Breakdown {
                year: year as int,
                month: month as int,
                day: day as int,
                hour: hour as int,
                minute: minute as int,
                second: second as int,
            }).epoch(),
    {
        proof {
            lemma_days_before_year(year as int);
            lemma_days_before_year_grows(1970, year as int);
        }
        let before: u128 = (year - 1) as u128;
        let leaps: u128 = before / 4 + before / 400 - before / 100;
        let mut days: u128 = 365 * (year - 1970) as u128 + leaps - 477;
        let mut m: u8 = 1;
        while m < month
            invariant
                1 <= m <= month <= 12,
                days == days_before_year(year as int) + days_before_month(year as int, m as int),
                days <= 366 * (u64::MAX as u128) + 31 * (m as u128),
            decreases month - m,
        {
            days = days + Self::month_days(year, m) as u128;
            m = m + 1;
        }
        days = days + (day as u128 - 1);
        days * 86400 + hour as u128 * 3600 + minute as u128 * 60 + second as u128
    }

    /// The instant that this breakdown denotes, in seconds since
    /// 1970-01-01T00:00:00: the days of all whole years since 1970, of all whole
    /// months of this year and of this month so far, with the time of day.
    pub fn as_timestamp(&self) -> (ts: u64)
        ensures
            ts == self@.epoch(),
    {
        proof {
            use_type_invariant(self);
        }
        Self::epoch_of_fields(
            self.year,
            self.month,
            self.day,
            self.hour,
            self.minute,
            self.second,
        ) as u64
    }

    pub fn year(&self) -> (year: u64)
        ensures
            year == self@.year,
    {
        self.year
    }

    pub fn month(&self) -> (month: u8)
        ensures
            month == self@.month,
    {
        self.month
    }

    pub fn day(&self) -> (day: u8)
        ensures
            day == self@.day,
    {
        self.day
    }

    pub fn hour(&self) -> (hour: u8)
        ensures
            hour == self@.hour,
    {
        self.hour
    }

    pub fn minute(&self) -> (minute: u8)
        ensures
            minute == self@.minute,
    {
        self.minute
    }

    pub fn second(&self) -> (second: u8)
        ensures
            second == self@.second,
    {
        self.second
    }

    /// The Gregorian leap-year rule.
    pub fn is_leap(year: u64) -> (leap: bool)
        ensures
            leap == is_leap_year(year as int),
    {
        year % 4 == 0 && (year % 100 != 0 || year % 400 == 0)
    }

    /// Number of days in `month` of `year`. A month outside 1 to 12 is an
    /// `InvalidCalendarField`.
    pub fn days_in_month(year: u64, month: u8) -> (days: Result<u64, ScheduleError>)
        ensures
            1 <= month <= 12 ==> days == Ok::<u64, ScheduleError>(
                month_length(year as int, month as int) as u64,
            ),
            !(1 <= month <= 12) ==> days == Err::<u64, ScheduleError>(
                ScheduleError::InvalidCalendarField,
            ),
    {
        match month {
            1 | 3 | 5 | 7 | 8 | 10 | 12 => Ok(31),
            4 | 6 | 9 | 11 => Ok(30),
            2 => if Self::is_leap(year) {
                Ok(29)
            } else {
                Ok(28)
            },
            _ => Err(ScheduleError::InvalidCalendarField),
        }
    }

    /// Number of days in `year`.
    fn year_days(year: u64) -> (days: u64)
        ensures
            days == days_in_year(year as int),
    {
        if Self::is_leap(year) {
            366
        } else {
            365
        }
    }

    /// Takes the whole years out of `ts`, a count of seconds since 1970, and
    /// returns the year reached; `ts` is left holding the seconds into that year.
    ///
    /// Whole cycles of 400, 100 and 4 years are taken first, counted from 1601,
    /// where such cycles begin; at most three single years remain to be walked.
    fn extract_year(ts: &mut u64) -> (year: u64)
        ensures
            year >= 1970,
            *old(ts) == days_before_year(year as int) * 86400 + *final(ts),
            *final(ts) < days_in_year(year as int) * 86400,
    {
        let days: u64 = *ts / 86400;
        let since_1601: u64 = days + 134774;
        let cycles: u64 = since_1601 / 146097;
        let mut rest: u64 = since_1601 % 146097;
        let centuries: u64 = if rest / 36524 > 3 {
            3
        } else {
            rest / 36524
        };
        rest = rest - centuries * 36524;
        let quadrennial: u64 = rest / 1461;
        rest = rest % 1461;
        let first: u64 = 1601 + cycles * 400 + centuries * 100 + quadrennial * 4;
        let mut year: u64 = first;
        proof {
            lemma_year_start_of_cycles(cycles as int, centuries as int, quadrennial as int);
        }
        while rest >= Self::year_days(year)
            invariant
                year_start(year as int) + rest == days,
                1969 <= first <= year,
                first <= u64::MAX / 2,
                rest + 365 * (year - first) <= 1460,
            decreases rest,
        {
            proof {
                lemma_year_start_step(year as int);
            }
            rest = rest - Self::year_days(year);
            year = year + 1;
        }
        proof {
            lemma_days_before_year(year as int);
        }
        *ts = *ts - (days - rest) * 86400;
        year
    }

    /// Length of `month` of `year`.
    pub(crate) fn month_days(year: u64, month: u8) -> (days: u64)
        requires
            1 <= month <= 12,
        ensures
            days == month_length(year as int, month as int),
    {
        if month == 2 {
            if Self::is_leap(year) {
                29
            } else {
                28
            }
        } else if month == 4 || month == 6 || month == 9 || month == 11 {
            30
        } else {
            31
        }
    }

    /// The month and the day of the month that lie `ts` seconds into `year`.
    fn extract_month_and_day(ts: u64, year: u64) -> (date: (u8, u8))
        requires
            ts < days_in_year(year as int) * 86400,
        ensures
            1 <= date.0 <= 12,
            1 <= date.1 <= month_length(year as int, date.0 as int),
            days_before_month(year as int, date.0 as int) + date.1 - 1 == ts / 86400,
    {
        let mut rest: u64 = ts / 86400;
        let mut month: u8 = 1;
        proof {
            lemma_days_before_month(year as int, 13);
        }
        while month < 12 && rest >= Self::month_days(year, month)
            invariant
                1 <= month <= 12,
                days_before_month(year as int, month as int) + rest == ts / 86400,
                ts / 86400 < days_before_month(year as int, 13),
            decreases 12 - month,
        {
            rest = rest - Self::month_days(year, month);
            month = month + 1;
        }
        proof {
            lemma_days_before_month(year as int, month as int);
        }
        (month, (rest + 1) as u8)
    }

    /// Hour, minute and second of the day that the instant `ts` falls on.
    fn time_from_secs(ts: u64) -> (time: (u8, u8, u8))
        ensures
            time.0 == (ts % 86400) / 3600,
            time.1 == (ts % 3600) / 60,
            time.2 == ts % 60,
            time.0 * 3600 + time.1 * 60 + time.2 == ts % 86400,
    {
        (
            ((ts % 86400) / 3600) as u8,
            ((ts % 86400) % 3600 / 60) as u8,
            ((ts % 86400) % 3600 % 60) as u8,
        )
    }
}

impl From<u64> for TSComponents {
    /// The breakdown of the instant `value` seconds after 1970-01-01T00:00:00.
    fn from(value: u64) -> (c: TSComponents)
        ensures
            c@ == breakdown_of(value as int),
            c@.valid(),
            c@.epoch() == value,
    {
        let mut rest: u64 = value;
        let year = Self::extract_year(&mut rest);
        let (month, day) = Self::extract_month_and_day(rest, year);
        let time = Self::time_from_secs(rest);
        let c = TSComponents { year, month, day, hour: time.0, minute: time.1, second: time.2 };
        proof {
            assert(c@.valid());
            assert(c@.epoch() == value);
            lemma_breakdown_of_epoch(c@);
        }
        c
    }
}

impl FromSpecImpl<u64> for TSComponents {
    open spec fn obeys_from_spec() -> bool {
        true
    }

    open spec fn from_spec(value: u64) -> TSComponents {
        TSComponents::holding(breakdown_of(value as int))
    }
}

} // verus!
