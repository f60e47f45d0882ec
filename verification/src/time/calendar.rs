//! The Gregorian calendar as mathematics: what a calendar breakdown is, which
//! instant it denotes, and why every instant has exactly one breakdown.
use vstd::arithmetic::div_mod::lemma_fundamental_div_mod_converse;
use vstd::prelude::*;

verus! {

/// A calendar date with a time of day, over unbounded integers.
pub struct Breakdown {
    pub year: int,
    pub month: int,
    pub day: int,
    pub hour: int,
    pub minute: int,
    pub second: int,
}

/// A time of day: hour, minute and, where one is given, second.
pub struct TimeOfDay {
    pub hour: int,
    pub minute: int,
    pub second: Option<int>,
}

/// A calendar date.
pub struct CalendarDate {
    pub year: int,
    pub month: int,
    pub day: int,
}

impl CalendarDate {
    /// The month is one of the twelve and the day is one that it has.
    pub open spec fn valid(self) -> bool {
        &&& 1 <= self.month <= 12
        &&& 1 <= self.day <= month_length(self.year, self.month)
    }

    /// The day after this one.
    pub open spec fn next_day(self) -> CalendarDate {
        if self.day < month_length(self.year, self.month) {
            CalendarDate { day: self.day + 1, ..self }
        } else if self.month < 12 {
            CalendarDate { month: self.month + 1, day: 1, ..self }
        } else {
            CalendarDate { year: self.year + 1, month: 1, day: 1 }
        }
    }

    /// The date `days` days after this one.
    pub open spec fn days_later(self, days: nat) -> CalendarDate
        decreases days,
    {
        if days == 0 {
            self
        } else {
            self.days_later((days - 1) as nat).next_day()
        }
    }

    /// This date `months` months later, on the same day of the month or on the
    /// last day of a shorter month.
    pub open spec fn months_later(self, months: int) -> CalendarDate {
        let index = self.month - 1 + months;
        let year = self.year + index / 12;
        let month = index % 12 + 1;
        CalendarDate { year, month, day: clamped_day(year, month, self.day) }
    }

    /// This date `years` years later; 29 February becomes 28 February in a year
    /// that is not a leap year.
    pub open spec fn years_later(self, years: int) -> CalendarDate {
        let year = self.year + years;
        CalendarDate { year, month: self.month, day: clamped_day(year, self.month, self.day) }
    }
}

impl TimeOfDay {
    /// `hour` o'clock sharp, with no second given.
    pub open spec fn hour(hour: int) -> TimeOfDay {
        TimeOfDay { hour, minute: 0, second: None }
    }

    /// Every field lies in its clock range.
    pub open spec fn valid(self) -> bool {
        &&& 0 <= self.hour <= 23
        &&& 0 <= self.minute <= 59
        &&& self.second matches Some(s) ==> 0 <= s <= 59
    }
}

/// The Gregorian leap-year rule.
pub open spec fn is_leap_year(year: int) -> bool {
    year % 4 == 0 && (year % 100 != 0 || year % 400 == 0)
}

/// Number of days in `year`.
pub open spec fn days_in_year(year: int) -> int {
    if is_leap_year(year) {
        366
    } else {
        365
    }
}

/// Number of days in `month` of `year`; 0 where `month` names no month.
pub open spec fn month_length(year: int, month: int) -> int {
    if month == 2 {
        if is_leap_year(year) {
            29
        } else {
            28
        }
    } else if month == 4 || month == 6 || month == 9 || month == 11 {
        30
    } else if 1 <= month <= 12 {
        31
    } else {
        0
    }
}

/// Days in all whole years from 1970 up to, not including, `year`.
pub open spec fn days_before_year(year: int) -> int
    decreases year - 1970,
{
    if year <= 1970 {
        0
    } else {
        days_before_year(year - 1) + days_in_year(year - 1)
    }
}

/// Days in all whole months of `year` before `month`.
pub open spec fn days_before_month(year: int, month: int) -> int
    decreases month,
{
    if month <= 1 {
        0
    } else {
        days_before_month(year, month - 1) + month_length(year, month - 1)
    }
}

impl Breakdown {
    /// Every field lies in its calendar range, from 1970 on.
    pub open spec fn valid(self) -> bool {
        &&& self.year >= 1970
        &&& 1 <= self.month <= 12
        &&& 1 <= self.day <= month_length(self.year, self.month)
        &&& 0 <= self.hour <= 23
        &&& 0 <= self.minute <= 59
        &&& 0 <= self.second <= 59
    }

    /// The date, without the time of day.
    pub open spec fn date(self) -> CalendarDate {
        CalendarDate { year: self.year, month: self.month, day: self.day }
    }

    /// Whole days between 1970-01-01 and this date.
    pub open spec fn day_number(self) -> int {
        days_before_year(self.year) + days_before_month(self.year, self.month) + self.day - 1
    }

    /// Seconds since midnight.
    pub open spec fn second_of_day(self) -> int {
        self.hour * 3600 + self.minute * 60 + self.second
    }

    /// Seconds between 1970-01-01T00:00:00 and this date and time.
    pub open spec fn epoch(self) -> int {
        self.day_number() * 86400 + self.second_of_day()
    }
}

/// The calendar breakdown of the instant `ts` seconds after 1970-01-01T00:00:00.
pub open spec fn breakdown_of(ts: int) -> Breakdown {
    choose|c: Breakdown| c.valid() && c.epoch() == ts
}

/// `day`, or the last day of `month` of `year` where the month is shorter.
pub open spec fn clamped_day(year: int, month: int, day: int) -> int {
    if day > month_length(year, month) {
        month_length(year, month)
    } else {
        day
    }
}

/// `c` with its time of day overwritten by `time`; the date stays. Where
/// `time` gives no second, the second is 0.
pub open spec fn with_time(c: Breakdown, time: TimeOfDay) -> Breakdown {
    Breakdown {
        hour: time.hour,
        minute: time.minute,
        second: match time.second {
            Some(s) => s,
            None => 0,
        },
        ..c
    }
}

/// `c` with its date overwritten; the time of day stays.
pub open spec fn with_date(c: Breakdown, year: int, month: int, day: int) -> Breakdown {
    Breakdown { year, month, day, ..c }
}

/// The same day and time of day `months` months later. Months past December
/// run on into the following years, and a day that the month reached does not
/// have becomes that month's last day.
pub open spec fn months_later(c: Breakdown, months: int) -> Breakdown {
    let date = c.date().months_later(months);
    with_date(c, date.year, date.month, date.day)
}

/// The same day and time of day `years` years later; 29 February becomes
/// 28 February in a year that is not a leap year.
pub open spec fn years_later(c: Breakdown, years: int) -> Breakdown {
    let date = c.date().years_later(years);
    with_date(c, date.year, date.month, date.day)
}

/// The instant `ts` moved to the time of day `time` on its own date.
pub open spec fn at_time_of_day(ts: int, time: TimeOfDay) -> int {
    with_time(breakdown_of(ts), time).epoch()
}

/// The instant `months` calendar months after `ts`.
pub open spec fn months_after(ts: int, months: int) -> int {
    months_later(breakdown_of(ts), months).epoch()
}

/// The instant `years` calendar years after `ts`.
pub open spec fn years_after(ts: int, years: int) -> int {
    years_later(breakdown_of(ts), years).epoch()
}

/// Day of the week of the instant `ts`, 0 for Sunday: 1970-01-01 was a Thursday.
pub open spec fn weekday_of(ts: int) -> int {
    (ts / 86400 + 4) % 7
}

/// Leap years among the years 1 to `year - 1`.
pub open spec fn leap_years_before(year: int) -> int {
    (year - 1) / 4 - (year - 1) / 100 + (year - 1) / 400
}

/// `days_before_year` without the sum: 365 days a year and one more for each
/// leap year since 1970 (477 leap years precede 1970).
pub proof fn lemma_days_before_year(year: int)
    requires
        year >= 1970,
    ensures
        days_before_year(year) == 365 * (year - 1970) + leap_years_before(year) - 477,
    decreases year - 1970,
{
    if year > 1970 {
        lemma_days_before_year(year - 1);
    }
}

/// Days before the first of `month` in a year that is not a leap year; for 13,
/// the days of the whole year.
pub open spec fn common_days_before(month: int) -> int {
    if month <= 1 {
        0
    } else if month == 2 {
        31
    } else if month == 3 {
        59
    } else if month == 4 {
        90
    } else if month == 5 {
        120
    } else if month == 6 {
        151
    } else if month == 7 {
        181
    } else if month == 8 {
        212
    } else if month == 9 {
        243
    } else if month == 10 {
        273
    } else if month == 11 {
        304
    } else if month == 12 {
        334
    } else {
        365
    }
}

/// `days_before_month` without the sum: the days in a common year, and one
/// more from March on in a leap year.
pub proof fn lemma_days_before_month(year: int, month: int)
    requires
        1 <= month <= 13,
    ensures
        days_before_month(year, month) == common_days_before(month) + if month > 2 && is_leap_year(
            year,
        ) {
            1int
        } else {
            0int
        },
    decreases month,
{
    if month > 1 {
        lemma_days_before_month(year, month - 1);
    }
}

/// Later years start later: each year in between adds at least 365 days.
pub proof fn lemma_days_before_year_grows(from: int, to: int)
    requires
        1970 <= from <= to,
    ensures
        days_before_year(from) + 365 * (to - from) <= days_before_year(to),
    decreases to - from,
{
    if from < to {
        lemma_days_before_year_grows(from, to - 1);
    }
}

/// No year adds more than 366 days.
pub proof fn lemma_days_before_year_bounded(from: int, to: int)
    requires
        1970 <= from <= to,
    ensures
        days_before_year(to) <= days_before_year(from) + 366 * (to - from),
    decreases to - from,
{
    if from < to {
        lemma_days_before_year_bounded(from, to - 1);
    }
}

/// A valid date lies within its own year and its own month.
pub proof fn lemma_day_number_bounds(c: Breakdown)
    requires
        c.valid(),
    ensures
        days_before_year(c.year) <= c.day_number() < days_before_year(c.year + 1),
        days_before_month(c.year, c.month) <= c.day_number() - days_before_year(c.year)
            < days_before_month(c.year, c.month + 1),
        0 <= c.second_of_day() < 86400,
        c.epoch() >= 0,
{
    lemma_days_before_month(c.year, c.month);
    lemma_days_before_month(c.year, c.month + 1);
    lemma_days_before_month(c.year, 13);
    lemma_days_before_year_grows(1970, c.year);
}

/// The first day of a month is later than every day of an earlier month of
/// the same year.
proof fn lemma_months_in_order(year: int, month: int, later: int)
    requires
        1 <= month < later <= 13,
    ensures
        days_before_month(year, month + 1) <= days_before_month(year, later),
    decreases later - month,
{
    if month + 1 < later {
        lemma_months_in_order(year, month, later - 1);
    }
}

/// A count of seconds splits into whole days and the seconds of a day in one
/// way only.
proof fn lemma_split_epoch(days: int, rest: int, other_days: int, other_rest: int)
    requires
        0 <= rest < 86400,
        0 <= other_rest < 86400,
        days * 86400 + rest == other_days * 86400 + other_rest,
    ensures
        days == other_days,
        rest == other_rest,
{
    let total = days * 86400 + rest;
    lemma_fundamental_div_mod_converse(total, 86400, days, rest);
    lemma_fundamental_div_mod_converse(total, 86400, other_days, other_rest);
}

/// No two valid breakdowns denote the same instant.
pub proof fn lemma_epoch_injective(a: Breakdown, b: Breakdown)
    requires
        a.valid(),
        b.valid(),
        a.epoch() == b.epoch(),
    ensures
        a == b,
{
    lemma_day_number_bounds(a);
    lemma_day_number_bounds(b);
    lemma_split_epoch(a.day_number(), a.second_of_day(), b.day_number(), b.second_of_day());
    assert(a.hour == b.hour && a.minute == b.minute && a.second == b.second);
    assert(a.year == b.year) by {
        if a.year < b.year {
            lemma_days_before_year_grows(a.year + 1, b.year);
        }
        if b.year < a.year {
            lemma_days_before_year_grows(b.year + 1, a.year);
        }
    }
    assert(a.month == b.month) by {
        if a.month < b.month {
            lemma_months_in_order(a.year, a.month, b.month);
        }
        if b.month < a.month {
            lemma_months_in_order(a.year, b.month, a.month);
        }
    }
}

/// The date `days` days after 1970-01-01, at midnight.
pub proof fn lemma_date_exists(days: int) -> (c: Breakdown)
    requires
        days >= 0,
    ensures
        c.valid(),
        c.day_number() == days,
        c.second_of_day() == 0,
    decreases days,
{
    if days == 0 {
        let c = Breakdown { year: 1970, month: 1, day: 1, hour: 0, minute: 0, second: 0 };
        lemma_days_before_month(1970, 1);
        c
    } else {
        let p = lemma_date_exists(days - 1);
        lemma_days_before_month(p.year, p.month);
        lemma_days_before_month(p.year, p.month + 1);
        if p.day < month_length(p.year, p.month) {
            Breakdown { day: p.day + 1, ..p }
        } else if p.month < 12 {
            Breakdown { month: p.month + 1, day: 1, ..p }
        } else {
            lemma_days_before_month(p.year + 1, 1);
            Breakdown { year: p.year + 1, month: 1, day: 1, ..p }
        }
    }
}

/// Every instant from 1970 on has a valid breakdown, and converting that
/// breakdown back gives the instant again.
pub proof fn lemma_breakdown_round_trip(ts: int)
    requires
        ts >= 0,
    ensures
        breakdown_of(ts).valid(),
        breakdown_of(ts).epoch() == ts,
{
    let date = lemma_date_exists(ts / 86400);
    let rest = ts % 86400;
    let c = Breakdown { hour: rest / 3600, minute: (rest % 3600) / 60, second: rest % 60, ..date };
    assert(c.valid() && c.epoch() == ts);
}

/// A valid breakdown is the breakdown of the instant it denotes.
pub proof fn lemma_breakdown_of_epoch(c: Breakdown)
    requires
        c.valid(),
    ensures
        breakdown_of(c.epoch()) == c,
{
    lemma_day_number_bounds(c);
    lemma_breakdown_round_trip(c.epoch());
    lemma_epoch_injective(breakdown_of(c.epoch()), c);
}

/// Whole days, hours, minutes and seconds, read back off their count of
/// seconds.
proof fn lemma_day_and_rest(days: int, hour: int, minute: int, second: int)
    requires
        0 <= hour <= 23,
        0 <= minute <= 59,
        0 <= second <= 59,
    ensures
        (days * 86400 + hour * 3600 + minute * 60 + second) / 86400 == days,
        (days * 86400 + hour * 3600 + minute * 60 + second) % 86400 == hour * 3600 + minute * 60
            + second,
        (days * 86400 + hour * 3600 + minute * 60 + second) % 60 == second,
{
    let total = days * 86400 + hour * 3600 + minute * 60 + second;
    lemma_fundamental_div_mod_converse(total, 86400, days, hour * 3600 + minute * 60 + second);
    lemma_fundamental_div_mod_converse(total, 60, days * 1440 + hour * 60 + minute, second);
}

/// Overwriting the time of day keeps the day and replaces the seconds into it.
pub proof fn lemma_at_time_of_day(ts: int, time: TimeOfDay)
    requires
        ts >= 0,
        time.valid(),
    ensures
        with_time(breakdown_of(ts), time).valid(),
        at_time_of_day(ts, time) == ts - ts % 86400 + time.hour * 3600 + time.minute * 60 + (
        match time.second {
            Some(s) => s,
            None => 0,
        }),
{
    let c = breakdown_of(ts);
    lemma_breakdown_round_trip(ts);
    lemma_day_and_rest(c.day_number(), c.hour, c.minute, c.second);
    let moved = with_time(c, time);
    assert(moved.day_number() == c.day_number());
    assert(moved.epoch() == c.day_number() * 86400 + time.hour * 3600 + time.minute * 60
        + moved.second);
}

/// Of two valid dates, the one in the later month of the calendar is the
/// later day.
pub proof fn lemma_later_month_later_day(a: Breakdown, b: Breakdown)
    requires
        a.valid(),
        b.valid(),
        a.year < b.year || (a.year == b.year && a.month < b.month),
    ensures
        a.day_number() < b.day_number(),
{
    lemma_day_number_bounds(a);
    lemma_day_number_bounds(b);
    if a.year < b.year {
        lemma_days_before_year_grows(a.year + 1, b.year);
    } else {
        lemma_days_before_month(a.year, a.month + 1);
        lemma_days_before_month(a.year, b.month);
    }
}

/// Moving a valid breakdown on by whole months gives a valid breakdown that is
/// no earlier, and later by at most 31 days for each month and 31 more.
pub proof fn lemma_months_later(c: Breakdown, months: int)
    requires
        c.valid(),
        months >= 0,
    ensures
        months_later(c, months).valid(),
        c.epoch() <= months_later(c, months).epoch() <= c.epoch() + (months + 1) * 31 * 86400,
{
    let m = months_later(c, months);
    assert(m.valid());
    if months > 0 {
        lemma_later_month_later_day(c, m);
    }
    lemma_day_number_bounds(c);
    lemma_day_number_bounds(m);
    lemma_days_before_year_bounded(c.year, m.year);
    lemma_days_before_month(c.year, c.month);
    lemma_days_before_month(m.year, m.month);
    assert(m.day_number() - c.day_number() <= 31 * (months + 1)) by {
        assert(12 * (m.year - c.year) + m.month - c.month == months);
        lemma_days_before_year(c.year);
        lemma_days_before_year(m.year);
        lemma_month_span(c.year, c.month, m.year, m.month);
    }
}

/// First days of two months lie at most 31 days apart for each month between.
proof fn lemma_month_span(year: int, month: int, to_year: int, to_month: int)
    requires
        1970 <= year,
        1 <= month <= 12,
        1 <= to_month <= 12,
        year < to_year || (year == to_year && month <= to_month),
    ensures
        days_before_year(to_year) + days_before_month(to_year, to_month) <= days_before_year(year)
            + days_before_month(year, month) + 31 * (12 * (to_year - year) + to_month - month),
    decreases 12 * (to_year - year) + to_month - month,
{
    if year == to_year && month == to_month {
    } else if to_month > 1 {
        lemma_month_span(year, month, to_year, to_month - 1);
    } else {
        lemma_month_span(year, month, to_year - 1, 12);
        lemma_days_before_month(to_year - 1, 12);
        lemma_days_before_month(to_year - 1, 13);
        lemma_days_before_month(to_year - 1, 1);
        lemma_days_before_month(to_year, 1);
    }
}

/// Moving a valid breakdown on by whole years gives a valid breakdown that is
/// no earlier, and later by at most 366 days for each year and 366 more.
pub proof fn lemma_years_later(c: Breakdown, years: int)
    requires
        c.valid(),
        years >= 0,
    ensures
        years_later(c, years).valid(),
        c.epoch() <= years_later(c, years).epoch() <= c.epoch() + (years + 1) * 366 * 86400,
{
    let y = years_later(c, years);
    assert(y.valid());
    if years > 0 {
        lemma_later_month_later_day(c, y);
    }
    lemma_days_before_year_bounded(c.year, y.year);
    lemma_days_before_month(c.year, c.month);
    lemma_days_before_month(y.year, y.month);
}

} // verus!
