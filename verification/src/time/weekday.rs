//! Recurrences tied to a day of the week. The week runs from Sunday, day 0,
//! to Saturday, day 6.
use crate::error::ScheduleError;
use crate::time::calendar::{at_time_of_day, lemma_at_time_of_day, weekday_of, TimeOfDay};
use crate::time::consts::{AFTERNOON, DAY_IN_SECS, EVENING, MIDNIGHT, MORNING, WEEK_IN_SECS};
use crate::time::timespan::{Recurrence, Step, TimeSpan};
use crate::time::timestamp::Timestamp;
use crate::time::{parse_time, Time};
use vstd::arithmetic::div_mod::lemma_fundamental_div_mod_converse;
use vstd::prelude::*;
use vstd::string::StringSliceAdditionalSpecFns;

verus! {

/// A day of the week.
#[derive(Copy, Clone, Debug, PartialEq, Eq, Structural)]
pub enum WeekDay {
    Sunday,
    Monday,
    Tuesday,
    Wednesday,
    Thursday,
    Friday,
    Saturday,
}

impl WeekDay {
    /// The number of the day, 0 for Sunday to 6 for Saturday.
    pub open spec fn number(self) -> int {
        match self {
            WeekDay::Sunday => 0,
            WeekDay::Monday => 1,
            WeekDay::Tuesday => 2,
            WeekDay::Wednesday => 3,
            WeekDay::Thursday => 4,
            WeekDay::Friday => 5,
            WeekDay::Saturday => 6,
        }
    }

    /// Days from `today` to the next day that is `self`: 7, not 0, where
    /// `today` is that day itself.
    pub open spec fn distance_from(self, today: WeekDay) -> int {
        if self == today {
            7
        } else {
            (self.number() - today.number()) % 7
        }
    }

    /// The weekly rule that fires on `self` at `time`, first on the next such
    /// day after `today`.
    pub open spec fn rule_from(self, today: WeekDay, time: TimeOfDay) -> Recurrence {
        Recurrence {
            interval: 604800,
            anchor: Some(time),
            start_in: Some(self.distance_from(today) * 86400),
            step: Step::Weekday,
        }
    }

    /// The number of the day, 0 for Sunday to 6 for Saturday.
    pub fn ordinal(self) -> (number: u8)
        ensures
            number == self.number(),
    {
        match self {
            WeekDay::Sunday => 0,
            WeekDay::Monday => 1,
            WeekDay::Tuesday => 2,
            WeekDay::Wednesday => 3,
            WeekDay::Thursday => 4,
            WeekDay::Friday => 5,
            WeekDay::Saturday => 6,
        }
    }

    /// The day of the week on which `instant` falls.
    pub fn of(instant: &Timestamp) -> (day: WeekDay)
        ensures
            day.number() == weekday_of(instant@ as int),
    {
        match instant.day_of_week() {
            0 => WeekDay::Sunday,
            1 => WeekDay::Monday,
            2 => WeekDay::Tuesday,
            3 => WeekDay::Wednesday,
            4 => WeekDay::Thursday,
            5 => WeekDay::Friday,
            _ => WeekDay::Saturday,
        }
    }

    /// Days from `today` to the next day that is `self`. A day is never its
    /// own next occurrence: from a Wednesday the next Wednesday is 7 days on.
    pub fn days_until(self, today: WeekDay) -> (days: u8)
        ensures
            days == self.distance_from(today),
            1 <= days <= 7,
    {
        let day = self.ordinal();
        let today = today.ordinal();
        if today < day {
            day - today
        } else if today > day {
            7 - today + day
        } else {
            7
        }
    }

    /// The weekly rule that fires on `self` at `time`, first on the next such
    /// day after `today`.
    pub fn starting(self, today: WeekDay, time: Time) -> (span: TimeSpan)
        ensures
            span@ == self.rule_from(today, time@),
    {
        let until = self.days_until(today);
        TimeSpan::of_parts(
            WEEK_IN_SECS,
            Some(time),
            Some(until as u64 * DAY_IN_SECS),
            Step::Weekday,
        )
    }

    /// The weekly rule that fires on `self` at `hour` o'clock, first on the
    /// next such day after the day that the system clock shows.
    fn starting_today(self, hour: u8) -> (span: TimeSpan)
        requires
            hour <= 23,
        ensures
            exists|today: WeekDay| span@ == #[trigger] self.rule_from(today, TimeOfDay::hour(hour as int)),
    {
        let today = WeekDay::of(&Timestamp::now());
        let span = self.starting(today, Time::of_hour(hour));
        assert(span@ == self.rule_from(today, TimeOfDay::hour(hour as int)));
        span
    }

    /// Every `self` at 00:00, from the next such day on.
    pub fn midnight(self) -> (span: TimeSpan)
        ensures
            exists|today: WeekDay| span@ == #[trigger] self.rule_from(today, TimeOfDay::hour(0)),
    {
        self.starting_today(MIDNIGHT)
    }

    /// Every `self` at 06:00, from the next such day on.
    pub fn morning(self) -> (span: TimeSpan)
        ensures
            exists|today: WeekDay| span@ == #[trigger] self.rule_from(today, TimeOfDay::hour(6)),
    {
        self.starting_today(MORNING)
    }

    /// Every `self` at 12:00, from the next such day on.
    pub fn afternoon(self) -> (span: TimeSpan)
        ensures
            exists|today: WeekDay| span@ == #[trigger] self.rule_from(today, TimeOfDay::hour(12)),
    {
        self.starting_today(AFTERNOON)
    }

    /// Every `self` at 18:00, from the next such day on.
    pub fn evening(self) -> (span: TimeSpan)
        ensures
            exists|today: WeekDay| span@ == #[trigger] self.rule_from(today, TimeOfDay::hour(18)),
    {
        self.starting_today(EVENING)
    }

    /// Every `self` at the time of day written in `time_str` as `HH:MM`, from
    /// the next such day on. Text that is not of that form, or that names an
    /// hour over 23 or a minute over 59, is a `ParseError`.
    pub fn at(self, time_str: &str) -> (span: Result<TimeSpan, ScheduleError>)
        ensures
            match parse_time(time_str.spec_bytes()) {
                Some(time) => span is Ok && exists|today: WeekDay|
                    span->Ok_0@ == #[trigger] self.rule_from(today, time),
                None => span == Err::<TimeSpan, ScheduleError>(ScheduleError::ParseError),
            },
    {
        match Time::from_time_str(time_str) {
            Ok(time) => {
                let today = WeekDay::of(&Timestamp::now());
                let span = self.starting(today, time);
                assert(span@ == self.rule_from(today, time@));
                Ok(span)
            },
            Err(error) => Err(error),
        }
    }
}

/// A weekly rule made on a given day of the week fires first on the next day
/// that is the rule's own, never on the day on which it was made, and after
/// the instant at which it is asked.
pub proof fn lemma_weekday_rule_lands_on_its_day(
    day: WeekDay,
    today: WeekDay,
    time: TimeOfDay,
    now: int,
)
    requires
        now >= 0,
        time.valid(),
        weekday_of(now) == today.number(),
    ensures
        weekday_of(day.rule_from(today, time).next_instant(now)) == day.number(),
        day.rule_from(today, time).next_instant(now) > now,
        now / 86400 < day.rule_from(today, time).next_instant(now) / 86400 <= now / 86400 + 7,
{
    let rule = day.rule_from(today, time);
    let days = day.distance_from(today);
    let plain = now + days * 86400;
    let second: int = match time.second {
        Some(s) => s,
        None => 0,
    };
    lemma_at_time_of_day(plain, time);
    lemma_fundamental_div_mod_converse(
        at_time_of_day(plain, time),
        86400,
        now / 86400 + days,
        time.hour * 3600 + time.minute * 60 + second,
    );
}

} // verus!
