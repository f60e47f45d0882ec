//! Instants, calendar breakdowns and recurrence rules.
pub mod calendar;
pub mod clock;
pub mod consts;
pub mod timespan;
pub mod timestamp;
pub mod timestamp_order;
pub mod ts_components;
pub mod weekday;

use crate::error::ScheduleError;
use crate::time::calendar::{
    days_before_month, lemma_days_before_month, month_length, CalendarDate, TimeOfDay,
};
use crate::time::timestamp::Timestamp;
use crate::time::ts_components::TSComponents;
use vstd::prelude::*;
use vstd::string::StringSliceAdditionalSpecFns;

pub use timespan::{AsTimeSpan, Step, TimeSpan};
pub use weekday::WeekDay;

pub use consts::{
    AFTERNOON, DAYS_IN_LEAP_YEAR, DAYS_IN_YEAR, DAY_IN_SECS, EPOCH_YEAR, EVENING, HOUR_IN_SECS,
    LEAP_YEAR_IN_SECS, MIDNIGHT, MINUTE_IN_SECS, MORNING, WEEK_DAYS, WEEK_IN_SECS, YEAR_IN_SECS,
};

verus! {

/// A time of day on the 24-hour clock, such as 13:43.
#[derive(Clone, Copy, Debug)]
pub struct Time {
    hours: u8,
    minutes: u8,
    seconds: Option<u8>,
}

/// A calendar date: a year, one of its months and one of that month's days.
#[derive(Clone, Copy, Debug)]
pub struct Date {
    year: u64,
    month: u8,
    day: u8,
}

/// Whether `byte` is an ASCII decimal digit, `0` (48) to `9` (57).
pub open spec fn is_digit(byte: u8) -> bool {
    48 <= byte <= 57
}

/// The number that one or two decimal digits write; `None` for anything else.
pub open spec fn field_value(text: Seq<u8>) -> Option<int> {
    if text.len() == 1 && is_digit(text[0]) {
        Some(text[0] - 48)
    } else if text.len() == 2 && is_digit(text[0]) && is_digit(text[1]) {
        Some((text[0] - 48) * 10 + (text[1] - 48))
    } else {
        None
    }
}

/// The time of day that `text` writes: an hour of one or two digits up to 23,
/// a colon (the byte 58), a minute of one or two digits up to 59, and nothing
/// else. `None` where `text` is not of that form.
pub open spec fn parse_time(text: Seq<u8>) -> Option<TimeOfDay> {
    let colon: int = if text.len() > 1 && text[1] == 58 {
        1
    } else {
        2
    };
    if text.len() > colon && text[colon] == 58 {
        match (
            field_value(text.subrange(0, colon)),
            field_value(text.subrange(colon + 1, text.len() as int)),
        ) {
            (Some(hour), Some(minute)) => if hour <= 23 && minute <= 59 {
                Some(TimeOfDay { hour, minute, second: None })
            } else {
                None
            },
            _ => None,
        }
    } else {
        None
    }
}

/// Reads the bytes `text[from..to]` as a number of one or two decimal digits.
pub(crate) fn parse_field(text: &[u8], from: usize, to: usize) -> (value: Option<u8>)
    requires
        from <= to <= text@.len(),
    ensures
        match field_value(text@.subrange(from as int, to as int)) {
            Some(v) => value == Some(v as u8),
            None => value is None,
        },
{
    let ghost field = text@.subrange(from as int, to as int);
    if to - from == 1 {
        let a = text[from];
        assert(field[0] == a);
        if a >= 48 && a <= 57 {
            Some(a - 48)
        } else {
            None
        }
    } else if to - from == 2 {
        let a = text[from];
        let b = text[from + 1];
        assert(field[0] == a && field[1] == b);
        if a >= 48 && a <= 57 && b >= 48 && b <= 57 {
            Some((a - 48) * 10 + (b - 48))
        } else {
            None
        }
    } else {
        None
    }
}

impl View for Time {
    type V = TimeOfDay;

    closed spec fn view(&self) -> TimeOfDay {
        TimeOfDay {
            hour: self.hours as int,
            minute: self.minutes as int,
            second: match self.seconds {
                Some(s) => Some(s as int),
                None => None,
            },
        }
    }
}

impl Time {
    #[verifier::type_invariant]
    pub(crate) open spec fn well_formed(self) -> bool {
        self@.valid()
    }

    /// A time of day from its fields. An hour over 23 or a minute or second
    /// over 59 is a `RangeError`.
    pub fn new(hours: u8, minutes: u8, seconds: Option<u8>) -> (made: Result<Time, ScheduleError>)
        ensures
            ({
                let time = TimeOfDay {
                    hour: hours as int,
                    minute: minutes as int,
                    second: match seconds {
                        Some(s) => Some(s as int),
                        None => None,
                    },
                };
                if time.valid() {
                    made is Ok && made->Ok_0@ == time
                } else {
                    made == Err::<Time, ScheduleError>(ScheduleError::RangeError)
                }
            }),
    {
        if hours > 23 || minutes > 59 {
            return Err(ScheduleError::RangeError);
        }
        if let Some(s) = seconds {
            if s > 59 {
                return Err(ScheduleError::RangeError);
            }
        }
        Ok(Time { hours, minutes, seconds })
    }

    /// `hour` o'clock sharp.
    pub(crate) fn of_hour(hour: u8) -> (time: Time)
        requires
            hour <= 23,
        ensures
            time@ == TimeOfDay::hour(hour as int),
    {
        Time { hours: hour, minutes: 0, seconds: None }
    }

    /// Reads a time of day written as `HH:MM`; either field may be a single
    /// digit. Anything else, and an hour over 23 or a minute over 59, is a
    /// `ParseError`. The time read has no second.
    pub fn from_time_str(time_str: &str) -> (read: Result<Time, ScheduleError>)
        ensures
            match parse_time(time_str.spec_bytes()) {
                Some(time) => read is Ok && read->Ok_0@ == time,
                None => read == Err::<Time, ScheduleError>(ScheduleError::ParseError),
            },
    {
        let text = time_str.as_bytes();
        let len = text.len();
        let colon: usize = if len > 1 && text[1] == 58 {
            1
        } else {
            2
        };
        if len <= colon || text[colon] != 58 {
            return Err(ScheduleError::ParseError);
        }
        let hours = parse_field(text, 0, colon);
        let minutes = parse_field(text, colon + 1, len);
        match (hours, minutes) {
            (Some(hours), Some(minutes)) => {
                if hours <= 23 && minutes <= 59 {
                    Ok(Time { hours, minutes, seconds: None })
                } else {
                    Err(ScheduleError::ParseError)
                }
            },
            _ => Err(ScheduleError::ParseError),
        }
    }

    pub fn hours(&self) -> (hours: u8)
        ensures
            hours == self@.hour,
            hours <= 23,
    {
        proof {
            use_type_invariant(self);
        }
        self.hours
    }

    pub fn minutes(&self) -> (minutes: u8)
        ensures
            minutes == self@.minute,
            minutes <= 59,
    {
        proof {
            use_type_invariant(self);
        }
        self.minutes
    }

    pub fn seconds(&self) -> (seconds: Option<u8>)
        ensures
            match seconds {
                Some(s) => self@.second == Some(s as int) && s <= 59,
                None => self@.second is None,
            },
    {
        proof {
            use_type_invariant(self);
        }
        self.seconds
    }
}

impl View for Date {
    type V = CalendarDate;

    closed spec fn view(&self) -> CalendarDate {
        CalendarDate { year: self.year as int, month: self.month as int, day: self.day as int }
    }
}

impl Date {
    #[verifier::type_invariant]
    spec fn well_formed(self) -> bool {
        self@.valid()
    }

    /// A date from its fields. A month outside 1 to 12, or a day that the
    /// month does not have, is a `RangeError`.
    pub fn new(year: u64, month: u8, day: u8) -> (made: Result<Date, ScheduleError>)
        ensures
            ({
                let date = CalendarDate { year: year as int, month: month as int, day: day as int };
                if date.valid() {
                    made is Ok && made->Ok_0@ == date
                } else {
                    made == Err::<Date, ScheduleError>(ScheduleError::RangeError)
                }
            }),
    {
        match TSComponents::days_in_month(year, month) {
            Ok(length) => {
                if 1 <= day && day as u64 <= length {
                    Ok(Date { year, month, day })
                } else {
                    Err(ScheduleError::RangeError)
                }
            },
            Err(_) => Err(ScheduleError::RangeError),
        }
    }

    /// The date with the given fields, which are known to form one.
    pub(crate) fn of_fields(year: u64, month: u8, day: u8) -> (date: Date)
        requires
            (CalendarDate { year: year as int, month: month as int, day: day as int }).valid(),
        ensures
            date@ == (CalendarDate { year: year as int, month: month as int, day: day as int }),
    {
        Date { year, month, day }
    }

    /// The date that the system clock shows, in UTC.
    pub fn today() -> (date: Date)
        ensures
            date@.valid(),
    {
        Timestamp::now().date()
    }

    /// This date `year` years later. 29 February becomes 28 February where
    /// the year reached is not a leap year.
    pub fn incr_year(self, year: u32) -> (date: Date)
        requires
            self@.year + year <= u64::MAX,
        ensures
            date@ == self@.years_later(year as int),
    {
        proof {
            use_type_invariant(&self);
        }
        let to_year: u64 = self.year + year as u64;
        Date { year: to_year, month: self.month, day: Self::clamp_day(to_year, self.month, self.day) }
    }

    /// This date `month` months later. Months past December run on into the
    /// following years; a day that the month reached does not have becomes
    /// that month's last day.
    pub fn incr_month(self, month: u8) -> (date: Date)
        requires
            self@.year + 22 <= u64::MAX,
        ensures
            date@ == self@.months_later(month as int),
    {
        proof {
            use_type_invariant(&self);
        }
        let index: u64 = (self.month - 1) as u64 + month as u64;
        let to_year: u64 = self.year + index / 12;
        let to_month: u8 = (index % 12 + 1) as u8;
        Date { year: to_year, month: to_month, day: Self::clamp_day(to_year, to_month, self.day) }
    }

    /// This date `day` days later, running on into the following months and
    /// years.
    pub fn incr_day(self, day: u8) -> (date: Date)
        requires
            self@.year + 1 <= u64::MAX,
        ensures
            date@ == self@.days_later(day as nat),
    {
        proof {
            use_type_invariant(&self);
        }
        let mut date = self;
        let mut done: u8 = 0;
        while done < day
            invariant
                done <= day,
                date@ == self@.days_later(done as nat),
                date@.valid(),
                self.year <= date.year <= self.year + 1,
                date.year == self.year + 1 ==> days_before_month(
                    date.year as int,
                    date.month as int,
                ) + date.day <= done,
                self.year + 1 <= u64::MAX,
            decreases day - done,
        {
            proof {
                lemma_days_before_month(date.year as int, date.month as int);
                lemma_days_before_month(date.year as int, date.month as int + 1);
                lemma_days_before_month(date.year as int + 1, 1);
            }
            date =
            if (date.day as u64) < TSComponents::month_days(date.year, date.month) {
                Date { day: date.day + 1, ..date }
            } else if date.month < 12 {
                Date { month: date.month + 1, day: 1, ..date }
            } else {
                Date { year: date.year + 1, month: 1, day: 1 }
            };
            done = done + 1;
        }
        date
    }

    /// `day`, or the last day of `month` of `year` where that month is shorter.
    fn clamp_day(year: u64, month: u8, day: u8) -> (clamped: u8)
        requires
            1 <= month <= 12,
        ensures
            clamped == crate::time::calendar::clamped_day(year as int, month as int, day as int),
    {
        let length = TSComponents::month_days(year, month);
        if day as u64 > length {
            length as u8
        } else {
            day
        }
    }

    pub fn year(&self) -> (year: u64)
        ensures
            year == self@.year,
    {
        self.year
    }

    pub fn month(&self) -> (month: u8)
        ensures
            month == self@.month,
            1 <= month <= 12,
    {
        proof {
            use_type_invariant(self);
        }
        self.month
    }

    pub fn day(&self) -> (day: u8)
        ensures
            day == self@.day,
            1 <= day <= month_length(self@.year, self@.month),
    {
        proof {
            use_type_invariant(self);
        }
        self.day
    }
}

} // verus!
