//! Recurrence rules and the instant at which a rule fires next.
use crate::error::ScheduleError;
use crate::time::calendar::{
    at_time_of_day, breakdown_of, lemma_at_time_of_day, lemma_breakdown_round_trip,
    lemma_day_number_bounds, lemma_later_month_later_day, lemma_months_later, lemma_years_later,
    months_after, months_later, years_after, years_later, TimeOfDay,
};
use crate::time::consts::{DAY_IN_SECS, HOUR_IN_SECS, MINUTE_IN_SECS, WEEK_IN_SECS};
use crate::time::timestamp::Timestamp;
use crate::time::{parse_time, Time};
use core::ops::Add;
use vstd::prelude::*;
use vstd::std_specs::ops::AddSpecImpl;
use vstd::string::StringSliceAdditionalSpecFns;

verus! {

/// How a recurrence moves from one occurrence to the next.
#[derive(Clone, Copy, Debug, PartialEq, Eq, Structural)]
pub enum Step {
    /// By this many calendar years.
    Year(u32),
    /// By this many calendar months.
    Month(u8),
    /// By a week, to the same weekday.
    Weekday,
    /// By a fixed number of seconds.
    Second,
}

/// A recurrence rule: "every two hours", "every three days at 10:00",
/// "every Monday at midnight", "every two years".
#[derive(Clone, Copy, Debug)]
pub struct TimeSpan {
    /// Seconds from one occurrence to the next, for rules that advance by a
    /// fixed length; 0 for rules that advance by calendar months or years.
    interval: u64,
    /// The time of day at which every occurrence falls, where one is fixed.
    start_at: Option<Time>,
    /// Seconds to the first occurrence; used once, then gone.
    start_in: Option<u64>,
    step: Step,
}

/// A recurrence rule as mathematics.
pub struct Recurrence {
    pub interval: int,
    pub anchor: Option<TimeOfDay>,
    pub start_in: Option<int>,
    pub step: Step,
}

/// `instant`, or the last instant that a `u64` of seconds can count where
/// `instant` lies beyond it.
pub open spec fn capped(instant: int) -> int {
    if instant > u64::MAX {
        u64::MAX as int
    } else {
        instant
    }
}

impl Recurrence {
    /// A rule that advances by `interval` seconds.
    pub open spec fn fixed(interval: int) -> Recurrence {
        Recurrence { interval, anchor: None, start_in: None, step: Step::Second }
    }

    /// A rule that advances by calendar months or years.
    pub open spec fn calendar(step: Step) -> Recurrence {
        Recurrence { interval: 0, anchor: None, start_in: None, step }
    }

    /// The instant one full step after `t`.
    pub open spec fn step_from(self, t: int) -> int {
        match self.step {
            Step::Month(months) => months_after(t, months as int),
            Step::Year(years) => years_after(t, years as int),
            _ => t + self.interval,
        }
    }

    /// The instant one step after `t` for a rule that has not fired yet: a
    /// rule with a fixed step and a first delay waits for that delay instead.
    pub open spec fn first_from(self, t: int) -> int {
        match (self.step, self.start_in) {
            (Step::Weekday, Some(delay)) | (Step::Second, Some(delay)) => t + delay,
            _ => self.step_from(t),
        }
    }

    /// `t` moved to the rule's time of day on its own date; `t` itself where
    /// the rule fixes no time of day.
    pub open spec fn anchored(self, t: int) -> int {
        match self.anchor {
            Some(time) => at_time_of_day(t, time),
            None => t,
        }
    }

    /// The next occurrence as seen at `now`: one step on and moved to the
    /// rule's time of day; where that is not after `now`, one more step on
    /// from there and moved to the time of day again.
    pub open spec fn next_instant(self, now: int) -> int {
        let first = self.anchored(self.first_from(now));
        if first > now {
            first
        } else {
            self.anchored(self.step_from(first))
        }
    }

    /// The rule once it has fired: the first delay is used up.
    pub open spec fn consumed(self) -> Recurrence {
        Recurrence { start_in: None, ..self }
    }

    /// Whether every occurrence that the rule yields lies after the instant
    /// at which it was asked for. A rule with a time of day needs a first
    /// step of a day or more, any other rule one of a second or more.
    pub open spec fn advances(self) -> bool {
        match self.step {
            Step::Month(months) => months >= 1,
            Step::Year(years) => years >= 1,
            _ => {
                let first = match self.start_in {
                    Some(delay) => delay,
                    None => self.interval,
                };
                if self.anchor is Some {
                    first >= 86400
                } else {
                    first >= 1
                }
            },
        }
    }

    /// The anchor, where there is one, is a time of day.
    pub open spec fn valid(self) -> bool {
        &&& self.interval >= 0
        &&& self.anchor matches Some(time) ==> time.valid()
        &&& self.start_in matches Some(delay) ==> delay >= 0
    }
}

impl View for TimeSpan {
    type V = Recurrence;

    closed spec fn view(&self) -> Recurrence {
        Recurrence {
            interval: self.interval as int,
            anchor: match self.start_at {
                Some(time) => Some(time@),
                None => None,
            },
            start_in: match self.start_in {
                Some(delay) => Some(delay as int),
                None => None,
            },
            step: self.step,
        }
    }
}

/// The instant `instant` moved to the time of day `anchor` on its own date,
/// or `instant` itself where there is no `anchor`.
fn anchor_instant(instant: u128, anchor: &Option<Time>) -> (moved: u128)
    requires
        instant <= 2 * u64::MAX,
    ensures
        moved == match anchor {
            Some(time) => at_time_of_day(instant as int, time@),
            None => instant as int,
        },
        moved <= instant + 86400,
        moved + 86400 > instant,
{
    match anchor {
        Some(time) => {
            let hours = time.hours();
            let minutes = time.minutes();
            let second: u128 = match time.seconds() {
                Some(s) => s as u128,
                None => 0,
            };
            proof {
                lemma_at_time_of_day(instant as int, time@);
            }
            instant - instant % 86400 + hours as u128 * 3600 + minutes as u128 * 60 + second
        },
        None => instant,
    }
}

/// The instant `instant` as a `Timestamp`, or the last `Timestamp` where
/// `instant` lies beyond it.
fn capped_timestamp(instant: u128) -> (ts: Timestamp)
    ensures
        ts@ == capped(instant as int),
{
    if instant > u64::MAX as u128 {
        Timestamp::new(u64::MAX)
    } else {
        Timestamp::new(instant as u64)
    }
}

impl TimeSpan {
    #[verifier::type_invariant]
    spec fn well_formed(self) -> bool {
        self@.valid()
    }

    /// `self` with the interval of `other` added to its own.
    pub closed spec fn summed(self, other: TimeSpan) -> TimeSpan {
        TimeSpan { interval: (self.interval + other.interval) as u64, ..self }
    }

    /// A rule from its parts; `start_at` is a time of day by its type.
    pub(crate) fn of_parts(
        interval: u64,
        start_at: Option<Time>,
        start_in: Option<u64>,
        step: Step,
    ) -> (span: TimeSpan)
        ensures
            span@ == (Recurrence {
                interval: interval as int,
                anchor: match start_at {
                    Some(time) => Some(time@),
                    None => None,
                },
                start_in: match start_in {
                    Some(delay) => Some(delay as int),
                    None => None,
                },
                step,
            }),
    {
        if let Some(time) = &start_at {
            proof {
                use_type_invariant(time);
            }
        }
        TimeSpan { interval, start_at, start_in, step }
    }

    /// Seconds from one occurrence to the next; 0 for a rule that advances by
    /// calendar months or years.
    pub fn interval(&self) -> (interval: u64)
        ensures
            interval == self@.interval,
    {
        self.interval
    }

    /// The time of day at which every occurrence falls, where one is fixed.
    pub fn start_at(&self) -> (start_at: Option<Time>)
        ensures
            match start_at {
                Some(time) => self@.anchor == Some(time@),
                None => self@.anchor is None,
            },
    {
        self.start_at
    }

    /// Seconds to the first occurrence, while the rule has not fired.
    pub fn start_in(&self) -> (start_in: Option<u64>)
        ensures
            match start_in {
                Some(delay) => self@.start_in == Some(delay as int),
                None => self@.start_in is None,
            },
    {
        self.start_in
    }

    /// How the rule moves from one occurrence to the next.
    pub fn step(&self) -> (step: Step)
        ensures
            step == self@.step,
    {
        self.step
    }

    /// Combines two rules that both advance by a fixed number of seconds into
    /// one that advances by the sum; time of day and first delay are those of
    /// `self`. Where either rule advances in another way the combination is an
    /// `InvalidRecurrenceCombination`.
    pub fn and(self, span: TimeSpan) -> (combined: Result<TimeSpan, ScheduleError>)
        requires
            self@.step == Step::Second && span@.step == Step::Second ==> self@.interval
                + span@.interval <= u64::MAX,
        ensures
            self@.step == Step::Second && span@.step == Step::Second ==> combined is Ok
                && combined->Ok_0@ == (Recurrence {
                interval: self@.interval + span@.interval,
                ..self@
            }),
            !(self@.step == Step::Second && span@.step == Step::Second) ==> combined == Err::<
                TimeSpan,
                ScheduleError,
            >(ScheduleError::InvalidRecurrenceCombination),
    {
        proof {
            use_type_invariant(&self);
        }
        match (self.step, span.step) {
            (Step::Second, Step::Second) => Ok(
                TimeSpan { interval: self.interval + span.interval, ..self },
            ),
            _ => Err(ScheduleError::InvalidRecurrenceCombination),
        }
    }

    /// Fixes the time of day at which the rule fires, written as `HH:MM` on
    /// the 24-hour clock. Text that is not of that form, or that names an hour
    /// over 23 or a minute over 59, is a `ParseError`.
    pub fn at(self, time_str: &str) -> (anchored: Result<TimeSpan, ScheduleError>)
        ensures
            match parse_time(time_str.spec_bytes()) {
                Some(time) => anchored is Ok && anchored->Ok_0@ == (Recurrence {
                    anchor: Some(time),
                    ..self@
                }),
                None => anchored == Err::<TimeSpan, ScheduleError>(ScheduleError::ParseError),
            },
    {
        proof {
            use_type_invariant(&self);
        }
        match Time::from_time_str(time_str) {
            Ok(time) => Ok(TimeSpan { start_at: Some(time), ..self }),
            Err(error) => Err(error),
        }
    }

    /// Reads the rule's time of day as one of the twelve-hour clock before
    /// noon and keeps it in 24-hour form: 12 o'clock becomes 0, the hours
    /// below 12 stay. An hour past 12 cannot be read so and is a `RangeError`.
    /// A rule without a time of day is returned as it is.
    pub fn am(self) -> (morning: Result<TimeSpan, ScheduleError>)
        ensures
            match self@.anchor {
                Some(time) => if time.hour <= 12 {
                    morning is Ok && morning->Ok_0@ == (Recurrence {
                        anchor: Some(TimeOfDay { hour: time.hour % 12, ..time }),
                        ..self@
                    })
                } else {
                    morning == Err::<TimeSpan, ScheduleError>(ScheduleError::RangeError)
                },
                None => morning is Ok && morning->Ok_0@ == self@,
            },
    {
        proof {
            use_type_invariant(&self);
        }
        match self.start_at {
            Some(time) => {
                let hours = time.hours();
                if hours > 12 {
                    return Err(ScheduleError::RangeError);
                }
                let hours: u8 = if hours == 12 {
                    0
                } else {
                    hours
                };
                match Time::new(hours, time.minutes(), time.seconds()) {
                    Ok(time) => Ok(TimeSpan { start_at: Some(time), ..self }),
                    Err(error) => Err(error),
                }
            },
            None => Ok(self),
        }
    }

    /// The instant one full step after `from`.
    fn step_instant(&self, from: &Timestamp) -> (instant: u128)
        ensures
            instant == self@.step_from(from@ as int),
            from@ <= instant <= 2 * u64::MAX,
    {
        match self.step {
            Step::Month(period) => from.months_ahead(period),
            Step::Year(period) => from.years_ahead(period),
            _ => from.as_timestamp() as u128 + self.interval as u128,
        }
    }

    /// The next occurrence of this rule as seen at `now`.
    ///
    /// A rule that advances by a fixed length moves on from `now` by its first
    /// delay, the first time, and by its interval afterwards; one that advances
    /// by months or years moves `now` on in the calendar. Where the rule fixes
    /// a time of day, the instant reached is moved to that time on its own
    /// date. Should the result not lie after `now`, one more step is taken from
    /// it in the same way. An occurrence past the last instant that can be
    /// counted is reported as that last instant.
    ///
    /// The first delay is used up by the call.
    pub fn next_run_on(&mut self, now: &Timestamp) -> (next: Timestamp)
        ensures
            next@ == capped(old(self)@.next_instant(now@ as int)),
            final(self)@ == old(self)@.consumed(),
            old(self)@.advances() && now@ < u64::MAX ==> next@ > now@,
    {
        proof {
            use_type_invariant(&*self);
        }
        let start_in = self.start_in;
        self.start_in = None;
        let plain: u128 = match (self.step, start_in) {
            (Step::Weekday, Some(delay)) | (Step::Second, Some(delay)) => now.as_timestamp() as u128
                + delay as u128,
            _ => self.step_instant(now),
        };
        let first: u128 = anchor_instant(plain, &self.start_at);
        proof {
            lemma_next_run_after_now(old(self)@, now@ as int);
        }
        if first > now.as_timestamp() as u128 {
            return capped_timestamp(first);
        }
        let reached = Timestamp::new(first as u64);
        let again: u128 = self.step_instant(&reached);
        capped_timestamp(anchor_instant(again, &self.start_at))
    }
}

impl Add for TimeSpan {
    type Output = TimeSpan;

    /// The rule that advances by the sum of two fixed intervals; time of day
    /// and first delay are those of `self`.
    fn add(self, rhs: TimeSpan) -> (sum: TimeSpan)
        ensures
            sum@ == (Recurrence { interval: self@.interval + rhs@.interval, ..self@ }),
    {
        proof {
            use_type_invariant(&self);
        }
        TimeSpan { interval: self.interval + rhs.interval, ..self }
    }
}

impl AddSpecImpl for TimeSpan {
    open spec fn obeys_add_spec() -> bool {
        true
    }

    open spec fn add_req(self, rhs: TimeSpan) -> bool {
        self@.step == Step::Second && rhs@.step == Step::Second && self@.interval + rhs@.interval
            <= u64::MAX
    }

    open spec fn add_spec(self, rhs: TimeSpan) -> TimeSpan {
        self.summed(rhs)
    }
}

/// The builders of recurrence rules: `3.day()`, `2.hour()`, `1.year()`.
pub trait AsTimeSpan {
    /// The number of units that the rule advances by.
    spec fn count(&self) -> int;

    /// Every `self` seconds.
    fn second(&self) -> (span: TimeSpan)
        requires
            0 <= self.count() <= u64::MAX,
        ensures
            span@ == Recurrence::fixed(self.count()),
    ;

    /// Every `self` minutes.
    fn minute(&self) -> (span: TimeSpan)
        requires
            0 <= self.count() * 60 <= u64::MAX,
        ensures
            span@ == Recurrence::fixed(self.count() * 60),
    ;

    /// Every `self` hours.
    fn hour(&self) -> (span: TimeSpan)
        requires
            0 <= self.count() * 3600 <= u64::MAX,
        ensures
            span@ == Recurrence::fixed(self.count() * 3600),
    ;

    /// Every `self` days.
    fn day(&self) -> (span: TimeSpan)
        requires
            0 <= self.count() * 86400 <= u64::MAX,
        ensures
            span@ == Recurrence::fixed(self.count() * 86400),
    ;

    /// Every `self` weeks.
    fn week(&self) -> (span: TimeSpan)
        requires
            0 <= self.count() * 604800 <= u64::MAX,
        ensures
            span@ == Recurrence::fixed(self.count() * 604800),
    ;

    /// Every `self` calendar months. The length of a month is not fixed, so
    /// the rule carries no interval: the step is worked out from the calendar
    /// each time.
    fn month(&self) -> (span: TimeSpan)
        requires
            0 <= self.count() <= u8::MAX,
        ensures
            span@ == Recurrence::calendar(Step::Month(self.count() as u8)),
    ;

    /// Every `self` calendar years.
    fn year(&self) -> (span: TimeSpan)
        requires
            0 <= self.count() <= u32::MAX,
        ensures
            span@ == Recurrence::calendar(Step::Year(self.count() as u32)),
    ;
}

impl AsTimeSpan for u64 {
    open spec fn count(&self) -> int {
        *self as int
    }

    fn second(&self) -> (span: TimeSpan) {
        TimeSpan { interval: *self, start_at: None, start_in: None, step: Step::Second }
    }

    fn minute(&self) -> (span: TimeSpan) {
        TimeSpan {
            interval: *self * MINUTE_IN_SECS,
            start_at: None,
            start_in: None,
            step: Step::Second,
        }
    }

    fn hour(&self) -> (span: TimeSpan) {
        TimeSpan {
            interval: *self * HOUR_IN_SECS,
            start_at: None,
            start_in: None,
            step: Step::Second,
        }
    }

    fn day(&self) -> (span: TimeSpan) {
        TimeSpan {
            interval: *self * DAY_IN_SECS,
            start_at: None,
            start_in: None,
            step: Step::Second,
        }
    }

    fn week(&self) -> (span: TimeSpan) {
        TimeSpan {
            interval: *self * WEEK_IN_SECS,
            start_at: None,
            start_in: None,
            step: Step::Second,
        }
    }

    fn month(&self) -> (span: TimeSpan) {
        TimeSpan { interval: 0, start_at: None, start_in: None, step: Step::Month(*self as u8) }
    }

    fn year(&self) -> (span: TimeSpan) {
        TimeSpan { interval: 0, start_at: None, start_in: None, step: Step::Year(*self as u32) }
    }
}

/// A rule that advances by a fixed number of seconds, with no time of day and
/// no first delay, fires next that many seconds after the instant at which it
/// is asked.
pub proof fn lemma_fixed_rule_next_run(interval: int, now: int)
    requires
        interval >= 0,
    ensures
        Recurrence::fixed(interval).next_instant(now) == now + interval,
{
}

/// A rule that advances yields an occurrence after the instant at which it is
/// asked for.
pub proof fn lemma_next_run_after_now(rule: Recurrence, now: int)
    requires
        rule.valid(),
        now >= 0,
    ensures
        rule.advances() ==> rule.next_instant(now) > now,
{
    if rule.advances() {
        let plain = rule.first_from(now);
        match rule.step {
            Step::Month(months) => {
                lemma_breakdown_round_trip(now);
                lemma_months_later(breakdown_of(now), months as int);
                lemma_later_month_later_day(
                    breakdown_of(now),
                    months_later(breakdown_of(now), months as int),
                );
                lemma_day_number_bounds(breakdown_of(now));
                lemma_day_number_bounds(months_later(breakdown_of(now), months as int));
            },
            Step::Year(years) => {
                lemma_breakdown_round_trip(now);
                lemma_years_later(breakdown_of(now), years as int);
                lemma_later_month_later_day(
                    breakdown_of(now),
                    years_later(breakdown_of(now), years as int),
                );
                lemma_day_number_bounds(breakdown_of(now));
                lemma_day_number_bounds(years_later(breakdown_of(now), years as int));
            },
            _ => {},
        }
        if let Some(time) = rule.anchor {
            assert(plain / 86400 > now / 86400);
            lemma_at_time_of_day(plain, time);
        }
    }
}

} // verus!
