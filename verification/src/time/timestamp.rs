//! Instants: a count of seconds since 1970 together with its calendar
//! breakdown.
use crate::error::ScheduleError;
use crate::time::calendar::{
    at_time_of_day, breakdown_of, lemma_breakdown_of_epoch, lemma_breakdown_round_trip,
    lemma_day_number_bounds, lemma_days_before_year_grows, lemma_months_later, lemma_years_later,
    months_after, weekday_of, with_date, years_after, Breakdown,
};
use crate::time::clock::{duration_secs, epoch_seconds_now};
use crate::time::consts::DAY_IN_SECS;
use crate::time::ts_components::TSComponents;
use crate::time::{Date, Time};
use core::ops::{Add, AddAssign};
use core::time::Duration;
use vstd::prelude::*;
use vstd::std_specs::ops::AddSpecImpl;

verus! {

/// An instant, counted in whole seconds since 1970-01-01T00:00:00 UTC.
///
/// The calendar breakdown of the instant is kept beside the count and always
/// agrees with it. Two instants compare as their counts do.
#[derive(Clone, Copy, Debug, Eq, Ord)]
pub struct Timestamp {
    inner: u64,
    components: TSComponents,
}

impl View for Timestamp {
    type V = u64;

    closed spec fn view(&self) -> u64 {
        self.inner
    }
}

impl Timestamp {
    #[verifier::type_invariant]
    spec fn well_formed(self) -> bool {
        self.components@ == breakdown_of(self.inner as int)
    }

    /// The instant `ts` seconds after 1970-01-01T00:00:00.
    pub closed spec fn at(ts: u64) -> Timestamp {
        Timestamp { inner: ts, components: TSComponents::holding(breakdown_of(ts as int)) }
    }

    /// The calendar breakdown of this instant.
    pub open spec fn breakdown(&self) -> Breakdown {
        breakdown_of(self@ as int)
    }

    /// The instant that the system clock shows, in UTC. A clock set before
    /// 1970 reads as 1970-01-01T00:00:00.
    pub fn now() -> (now: Timestamp)
        ensures
            now == Timestamp::at(now@),
    {
        Self::new(epoch_seconds_now())
    }

    /// The instant `ts` seconds after 1970-01-01T00:00:00.
    pub fn new(ts: u64) -> (made: Timestamp)
        ensures
            made@ == ts,
            made == Timestamp::at(ts),
    {
        let components = TSComponents::from(ts);
        Self { inner: ts, components }
    }

    /// Seconds since 1970-01-01T00:00:00.
    pub fn as_timestamp(&self) -> (ts: u64)
        ensures
            ts == self@,
    {
        self.inner
    }

    /// Day of the week, 0 for Sunday to 6 for Saturday.
    pub fn day_of_week(&self) -> (day: u8)
        ensures
            day == weekday_of(self@ as int),
            day <= 6,
    {
        ((self.inner / DAY_IN_SECS + 4) % 7) as u8
    }

    /// The calendar breakdown of this instant.
    pub fn get_components(&self) -> (components: &TSComponents)
        ensures
            components@ == self.breakdown(),
            components@.valid(),
            components@.epoch() == self@,
    {
        proof {
            use_type_invariant(self);
            lemma_breakdown_round_trip(self.inner as int);
        }
        &self.components
    }

    /// The date on which this instant falls.
    pub fn date(&self) -> (date: Date)
        ensures
            date@ == self.breakdown().date(),
            date@.valid(),
    {
        proof {
            use_type_invariant(self);
            lemma_breakdown_round_trip(self.inner as int);
        }
        Date::of_fields(self.components.year(), self.components.month(), self.components.day())
    }
}

impl Timestamp {
    /// The instant `period` calendar months after this one, on the same day of
    /// the month (or the month's last) at the same time of day.
    pub(crate) fn months_ahead(&self, period: u8) -> (instant: u128)
        ensures
            instant == months_after(self@ as int, period as int),
            self@ <= instant <= self@ + (period + 1) * 31 * 86400,
    {
        proof {
            use_type_invariant(self);
            lemma_breakdown_round_trip(self.inner as int);
            lemma_months_later(self.components@, period as int);
            lemma_day_number_bounds(self.components@);
            lemma_days_before_year_grows(1970, self.components@.year);
        }
        let date = self.date().incr_month(period);
        TSComponents::epoch_of_fields(
            date.year(),
            date.month(),
            date.day(),
            self.components.hour(),
            self.components.minute(),
            self.components.second(),
        )
    }

    /// The instant `period` calendar years after this one, on the same date
    /// (29 February giving way to 28 February) at the same time of day.
    pub(crate) fn years_ahead(&self, period: u32) -> (instant: u128)
        ensures
            instant == years_after(self@ as int, period as int),
            self@ <= instant <= self@ + (period + 1) * 366 * 86400,
    {
        proof {
            use_type_invariant(self);
            lemma_breakdown_round_trip(self.inner as int);
            lemma_years_later(self.components@, period as int);
            lemma_day_number_bounds(self.components@);
            lemma_days_before_year_grows(1970, self.components@.year);
        }
        let date = self.date().incr_year(period);
        TSComponents::epoch_of_fields(
            date.year(),
            date.month(),
            date.day(),
            self.components.hour(),
            self.components.minute(),
            self.components.second(),
        )
    }

    /// Seconds from this instant to the same date and time of day `period`
    /// years later.
    pub fn get_year_interval(&self, period: u32) -> (interval: u64)
        ensures
            interval == years_after(self@ as int, period as int) - self@,
    {
        (self.years_ahead(period) - self.inner as u128) as u64
    }

    /// Seconds from this instant to the same day and time of day `period`
    /// months later.
    pub fn get_month_interval(&self, period: u8) -> (interval: u64)
        ensures
            interval == months_after(self@ as int, period as int) - self@,
    {
        (self.months_ahead(period) - self.inner as u128) as u64
    }

    /// Moves this instant to the time of day `time` on its own date. Hour,
    /// minute and second are overwritten; a `time` without a second sets the
    /// second to 0. Where the instant asked for is past the last that can be
    /// counted, nothing changes and a `RangeError` is returned.
    pub fn set_time(&mut self, time: &Time) -> (done: Result<(), ScheduleError>)
        ensures
            at_time_of_day(old(self)@ as int, time@) <= u64::MAX ==> done is Ok && final(self)@
                == at_time_of_day(old(self)@ as int, time@),
            at_time_of_day(old(self)@ as int, time@) > u64::MAX ==> done == Err::<
                (),
                ScheduleError,
            >(ScheduleError::RangeError) && *final(self) == *old(self),
    {
        proof {
            use_type_invariant(&*self);
            lemma_breakdown_round_trip(self.inner as int);
        }
        let second = match time.seconds() {
            Some(s) => s,
            None => 0,
        };
        let made = TSComponents::new(
            self.components.year(),
            self.components.month(),
            self.components.day(),
            time.hours(),
            time.minutes(),
            second,
        );
        match made {
            Ok(components) => {
                proof {
                    lemma_breakdown_of_epoch(components@);
                }
                *self = Timestamp { inner: components.as_timestamp(), components };
                Ok(())
            },
            Err(error) => Err(error),
        }
    }

    /// Moves this instant to the date `date`, at its own time of day. Where
    /// `date` lies before 1970, or the instant asked for is past the last that
    /// can be counted, nothing changes and a `RangeError` is returned.
    pub fn set_date(&mut self, date: &Date) -> (done: Result<(), ScheduleError>)
        ensures
            ({
                let target = with_date(
                    old(self).breakdown(),
                    date@.year,
                    date@.month,
                    date@.day,
                );
                if date@.year >= 1970 && target.epoch() <= u64::MAX {
                    done is Ok && final(self)@ == target.epoch()
                } else {
                    done == Err::<(), ScheduleError>(ScheduleError::RangeError) && *final(self)
                        == *old(self)
                }
            }),
    {
        proof {
            use_type_invariant(&*self);
            lemma_breakdown_round_trip(self.inner as int);
        }
        let made = TSComponents::new(
            date.year(),
            date.month(),
            date.day(),
            self.components.hour(),
            self.components.minute(),
            self.components.second(),
        );
        match made {
            Ok(components) => {
                proof {
                    lemma_breakdown_of_epoch(components@);
                }
                *self = Timestamp { inner: components.as_timestamp(), components };
                Ok(())
            },
            Err(error) => Err(error),
        }
    }
}

impl Timestamp {
    /// The instant later by the whole seconds of `duration`, or `None` where
    /// that instant is past the last that can be counted.
    pub fn checked_add(&self, duration: Duration) -> (later: Option<Timestamp>)
        ensures
            self@ + duration_secs(duration) <= u64::MAX ==> later is Some && later->Some_0@
                == self@ + duration_secs(duration),
            self@ + duration_secs(duration) > u64::MAX ==> later is None,
    {
        match self.inner.checked_add(duration.as_secs()) {
            Some(instant) => Some(Timestamp::new(instant)),
            None => None,
        }
    }
}

impl Add<u64> for Timestamp {
    type Output = Timestamp;

    /// The instant `rhs` seconds later.
    fn add(self, rhs: u64) -> (later: Timestamp)
        ensures
            later@ == self@ + rhs,
    {
        Timestamp::new(self.inner + rhs)
    }
}

impl AddSpecImpl<u64> for Timestamp {
    open spec fn obeys_add_spec() -> bool {
        true
    }

    open spec fn add_req(self, rhs: u64) -> bool {
        self@ + rhs <= u64::MAX
    }

    open spec fn add_spec(self, rhs: u64) -> Timestamp {
        Timestamp::at((self@ + rhs) as u64)
    }
}

impl Add<Duration> for Timestamp {
    type Output = Timestamp;

    /// The instant later by the whole seconds of `rhs`.
    fn add(self, rhs: Duration) -> (later: Timestamp)
        ensures
            later@ == self@ + duration_secs(rhs),
    {
        Timestamp::new(self.inner + rhs.as_secs())
    }
}

impl AddSpecImpl<Duration> for Timestamp {
    open spec fn obeys_add_spec() -> bool {
        true
    }

    open spec fn add_req(self, rhs: Duration) -> bool {
        self@ + duration_secs(rhs) <= u64::MAX
    }

    open spec fn add_spec(self, rhs: Duration) -> Timestamp {
        Timestamp::at((self@ + duration_secs(rhs)) as u64)
    }
}

impl AddAssign<Duration> for Timestamp {
    /// Moves this instant on by the whole seconds of `rhs`.
    fn add_assign(&mut self, rhs: Duration)
        requires
            old(self)@ + duration_secs(rhs) <= u64::MAX,
        ensures
            final(self)@ == old(self)@ + duration_secs(rhs),
            *final(self) == Timestamp::at(final(self)@),
    {
        *self = Timestamp::new(self.inner + rhs.as_secs());
    }
}

} // verus!
