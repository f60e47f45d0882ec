//! Lengths of the calendar's units.
use vstd::prelude::*;

verus! {

pub const EPOCH_YEAR: u64 = 1970;

pub const WEEK_DAYS: u8 = 7;

pub const DAYS_IN_YEAR: u64 = 365;

pub const DAYS_IN_LEAP_YEAR: u64 = 366;

pub const MINUTE_IN_SECS: u64 = 60;

pub const HOUR_IN_SECS: u64 = 3600;

pub const DAY_IN_SECS: u64 = 86400;

pub const WEEK_IN_SECS: u64 = 604800;

pub const YEAR_IN_SECS: u64 = 31536000;

pub const LEAP_YEAR_IN_SECS: u64 = 31622400;

/// Hour of the day at which a weekday recurrence built with `midnight` fires.
pub const MIDNIGHT: u8 = 0;

/// Hour of the day at which a weekday recurrence built with `morning` fires.
pub const MORNING: u8 = 6;

/// Hour of the day at which a weekday recurrence built with `afternoon` fires.
pub const AFTERNOON: u8 = 12;

/// Hour of the day at which a weekday recurrence built with `evening` fires.
pub const EVENING: u8 = 18;

} // verus!
