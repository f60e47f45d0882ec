use std::time::Duration;

use scheduler::time::timestamp::Timestamp;
use scheduler::time::ts_components::TSComponents;
use scheduler::time::{Date, Time};
use scheduler::ScheduleError;

fn fields(c: &TSComponents) -> (u64, u8, u8, u8, u8, u8) {
    (c.year(), c.month(), c.day(), c.hour(), c.minute(), c.second())
}

fn breakdown(ts: u64) -> (u64, u8, u8, u8, u8, u8) {
    fields(&TSComponents::from(ts))
}

#[test]
fn leap_years_follow_the_gregorian_rule() {
    assert!(!TSComponents::is_leap(1900));
    assert!(TSComponents::is_leap(2000));
    assert!(TSComponents::is_leap(2024));
    assert!(!TSComponents::is_leap(2023));
    assert!(!TSComponents::is_leap(2100));
    assert!(TSComponents::is_leap(2400));
    assert!(TSComponents::is_leap(1972));
    assert!(!TSComponents::is_leap(1970));
}

#[test]
fn months_have_their_lengths() {
    let lengths = [31, 28, 31, 30, 31, 30, 31, 31, 30, 31, 30, 31];
    for month in 1..=12u8 {
        assert_eq!(
            TSComponents::days_in_month(2023, month),
            Ok(lengths[month as usize - 1])
        );
    }
    assert_eq!(TSComponents::days_in_month(2024, 2), Ok(29));
    assert_eq!(TSComponents::days_in_month(2000, 2), Ok(29));
    assert_eq!(TSComponents::days_in_month(1900, 2), Ok(28));
    assert_eq!(TSComponents::days_in_month(2100, 2), Ok(28));
}

#[test]
fn a_month_outside_the_year_is_reported() {
    assert_eq!(
        TSComponents::days_in_month(2024, 0),
        Err(ScheduleError::InvalidCalendarField)
    );
    assert_eq!(
        TSComponents::days_in_month(2024, 13),
        Err(ScheduleError::InvalidCalendarField)
    );
    assert_eq!(
        TSComponents::days_in_month(2024, 255),
        Err(ScheduleError::InvalidCalendarField)
    );
}

#[test]
fn instants_break_down_into_dates() {
    assert_eq!(breakdown(0), (1970, 1, 1, 0, 0, 0));
    assert_eq!(breakdown(59), (1970, 1, 1, 0, 0, 59));
    assert_eq!(breakdown(86_399), (1970, 1, 1, 23, 59, 59));
    assert_eq!(breakdown(86_400), (1970, 1, 2, 0, 0, 0));
    assert_eq!(breakdown(94_608_000), (1972, 12, 31, 0, 0, 0));
    assert_eq!(breakdown(951_782_400), (2000, 2, 29, 0, 0, 0));
    assert_eq!(breakdown(1_709_210_096), (2024, 2, 29, 12, 34, 56));
    assert_eq!(breakdown(2_147_483_647), (2038, 1, 19, 3, 14, 7));
    assert_eq!(breakdown(253_389_174_348), (9999, 8, 2, 1, 45, 48));
    assert_eq!(breakdown(253_402_300_799), (9999, 12, 31, 23, 59, 59));
    assert_eq!(breakdown(13_574_563_200), (2400, 2, 29, 0, 0, 0));
}

#[test]
fn cycles_of_years_end_on_the_right_day() {
    // The hundredth year after 1970 begins a day later than a century of
    // 36524 days would have it: 2000 was a leap year.
    assert_eq!(breakdown(3_155_673_600), (2069, 12, 31, 0, 0, 0));
    assert_eq!(breakdown(3_155_760_000), (2070, 1, 1, 0, 0, 0));
    // 2100 is no leap year.
    assert_eq!(breakdown(4_107_542_399), (2100, 2, 28, 23, 59, 59));
    assert_eq!(breakdown(4_107_542_400), (2100, 3, 1, 0, 0, 0));
    assert_eq!(breakdown(4_133_980_800), (2101, 1, 1, 0, 0, 0));
}

#[test]
fn the_last_instant_has_a_breakdown() {
    assert_eq!(breakdown(u64::MAX), (584_554_051_223, 11, 9, 7, 0, 15));
    assert_eq!(TSComponents::from(u64::MAX).as_timestamp(), u64::MAX);
    assert_eq!(
        TSComponents::new(584_554_051_223, 11, 9, 7, 0, 15).map(|c| c.as_timestamp()),
        Ok(u64::MAX)
    );
    assert_eq!(
        TSComponents::new(584_554_051_223, 11, 9, 7, 0, 16).err(),
        Some(ScheduleError::RangeError)
    );
    assert_eq!(
        TSComponents::new(u64::MAX, 1, 1, 0, 0, 0).err(),
        Some(ScheduleError::RangeError)
    );
}

#[test]
fn breakdowns_convert_back_to_their_instants() {
    let mut ts: u64 = 0;
    while ts < 8_000_000_000 {
        assert_eq!(TSComponents::from(ts).as_timestamp(), ts);
        ts += 86_400 * 13 + 3_607;
    }
    let mut ts: u64 = 253_402_300_799;
    for _ in 0..2_000 {
        assert_eq!(TSComponents::from(ts).as_timestamp(), ts);
        ts -= 86_400 * 366 * 4 + 61;
    }
    let mut ts: u64 = u64::MAX;
    for _ in 0..2_000 {
        assert_eq!(TSComponents::from(ts).as_timestamp(), ts);
        ts -= 1_000_000_007 * 1_000;
    }
}

#[test]
fn dates_convert_to_instants() {
    let instant = |y, mo, d, h, mi, s| TSComponents::new(y, mo, d, h, mi, s).map(|c| c.as_timestamp());
    assert_eq!(instant(1970, 1, 1, 0, 0, 0), Ok(0));
    assert_eq!(instant(1970, 1, 1, 0, 0, 1), Ok(1));
    assert_eq!(instant(1970, 2, 1, 1, 1, 1), Ok(31 * 86_400 + 3_661));
    assert_eq!(instant(2000, 2, 29, 0, 0, 0), Ok(951_782_400));
    assert_eq!(instant(2024, 2, 29, 12, 34, 56), Ok(1_709_210_096));
    assert_eq!(instant(2038, 1, 19, 3, 14, 7), Ok(2_147_483_647));
    assert_eq!(instant(9999, 12, 31, 23, 59, 59), Ok(253_402_300_799));
}

#[test]
fn fields_out_of_range_are_refused() {
    let made = |y, mo, d, h, mi, s| TSComponents::new(y, mo, d, h, mi, s).err();
    let range = Some(ScheduleError::RangeError);
    assert_eq!(made(1969, 12, 31, 23, 59, 59), range);
    assert_eq!(made(2024, 0, 1, 0, 0, 0), range);
    assert_eq!(made(2024, 13, 1, 0, 0, 0), range);
    assert_eq!(made(2024, 1, 0, 0, 0, 0), range);
    assert_eq!(made(2024, 1, 32, 0, 0, 0), range);
    assert_eq!(made(2023, 2, 29, 0, 0, 0), range);
    assert_eq!(made(2024, 2, 30, 0, 0, 0), range);
    assert_eq!(made(2024, 4, 31, 0, 0, 0), range);
    assert_eq!(made(2024, 1, 1, 24, 0, 0), range);
    assert_eq!(made(2024, 1, 1, 0, 60, 0), range);
    assert_eq!(made(2024, 1, 1, 0, 0, 60), range);
    assert_eq!(made(2024, 2, 29, 23, 59, 59), None);
}

#[test]
fn timestamps_carry_their_breakdown() {
    let ts = Timestamp::new(1_709_210_096);
    assert_eq!(ts.as_timestamp(), 1_709_210_096);
    assert_eq!(fields(ts.get_components()), (2024, 2, 29, 12, 34, 56));
    assert_eq!(ts.get_components().as_timestamp(), 1_709_210_096);
    let date = ts.date();
    assert_eq!((date.year(), date.month(), date.day()), (2024, 2, 29));
}

#[test]
fn adding_seconds_recomputes_the_breakdown() {
    let ts = Timestamp::new(1_709_210_096) + 86_400u64;
    assert_eq!(ts.as_timestamp(), 1_709_296_496);
    assert_eq!(fields(ts.get_components()), (2024, 3, 1, 12, 34, 56));

    let ts = Timestamp::new(0) + Duration::from_millis(61_999);
    assert_eq!(ts.as_timestamp(), 61);
    assert_eq!(fields(ts.get_components()), (1970, 1, 1, 0, 1, 1));

    let mut ts = Timestamp::new(1_709_210_096);
    ts += Duration::from_secs(4);
    assert_eq!(ts.as_timestamp(), 1_709_210_100);
    assert_eq!(fields(ts.get_components()), (2024, 2, 29, 12, 35, 0));
}

#[test]
fn instants_compare_as_their_seconds() {
    let early = Timestamp::new(10);
    let late = Timestamp::new(11);
    assert!(early < late);
    assert!(early <= late);
    assert!(late > early);
    assert!(late >= early);
    assert!(early != late);
    assert!(early == Timestamp::new(10));
    assert!(early <= Timestamp::new(10));
    assert!(early >= Timestamp::new(10));
    assert_eq!(early.partial_cmp(&late), Some(std::cmp::Ordering::Less));
    assert_eq!(late.partial_cmp(&early), Some(std::cmp::Ordering::Greater));
    assert_eq!(early.partial_cmp(&early), Some(std::cmp::Ordering::Equal));
    assert_eq!(early.cmp(&late), std::cmp::Ordering::Less);
    assert_eq!(early.max(late).as_timestamp(), 11);
    assert_eq!(late.max(early).as_timestamp(), 11);
    assert_eq!(early.min(late).as_timestamp(), 10);
    assert_eq!(late.min(early).as_timestamp(), 10);
    assert_eq!(Timestamp::new(5).clamp(early, late).as_timestamp(), 10);
    assert_eq!(Timestamp::new(15).clamp(early, late).as_timestamp(), 11);
    assert_eq!(Timestamp::new(10).clamp(early, late).as_timestamp(), 10);
}

#[test]
fn the_clock_reads_a_time_after_2020() {
    let now = Timestamp::now();
    assert!(now.as_timestamp() > 1_577_836_800);
    assert_eq!(now.get_components().as_timestamp(), now.as_timestamp());
    let today = Date::today();
    assert!(today.year() >= 2020);
    assert!(now.get_components().year() >= today.year() - 1);
}

#[test]
fn set_time_overwrites_the_time_of_day() {
    // 2024-02-29T12:34:56Z
    let mut ts = Timestamp::new(1_709_210_096);
    assert_eq!(ts.set_time(&Time::from_time_str("10:00").unwrap()), Ok(()));
    assert_eq!(fields(ts.get_components()), (2024, 2, 29, 10, 0, 0));
    assert_eq!(ts.as_timestamp(), 1_709_164_800 + 36_000);

    assert_eq!(ts.set_time(&Time::new(23, 59, Some(58)).unwrap()), Ok(()));
    assert_eq!(fields(ts.get_components()), (2024, 2, 29, 23, 59, 58));
    assert_eq!(ts.as_timestamp(), 1_709_164_800 + 86_398);

    assert_eq!(ts.set_time(&Time::new(0, 0, None).unwrap()), Ok(()));
    assert_eq!(ts.as_timestamp(), 1_709_164_800);
}

#[test]
fn set_time_stops_at_the_last_instant() {
    // The last day that can be counted ends at 07:00:15.
    let mut ts = Timestamp::new(u64::MAX - 15);
    assert_eq!(
        ts.set_time(&Time::new(7, 0, Some(16)).unwrap()),
        Err(ScheduleError::RangeError)
    );
    assert_eq!(ts.as_timestamp(), u64::MAX - 15);
    assert_eq!(ts.set_time(&Time::new(7, 0, Some(15)).unwrap()), Ok(()));
    assert_eq!(ts.as_timestamp(), u64::MAX);
}

#[test]
fn set_date_writes_the_day_into_the_day() {
    // 2024-02-29T12:34:56Z
    let mut ts = Timestamp::new(1_709_210_096);
    assert_eq!(ts.set_date(&Date::new(2024, 5, 17).unwrap()), Ok(()));
    assert_eq!(fields(ts.get_components()), (2024, 5, 17, 12, 34, 56));
    assert_eq!(ts.get_components().day(), 17);
    assert_eq!(ts.get_components().second(), 56);
    assert_eq!(
        ts.as_timestamp(),
        TSComponents::new(2024, 5, 17, 12, 34, 56).unwrap().as_timestamp()
    );
}

#[test]
fn set_date_refuses_dates_without_an_instant() {
    let mut ts = Timestamp::new(1_709_210_096);
    assert_eq!(
        ts.set_date(&Date::new(1969, 12, 31).unwrap()),
        Err(ScheduleError::RangeError)
    );
    assert_eq!(
        ts.set_date(&Date::new(u64::MAX, 1, 1).unwrap()),
        Err(ScheduleError::RangeError)
    );
    assert_eq!(ts.as_timestamp(), 1_709_210_096);
}

#[test]
fn dates_are_checked_when_made() {
    assert!(Date::new(2024, 2, 29).is_ok());
    assert_eq!(Date::new(2023, 2, 29).err(), Some(ScheduleError::RangeError));
    assert_eq!(Date::new(2024, 0, 1).err(), Some(ScheduleError::RangeError));
    assert_eq!(Date::new(2024, 13, 1).err(), Some(ScheduleError::RangeError));
    assert_eq!(Date::new(2024, 6, 0).err(), Some(ScheduleError::RangeError));
    assert_eq!(Date::new(2024, 6, 31).err(), Some(ScheduleError::RangeError));
}

fn ymd(date: Date) -> (u64, u8, u8) {
    (date.year(), date.month(), date.day())
}

#[test]
fn dates_move_on_by_years_months_and_days() {
    let leap_day = Date::new(2024, 2, 29).unwrap();
    assert_eq!(ymd(leap_day.incr_year(1)), (2025, 2, 28));
    assert_eq!(ymd(leap_day.incr_year(4)), (2028, 2, 29));
    assert_eq!(ymd(leap_day.incr_year(0)), (2024, 2, 29));
    assert_eq!(ymd(leap_day.incr_month(12)), (2025, 2, 28));
    assert_eq!(ymd(leap_day.incr_month(1)), (2024, 3, 29));

    let end_of_january = Date::new(2024, 1, 31).unwrap();
    assert_eq!(ymd(end_of_january.incr_month(1)), (2024, 2, 29));
    assert_eq!(ymd(end_of_january.incr_month(3)), (2024, 4, 30));
    assert_eq!(ymd(end_of_january.incr_month(11)), (2024, 12, 31));

    let december = Date::new(2024, 12, 25).unwrap();
    assert_eq!(ymd(december.incr_month(1)), (2025, 1, 25));
    assert_eq!(ymd(december.incr_month(14)), (2026, 2, 25));
    assert_eq!(ymd(december.incr_month(255)), (2046, 3, 25));
    assert_eq!(ymd(december.incr_day(6)), (2024, 12, 31));
    assert_eq!(ymd(december.incr_day(7)), (2025, 1, 1));
    assert_eq!(ymd(december.incr_day(0)), (2024, 12, 25));
    assert_eq!(ymd(Date::new(2024, 2, 28).unwrap().incr_day(2)), (2024, 3, 1));
    assert_eq!(ymd(Date::new(2023, 2, 28).unwrap().incr_day(1)), (2023, 3, 1));
    assert_eq!(ymd(Date::new(2024, 1, 1).unwrap().incr_day(255)), (2024, 9, 12));
}

#[test]
fn month_and_year_intervals_are_measured_on_the_calendar() {
    // 2024-01-31T09:00:00Z; a month on is 2024-02-29T09:00:00Z.
    let end_of_january = Timestamp::new(1_706_691_600);
    assert_eq!(end_of_january.get_month_interval(1), 29 * 86_400);
    assert_eq!(end_of_january.get_month_interval(0), 0);
    // 2023-11-15T08:30:15Z; three months on is 2024-02-15T08:30:15Z.
    assert_eq!(
        Timestamp::new(1_700_037_015).get_month_interval(3),
        1_707_985_815 - 1_700_037_015
    );
    // 2024-12-25T10:11:12Z; fourteen months on is 2026-02-25T10:11:12Z.
    assert_eq!(
        Timestamp::new(1_735_121_472).get_month_interval(14),
        1_772_014_272 - 1_735_121_472
    );
    // 2024-02-29T00:00:00Z; a year on is 2025-02-28, four years on 2028-02-29.
    let leap_day = Timestamp::new(1_709_164_800);
    assert_eq!(leap_day.get_year_interval(1), 1_740_700_800 - 1_709_164_800);
    assert_eq!(leap_day.get_year_interval(4), 1_835_395_200 - 1_709_164_800);
    assert_eq!(leap_day.get_year_interval(0), 0);
    assert_eq!(Timestamp::new(0).get_year_interval(1), 365 * 86_400);
    assert_eq!(Timestamp::new(0).get_year_interval(3), (3 * 365 + 1) * 86_400);
}
