use scheduler::time::timestamp::Timestamp;
use scheduler::time::{Step, Time, TimeSpan, WeekDay};
use scheduler::ScheduleError;

const DAY: u64 = 86_400;

const ALL: [WeekDay; 7] = [
    WeekDay::Sunday,
    WeekDay::Monday,
    WeekDay::Tuesday,
    WeekDay::Wednesday,
    WeekDay::Thursday,
    WeekDay::Friday,
    WeekDay::Saturday,
];

fn anchor(span: &TimeSpan) -> Option<(u8, u8, Option<u8>)> {
    span.start_at().map(|t| (t.hours(), t.minutes(), t.seconds()))
}

#[test]
fn the_next_wednesday_after_a_wednesday_is_a_week_away() {
    let today = WeekDay::Wednesday;
    assert_eq!(WeekDay::Wednesday.days_until(today), 7);
    assert_eq!(WeekDay::Thursday.days_until(today), 1);
    assert_eq!(WeekDay::Monday.days_until(today), 5);
    assert_eq!(WeekDay::Sunday.days_until(today), 4);
    assert_eq!(WeekDay::Saturday.days_until(today), 3);
    assert_eq!(WeekDay::Tuesday.days_until(today), 6);
    assert_eq!(WeekDay::Friday.days_until(today), 2);
}

#[test]
fn days_until_counts_forward_round_the_week() {
    for today in ALL {
        for day in ALL {
            let days = day.days_until(today);
            assert!((1..=7).contains(&days));
            assert_eq!((today.ordinal() + days) % 7, day.ordinal());
            assert_eq!(days == 7, day == today);
        }
    }
}

#[test]
fn the_day_of_an_instant() {
    // 2024-01-03 was a Wednesday.
    assert_eq!(WeekDay::of(&Timestamp::new(1_704_240_000)), WeekDay::Wednesday);
    for (n, day) in ALL.iter().enumerate() {
        // 1970-01-04 was a Sunday.
        let instant = Timestamp::new((3 + n as u64) * DAY + 12_345);
        assert_eq!(WeekDay::of(&instant), *day);
        assert_eq!(instant.day_of_week(), day.ordinal());
    }
}

#[test]
fn weekday_rules_start_on_the_next_such_day() {
    let rule = WeekDay::Monday.starting(WeekDay::Wednesday, Time::new(18, 0, None).unwrap());
    assert_eq!(rule.interval(), 7 * DAY);
    assert_eq!(rule.start_in(), Some(5 * DAY));
    assert_eq!(rule.step(), Step::Weekday);
    assert_eq!(anchor(&rule), Some((18, 0, None)));
    let same = WeekDay::Wednesday.starting(WeekDay::Wednesday, Time::new(0, 0, None).unwrap());
    assert_eq!(same.start_in(), Some(7 * DAY));
}

/// Builds a rule and reads the clock, both on the same day.
fn on_one_day(build: impl Fn() -> TimeSpan) -> (TimeSpan, Timestamp) {
    loop {
        let before = Timestamp::now();
        let rule = build();
        let after = Timestamp::now();
        if before.as_timestamp() / DAY == after.as_timestamp() / DAY {
            return (rule, after);
        }
    }
}

fn check_named(build: impl Fn() -> TimeSpan, day: WeekDay, hour: u8) {
    let (rule, now) = on_one_day(build);
    assert_eq!(rule.interval(), 7 * DAY);
    assert_eq!(rule.step(), Step::Weekday);
    assert_eq!(anchor(&rule), Some((hour, 0, None)));
    let delay = rule.start_in().unwrap();
    assert_eq!(delay % DAY, 0);
    assert_eq!(delay, day.days_until(WeekDay::of(&now)) as u64 * DAY);

    let mut rule = rule;
    let first = rule.next_run_on(&now);
    assert!(first > now);
    assert_eq!(WeekDay::of(&first), day);
    assert_eq!(first.as_timestamp() % DAY, hour as u64 * 3_600);
    assert_eq!(first.get_components().hour(), hour);
    assert!(first.as_timestamp() - now.as_timestamp() <= 8 * DAY);
    let second = rule.next_run_on(&first);
    assert_eq!(second.as_timestamp(), first.as_timestamp() + 7 * DAY);
}

#[test]
fn named_times_of_day() {
    for day in ALL {
        check_named(|| day.midnight(), day, 0);
        check_named(|| day.morning(), day, 6);
        check_named(|| day.afternoon(), day, 12);
        check_named(|| day.evening(), day, 18);
    }
}

#[test]
fn a_weekday_rule_at_a_written_time() {
    for day in ALL {
        check_named(|| day.at("10:00").unwrap(), day, 10);
    }
    assert_eq!(
        anchor(&WeekDay::Sunday.at("7:05").unwrap()),
        Some((7, 5, None))
    );
    assert_eq!(
        WeekDay::Monday.at("10").err(),
        Some(ScheduleError::ParseError)
    );
    assert_eq!(
        WeekDay::Friday.at("24:00").err(),
        Some(ScheduleError::ParseError)
    );
}
