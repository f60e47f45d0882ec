use std::time::Duration;

use scheduler::time::timestamp::Timestamp;
use scheduler::time::{WeekDay, DAY_IN_SECS, YEAR_IN_SECS};

/// 2024-01-05T00:00:00Z, a Friday.
const A_FRIDAY: u64 = 1_704_412_800;

#[test]
fn test_day_of_week() {
    let days = vec![
        (Timestamp::new(A_FRIDAY), WeekDay::Friday),
        (
            Timestamp::new(A_FRIDAY) + Duration::from_secs(DAY_IN_SECS * 6),
            WeekDay::Thursday,
        ),
        (
            Timestamp::new(A_FRIDAY) + Duration::from_secs(DAY_IN_SECS * 3),
            WeekDay::Monday,
        ),
        (
            Timestamp::new(A_FRIDAY) + Duration::from_secs(DAY_IN_SECS * 4),
            WeekDay::Tuesday,
        ),
        (
            Timestamp::new(A_FRIDAY) + Duration::from_secs(DAY_IN_SECS * 7),
            WeekDay::Friday,
        ),
        (
            Timestamp::new(A_FRIDAY) + Duration::from_secs(DAY_IN_SECS * 13),
            WeekDay::Thursday,
        ),
        (
            Timestamp::new(A_FRIDAY) + Duration::from_secs(YEAR_IN_SECS),
            WeekDay::Saturday,
        ),
    ];

    for (ts, day) in days {
        assert_eq!(ts.day_of_week(), day as u8)
    }
}

#[test]
fn epoch_fell_on_a_thursday() {
    assert_eq!(Timestamp::new(0).day_of_week(), 4);
    assert_eq!(WeekDay::of(&Timestamp::new(0)), WeekDay::Thursday);
    assert_eq!(Timestamp::new(86_399).day_of_week(), 4);
    assert_eq!(Timestamp::new(86_400).day_of_week(), 5);
    assert_eq!(Timestamp::new(3 * 86_400).day_of_week(), 0);
}

#[test]
fn weekday_ordinals_run_from_sunday() {
    assert_eq!(WeekDay::Sunday.ordinal(), 0);
    assert_eq!(WeekDay::Monday.ordinal(), 1);
    assert_eq!(WeekDay::Tuesday.ordinal(), 2);
    assert_eq!(WeekDay::Wednesday.ordinal(), 3);
    assert_eq!(WeekDay::Thursday.ordinal(), 4);
    assert_eq!(WeekDay::Friday.ordinal(), 5);
    assert_eq!(WeekDay::Saturday.ordinal(), 6);
    assert_eq!(WeekDay::Saturday as u8, 6);
}
