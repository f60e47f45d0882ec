use std::sync::atomic::{AtomicUsize, Ordering};
use std::sync::Arc;

use scheduler::task::{Job, TaskId};
use scheduler::time::timestamp::Timestamp;
use scheduler::time::AsTimeSpan;
use scheduler::time::WeekDay::{Monday, Tuesday};
use scheduler::{ScheduleError, Scheduler};

/// 2024-01-01T00:00:00Z, a Monday.
const NEW_YEAR_2024: u64 = 1_704_067_200;
const HOUR: u64 = 3_600;
const DAY: u64 = 86_400;

fn due_times(scheduler: &Scheduler) -> Vec<u64> {
    (0..scheduler.len())
        .map(|n| scheduler.schedule(TaskId(n)).unwrap().run_on().as_timestamp())
        .collect()
}

fn is_in_due_order(scheduler: &Scheduler) -> bool {
    let order = scheduler.by_due_time();
    let keys: Vec<(u64, usize)> = order
        .iter()
        .map(|id| (scheduler.schedule(*id).unwrap().run_on().as_timestamp(), id.0))
        .collect();
    let mut seen: Vec<usize> = order.iter().map(|id| id.0).collect();
    seen.sort();
    keys.windows(2).all(|pair| pair[0] < pair[1])
        && seen == (0..scheduler.len()).collect::<Vec<usize>>()
}

#[test]
fn test_adding_schedules() -> Result<(), ScheduleError> {
    let mut scheduler = Scheduler::new();
    scheduler
        .every(1.year().at("12:32")?)
        .perform(Job::new(|| println!("Every year at 12:32 PM!")));
    scheduler
        .every(2.hour())
        .perform(Job::new(|| println!("Every 2 hours!")));
    scheduler
        .every(2.day().and(6.hour())?)
        .perform(Job::new(|| println!("Every 2 days and 6 hours!")));
    scheduler
        .every(1.week())
        .perform(Job::new(|| println!("Every week!")));
    scheduler
        .every(1.week())
        .perform(Job::new(|| println!("Every week and every day!!")));
    scheduler
        .every(1.day())
        .perform(Job::new(|| println!("Every week and every day!!")));
    scheduler
        .every(Monday.midnight())
        .perform(Job::new(|| println!("Every Monday at midnight!")));
    scheduler
        .every(Tuesday.afternoon())
        .perform(Job::new(|| println!("Every Tuesday afternoon AND every 3 days at 3:45 AM!")));
    scheduler
        .every(3.day().at("3:45")?.am()?)
        .perform(Job::new(|| println!("Every Tuesday afternoon AND every 3 days at 3:45 AM!")));
    scheduler
        .every(5.month())
        .perform(Job::new(|| println!("Every month!")));
    scheduler
        .every(2.year())
        .perform(Job::new(|| println!("Every 2 years!")));

    scheduler.every(1.hour());

    assert_eq!(1, 1);
    assert_eq!(scheduler.len(), 12);
    assert!(is_in_due_order(&scheduler));
    let now = Timestamp::now();
    for due in due_times(&scheduler) {
        assert!(due > now.as_timestamp() - 5);
    }
    Ok(())
}

#[test]
fn task_ids_count_up_from_zero() {
    let mut scheduler = Scheduler::new();
    let now = Timestamp::new(NEW_YEAR_2024);
    for expected in 0..20usize {
        let id = scheduler
            .every_at(((expected % 7) as u64 + 1).hour(), &now)
            .perform(Job::new(|| {}));
        assert_eq!(id, TaskId(expected));
        assert_eq!(scheduler.len(), expected + 1);
        scheduler.refresh_at(&Timestamp::new(NEW_YEAR_2024 + expected as u64 * HOUR));
    }
    for n in 0..20usize {
        assert_eq!(scheduler.tasks(TaskId(n)).unwrap().id(), TaskId(n));
        assert_eq!(scheduler.schedule(TaskId(n)).unwrap().id(), TaskId(n));
    }
    assert!(scheduler.tasks(TaskId(20)).is_none());
    assert!(scheduler.schedule(TaskId(20)).is_none());
    assert!(is_in_due_order(&scheduler));
}

#[test]
fn refresh_moves_every_due_schedule_past_now() {
    let long_ago = Timestamp::new(1_000);
    let mut scheduler = Scheduler::new();
    scheduler.every_at(2.hour(), &long_ago);
    scheduler.every_at(1.day().at("10:00").unwrap(), &long_ago);
    scheduler.every_at(3.month(), &long_ago);
    assert_eq!(due_times(&scheduler), vec![8_200, 86_400 + 10 * HOUR, 7_776_000 + 1_000]);

    let now = Timestamp::new(NEW_YEAR_2024 + 9 * HOUR);
    assert_eq!(
        scheduler.due_at(&now),
        vec![TaskId(0), TaskId(1), TaskId(2)]
    );
    scheduler.refresh_at(&now);
    for due in due_times(&scheduler) {
        assert!(due > now.as_timestamp());
    }
    assert_eq!(
        due_times(&scheduler),
        vec![
            NEW_YEAR_2024 + 11 * HOUR,
            NEW_YEAR_2024 + DAY + 10 * HOUR,
            NEW_YEAR_2024 + 91 * DAY + 9 * HOUR,
        ]
    );
    assert!(scheduler.due_at(&now).is_empty());
    assert!(is_in_due_order(&scheduler));
    assert_eq!(scheduler.next_due(), Some(TaskId(0)));
}

#[test]
fn refresh_leaves_schedules_that_are_not_due() {
    let now = Timestamp::new(NEW_YEAR_2024);
    let mut scheduler = Scheduler::new();
    scheduler.every_at(3.hour(), &now);
    scheduler.every_at(1.hour(), &now);
    scheduler.every_at(2.hour(), &now);
    assert_eq!(
        scheduler.by_due_time(),
        vec![TaskId(1), TaskId(2), TaskId(0)]
    );

    scheduler.refresh_at(&Timestamp::new(NEW_YEAR_2024 + HOUR - 1));
    assert_eq!(
        due_times(&scheduler),
        vec![NEW_YEAR_2024 + 3 * HOUR, NEW_YEAR_2024 + HOUR, NEW_YEAR_2024 + 2 * HOUR]
    );

    // Due at exactly its instant: task 1 moves on an hour from then.
    scheduler.refresh_at(&Timestamp::new(NEW_YEAR_2024 + HOUR));
    assert_eq!(
        due_times(&scheduler),
        vec![NEW_YEAR_2024 + 3 * HOUR, NEW_YEAR_2024 + 2 * HOUR, NEW_YEAR_2024 + 2 * HOUR]
    );
    assert_eq!(
        scheduler.by_due_time(),
        vec![TaskId(1), TaskId(2), TaskId(0)]
    );
}

#[test]
fn two_registrations_from_first_run_to_second() {
    // 2024-01-01T09:00:00Z
    let now = Timestamp::new(NEW_YEAR_2024 + 9 * HOUR);
    let mut scheduler = Scheduler::new();
    let first = scheduler.every_at(2.hour(), &now).perform(Job::new(|| {}));
    let second = scheduler
        .every_at(1.day().at("10:00").unwrap(), &now)
        .perform(Job::new(|| {}));
    assert_eq!(first, TaskId(0));
    assert_eq!(second, TaskId(1));

    // 2024-01-01T11:00:00Z and, a day on from now at ten, 2024-01-02T10:00:00Z.
    assert_eq!(
        due_times(&scheduler),
        vec![NEW_YEAR_2024 + 11 * HOUR, NEW_YEAR_2024 + DAY + 10 * HOUR]
    );

    // 2024-01-01T10:30:00Z: nothing is due yet.
    let half_past_ten = Timestamp::new(NEW_YEAR_2024 + 10 * HOUR + 1_800);
    assert!(scheduler.due_at(&half_past_ten).is_empty());
    scheduler.refresh_at(&half_past_ten);
    assert_eq!(
        due_times(&scheduler),
        vec![NEW_YEAR_2024 + 11 * HOUR, NEW_YEAR_2024 + DAY + 10 * HOUR]
    );

    // 2024-01-02T10:30:00Z: both are due, the two-hourly one first.
    let next_day = Timestamp::new(NEW_YEAR_2024 + DAY + 10 * HOUR + 1_800);
    assert_eq!(scheduler.due_at(&next_day), vec![TaskId(0), TaskId(1)]);
    assert!(scheduler.schedule(TaskId(1)).unwrap().has_expired_at(&next_day));
    scheduler.refresh_at(&next_day);
    // 2024-01-02T12:30:00Z and 2024-01-03T10:00:00Z.
    assert_eq!(
        due_times(&scheduler),
        vec![
            NEW_YEAR_2024 + DAY + 12 * HOUR + 1_800,
            NEW_YEAR_2024 + 2 * DAY + 10 * HOUR
        ]
    );
    assert!(scheduler.due_at(&next_day).is_empty());
    assert!(is_in_due_order(&scheduler));
}

#[test]
fn attached_work_runs_when_fired() {
    let runs = Arc::new(AtomicUsize::new(0));
    let counter = Arc::clone(&runs);
    let mut scheduler = Scheduler::new();
    let now = Timestamp::new(NEW_YEAR_2024);
    scheduler.every_at(1.minute(), &now);
    assert!(!scheduler.tasks(TaskId(0)).unwrap().has_work());
    // Firing with nothing attached is no error and does nothing.
    assert!(!scheduler.fire(TaskId(0)));

    let id = scheduler
        .every_at(1.minute(), &now)
        .perform(Job::new(move || {
            counter.fetch_add(1, Ordering::SeqCst);
        }));
    assert!(scheduler.tasks(id).unwrap().has_work());
    assert!(scheduler.fire(id));
    assert!(scheduler.fire(id));
    assert_eq!(runs.load(Ordering::SeqCst), 2);
    // Bringing the registry up to date leaves the work attached.
    scheduler.refresh_at(&Timestamp::new(NEW_YEAR_2024 + 60));
    assert_eq!(due_times(&scheduler), vec![NEW_YEAR_2024 + 120, NEW_YEAR_2024 + 120]);
    assert!(scheduler.tasks(id).unwrap().has_work());
    assert!(!scheduler.tasks(TaskId(0)).unwrap().has_work());
    assert!(scheduler.fire(id));
    assert_eq!(runs.load(Ordering::SeqCst), 3);

    // Work can be attached after the schedule has come due, and in place of
    // work attached before.
    let late = Arc::new(AtomicUsize::new(0));
    let late_counter = Arc::clone(&late);
    scheduler.refresh_at(&Timestamp::new(NEW_YEAR_2024 + 120));
    let mut task = scheduler::task::Task::new(TaskId(7));
    assert!(!task.run());
    task.set_handler(Job::new(|| {}));
    task.set_handler(Job::new(move || {
        late_counter.fetch_add(1, Ordering::SeqCst);
    }));
    assert_eq!(task.id(), TaskId(7));
    assert!(task.run());
    assert_eq!(late.load(Ordering::SeqCst), 1);
    assert_eq!(runs.load(Ordering::SeqCst), 3);
}

#[test]
fn a_closure_that_keeps_state_runs_as_a_job() {
    let seen = Arc::new(AtomicUsize::new(0));
    let shown = Arc::clone(&seen);
    let mut calls: usize = 0;
    let mut scheduler = Scheduler::new();
    let id = scheduler
        .every_at(1.minute(), &Timestamp::new(NEW_YEAR_2024))
        .perform(Job::new(move || {
            calls += 10;
            shown.store(calls, Ordering::SeqCst);
        }));
    assert_eq!(seen.load(Ordering::SeqCst), 0);
    assert!(scheduler.fire(id));
    assert_eq!(seen.load(Ordering::SeqCst), 10);
    assert!(scheduler.fire(id));
    assert!(scheduler.fire(id));
    assert_eq!(seen.load(Ordering::SeqCst), 30);
    assert_eq!(
        scheduler.schedule(id).unwrap().run_on().as_timestamp(),
        NEW_YEAR_2024 + 60
    );
}

#[test]
fn time_zones_are_read_from_their_names() {
    assert_eq!(Scheduler::new().tz_offset(), 0);
    assert_eq!(Scheduler::with_tz("UTC").unwrap().tz_offset(), 0);
    assert_eq!(Scheduler::with_tz("UTC+2").unwrap().tz_offset(), 2);
    assert_eq!(Scheduler::with_tz("UTC-11").unwrap().tz_offset(), -11);
    assert_eq!(Scheduler::with_tz("UTC+14").unwrap().tz_offset(), 14);
    assert_eq!(Scheduler::with_tz("UTC-12").unwrap().tz_offset(), -12);
    assert_eq!(Scheduler::with_tz("UTC+15").err(), Some(ScheduleError::RangeError));
    assert_eq!(Scheduler::with_tz("UTC-13").err(), Some(ScheduleError::RangeError));
    assert_eq!(Scheduler::with_tz("GMT").err(), Some(ScheduleError::ParseError));
    assert_eq!(Scheduler::with_tz("UTC+").err(), Some(ScheduleError::ParseError));
    assert_eq!(Scheduler::with_tz("UTC2").err(), Some(ScheduleError::ParseError));
    assert_eq!(Scheduler::with_tz("UTC+002").err(), Some(ScheduleError::ParseError));
    assert_eq!(Scheduler::with_tz("").err(), Some(ScheduleError::ParseError));
}
