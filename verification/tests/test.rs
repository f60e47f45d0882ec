use scheduler::task::{Job, TaskId};
use scheduler::time::AsTimeSpan;
use scheduler::time::WeekDay::Monday;
use scheduler::{ScheduleError, Scheduler};

#[test]
fn test() -> Result<(), ScheduleError> {
    let mut scheduler = Scheduler::with_tz("UTC+2").expect("cannot set timezone to utc+2");

    let task = scheduler.every(1.day().at("10:00")?.am()?).perform(Job::new(|| {
        println!("hi");
    }));

    scheduler.every(Monday.midnight());
    scheduler.every(Monday.at("10:00")?);
    let second = scheduler
        .every(2.hour() + 34.minute() + 20.second())
        .perform(Job::new(|| {
            println!("hi");
        }));
    assert_eq!(second, TaskId::new(3));

    let third = scheduler.every(20.second()).perform(Job::new(|| {
        println!("hi");
    }));
    assert_eq!(third, TaskId::new(4));

    let task_id = TaskId::new(0);
    assert_eq!(task, task_id);
    let found = scheduler.tasks(task_id).map(|task| task.id());
    if found.is_none() {
        println!("{}", format!("Task with id {:?} not found", task_id));
    }
    assert_eq!(found, Some(task_id));
    assert!(scheduler.fire(task_id));
    assert!(!scheduler.fire(TaskId::new(1)));
    assert!(!scheduler.fire(TaskId::new(5)));

    Ok(())
}
