//! A recurring-task scheduling engine.
//!
//! Recurrence rules such as "every three days at 10:00" or "every Monday at
//! midnight" are turned into concrete instants, counted in seconds since
//! 1970-01-01T00:00:00 UTC, by calendar arithmetic that this crate carries out
//! itself and proves correct.
pub mod daemon;
pub mod error;
pub mod executor;
pub mod scheduler;
pub mod socket;
pub mod time;

pub use error::ScheduleError;
pub use executor::task;
pub use executor::task::{Job, Runnable, Task, TaskId};
pub use scheduler::{Schedule, ScheduleView, Scheduler};
