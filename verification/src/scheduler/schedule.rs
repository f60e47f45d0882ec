//! A schedule: one recurrence rule bound to one task, with the instant at
//! which the task is due next.
use crate::executor::task::{runs_of, Runnable, Task, TaskId};
use crate::time::timespan::{capped, lemma_next_run_after_now, Recurrence, TimeSpan};
use crate::time::timestamp::Timestamp;
use vstd::prelude::*;

verus! {

/// A live recurring job.
pub struct Schedule {
    run_on: Timestamp,
    task: Task,
    ts: TimeSpan,
}

/// What a schedule holds, as mathematics.
pub struct ScheduleView {
    /// The instant at which the task is due next.
    pub run_on: u64,
    /// The rule by which the schedule recurs.
    pub rule: Recurrence,
    /// The identity of the task.
    pub id: TaskId,
    /// The work attached to the task, if any is.
    pub work: Option<Box<dyn Runnable>>,
}

impl ScheduleView {
    /// Whether work is attached to the task.
    pub open spec fn has_handler(self) -> bool {
        self.work is Some
    }

    /// How often the attached work has been run; 0 with nothing attached.
    pub open spec fn runs(self) -> nat {
        runs_of(self.work)
    }

    /// Whether `other` is this schedule but for the work attached: due at the
    /// same instant, by the same rule, for the same task.
    pub open spec fn same_timing(self, other: ScheduleView) -> bool {
        self.run_on == other.run_on && self.rule == other.rule && self.id == other.id
    }

    /// Due at `now`: the instant to run on is `now` or earlier.
    pub open spec fn expired(self, now: u64) -> bool {
        self.run_on <= now
    }

    /// The schedule moved on as seen at `now`: due at the rule's next
    /// occurrence, with the rule's first delay used up.
    pub open spec fn advanced(self, now: u64) -> ScheduleView {
        ScheduleView {
            run_on: capped(self.rule.next_instant(now as int)) as u64,
            rule: self.rule.consumed(),
            ..self
        }
    }

    /// The schedule as `refresh` leaves it at `now`: moved on where it was
    /// due, untouched where it was not.
    pub open spec fn refreshed(self, now: u64) -> ScheduleView {
        if self.expired(now) {
            self.advanced(now)
        } else {
            self
        }
    }
}

/// Once a schedule whose rule advances has been brought up to date at `now`,
/// it is due after `now`, and bringing it up to date at `now` again changes
/// nothing.
pub proof fn lemma_refreshed_is_settled(schedule: ScheduleView, now: u64)
    requires
        schedule.rule.valid(),
        schedule.rule.advances(),
        now < u64::MAX,
    ensures
        schedule.refreshed(now).run_on > now,
        schedule.refreshed(now).refreshed(now) == schedule.refreshed(now),
{
    lemma_next_run_after_now(schedule.rule, now as int);
}

/// Bringing a schedule up to date changes neither its task nor the work
/// attached to it, and a schedule that is not due stays exactly as it is.
pub proof fn lemma_refreshed_keeps_task(schedule: ScheduleView, now: u64)
    ensures
        schedule.refreshed(now).id == schedule.id,
        schedule.refreshed(now).work == schedule.work,
        !schedule.expired(now) ==> schedule.refreshed(now) == schedule,
{
}

impl View for Schedule {
    type V = ScheduleView;

    closed spec fn view(&self) -> ScheduleView {
        ScheduleView {
            run_on: self.run_on@,
            rule: self.ts@,
            id: self.task.ident(),
            work: self.task.work(),
        }
    }
}

impl Schedule {
    /// Binds `ts` to a new task `task_id`, due at the rule's next occurrence
    /// as seen on the system clock.
    pub fn new(ts: TimeSpan, task_id: TaskId) -> (schedule: Self)
        ensures
            exists|now: u64| schedule@ == #[trigger] Self::registered(ts@, task_id, now),
    {
        let now = Timestamp::now();
        let schedule = Self::new_at(ts, task_id, &now);
        assert(schedule@ == Self::registered(ts@, task_id, now@));
        schedule
    }

    /// What a schedule holds when `rule` is registered for `id` at `now`.
    pub open spec fn registered(rule: Recurrence, id: TaskId, now: u64) -> ScheduleView {
        ScheduleView {
            run_on: capped(rule.next_instant(now as int)) as u64,
            rule: rule.consumed(),
            id,
            work: None,
        }
    }

    /// Binds `ts` to a new task `task_id`, due at the rule's next occurrence
    /// as seen at `now`.
    pub fn new_at(ts: TimeSpan, task_id: TaskId, now: &Timestamp) -> (schedule: Self)
        ensures
            schedule@ == Self::registered(ts@, task_id, now@),
            ts@.advances() && now@ < u64::MAX ==> schedule@.run_on > now@,
    {
        let mut ts = ts;
        let run_on = ts.next_run_on(now);
        Self { run_on, task: Task::new(task_id), ts }
    }

    /// Whether the schedule is due on the system clock.
    pub fn has_expired(&self) -> (expired: bool)
        ensures
            exists|now: u64| expired == #[trigger] self@.expired(now),
    {
        let now = Timestamp::now();
        let expired = self.has_expired_at(&now);
        assert(expired == self@.expired(now@));
        expired
    }

    /// Whether the schedule is due at `now`: its instant to run on is `now`
    /// or earlier.
    pub fn has_expired_at(&self, now: &Timestamp) -> (expired: bool)
        ensures
            expired == self@.expired(now@),
    {
        self.run_on.as_timestamp() <= now.as_timestamp()
    }

    /// Attaches the work to run and returns the identity of the task. Work may
    /// be attached at any time, also after the schedule has come due.
    pub fn perform<F>(&mut self, task: F) -> (id: TaskId) where F: Runnable + 'static
        ensures
            id == old(self)@.id,
            final(self)@.same_timing(old(self)@),
            final(self)@.has_handler(),
    {
        self.task.set_handler(task);
        self.task.id()
    }

    /// Runs the attached work once and returns `true`. With no work attached
    /// nothing happens and `false` is returned; that is no error.
    pub fn fire(&mut self) -> (ran: bool)
        ensures
            ran == old(self)@.has_handler(),
            final(self)@.same_timing(old(self)@),
            final(self)@.has_handler() == old(self)@.has_handler(),
            ran ==> final(self)@.runs() == old(self)@.runs() + 1,
            !ran ==> final(self)@ == old(self)@,
    {
        self.task.run()
    }

    /// Moves the schedule on to the rule's next occurrence as seen at `now`.
    pub(crate) fn advance(&mut self, now: &Timestamp)
        ensures
            final(self)@ == old(self)@.advanced(now@),
            old(self)@.rule.advances() && now@ < u64::MAX ==> final(self)@.run_on > now@,
    {
        let run_on = self.ts.next_run_on(now);
        self.run_on = run_on;
    }

    /// The instant at which the task is due next.
    pub fn run_on(&self) -> (run_on: Timestamp)
        ensures
            run_on@ == self@.run_on,
    {
        self.run_on
    }

    /// The task that the schedule runs.
    pub fn task(&self) -> (task: &Task)
        ensures
            task.ident() == self@.id,
            task.work() == self@.work,
    {
        &self.task
    }

    /// The identity of the task that the schedule runs.
    pub fn id(&self) -> (id: TaskId)
        ensures
            id == self@.id,
    {
        self.task.id()
    }

    /// The rule by which the schedule recurs.
    pub fn time_span(&self) -> (ts: &TimeSpan)
        ensures
            ts@ == self@.rule,
    {
        &self.ts
    }
}

} // verus!
