//! The registry of schedules.
//!
//! Schedules are kept by the identity of their task, which never changes,
//! and apart from that in an index that lists the identities by the instant
//! at which each is due.
pub mod schedule;

pub use crate::executor::task::{Job, Runnable, Task, TaskId};
pub use schedule::{Schedule, ScheduleView};

use crate::error::ScheduleError;
use crate::time::timespan::TimeSpan;
use crate::time::timestamp::Timestamp;
use crate::time::{field_value, parse_field};
use vstd::prelude::*;
use vstd::set_lib::{lemma_int_range, lemma_len_subset, lemma_subset_equality, set_int_range};
use vstd::string::StringSliceAdditionalSpecFns;

verus! {

/// The registry: every schedule under the identity of its task, and the
/// identities in the order in which the schedules come due.
pub struct Scheduler {
    /// The schedule of task `n` stands at position `n`.
    schedules: Vec<Schedule>,
    /// The identities of all tasks, soonest due first.
    order: Vec<TaskId>,
    /// The identity that the next task gets.
    pk: usize,
    /// Hours by which the clocks of the scheduler's users run ahead of UTC.
    tz_offset: i8,
}

/// The offset from UTC, in hours, that `text` names: `UTC` alone, or `UTC`
/// with a sign and one or two digits. `None` where `text` is not of that form.
/// (The bytes 85, 84 and 67 write `UTC`; 43 is the plus sign, 45 the minus.)
pub open spec fn parse_utc_offset(text: Seq<u8>) -> Option<int> {
    if text.len() < 3 || text[0] != 85 || text[1] != 84 || text[2] != 67 {
        None
    } else if text.len() == 3 {
        Some(0)
    } else {
        match field_value(text.subrange(4, text.len() as int)) {
            Some(hours) => if text[3] == 43 {
                Some(hours)
            } else if text[3] == 45 {
                Some(-hours)
            } else {
                None
            },
            None => None,
        }
    }
}

/// Whether `a` is due before `b`: at an earlier instant or, at the same
/// instant, by the smaller identity.
pub open spec fn comes_before(a: ScheduleView, b: ScheduleView) -> bool {
    a.run_on < b.run_on || (a.run_on == b.run_on && a.id.0 < b.id.0)
}

/// Whether `order` lists `entries` by due time: as many identities as there
/// are entries, each that of an entry, each one due before all that follow it.
pub open spec fn in_due_order(entries: Seq<ScheduleView>, order: Seq<TaskId>) -> bool {
    &&& order.len() == entries.len()
    &&& forall|i: int| 0 <= i < order.len() ==> (#[trigger] order[i]).0 < entries.len()
    &&& forall|i: int, j: int|
        0 <= i < j < order.len() ==> comes_before(
            entries[(#[trigger] order[i]).0 as int],
            entries[(#[trigger] order[j]).0 as int],
        )
}

/// An entry that changes neither its identity nor its due time keeps its
/// place in the order.
proof fn lemma_same_key_same_order(
    entries: Seq<ScheduleView>,
    order: Seq<TaskId>,
    place: int,
    replaced: ScheduleView,
)
    requires
        0 <= place < entries.len(),
        in_due_order(entries, order),
        replaced.id == entries[place].id,
        replaced.run_on == entries[place].run_on,
    ensures
        in_due_order(entries.update(place, replaced), order),
{
    let after = entries.update(place, replaced);
    assert forall|i: int, j: int| 0 <= i < j < order.len() implies comes_before(
        after[(#[trigger] order[i]).0 as int],
        after[(#[trigger] order[j]).0 as int],
    ) by {
        assert(comes_before(entries[order[i].0 as int], entries[order[j].0 as int]));
    }
}

/// A due order leaves no entry out: the identity of every entry stands in it.
pub proof fn lemma_all_in_order(entries: Seq<ScheduleView>, order: Seq<TaskId>, id: TaskId)
    requires
        in_due_order(entries, order),
        id.0 < entries.len(),
    ensures
        order.contains(id),
{
    lemma_distinct_in_order(entries, order);
    let count = entries.len() as int;
    let listed = order.map_values(|id: TaskId| id.0 as int);
    assert forall|i: int, j: int| 0 <= i < listed.len() && 0 <= j < listed.len() && i != j implies listed[i]
        != listed[j] by {
        assert(order[i] != order[j]);
    }
    listed.unique_seq_to_set();
    lemma_int_range(0, count);
    assert(listed.to_set().subset_of(set_int_range(0, count))) by {
        assert forall|n: int| listed.to_set().contains(n) implies set_int_range(0, count).contains(
            n,
        ) by {
            let i = choose|i: int| 0 <= i < listed.len() && listed[i] == n;
            assert(order[i].0 < entries.len());
        }
    }
    lemma_len_subset(listed.to_set(), set_int_range(0, count));
    lemma_subset_equality(listed.to_set(), set_int_range(0, count));
    assert(set_int_range(0, count).contains(id.0 as int));
    assert(listed.to_set().contains(id.0 as int));
    let i = choose|i: int| 0 <= i < listed.len() && listed[i] == id.0 as int;
    assert(order[i] == id);
}

/// Identities count up from 0 without a gap and are never given twice: in a
/// sound registry of fewer than `usize::MAX` schedules the next identity is the
/// number of schedules, no schedule has it yet, and with one more schedule
/// registered under it every earlier schedule is as it was and the registry
/// numbers its schedules by their places again.
pub proof fn lemma_identities_count_up(before: Seq<ScheduleView>, added: ScheduleView)
    requires
        before.len() < usize::MAX,
        forall|i: int| 0 <= i < before.len() ==> (#[trigger] before[i]).id == TaskId(i as usize),
        added.id == TaskId(before.len() as usize),
    ensures
        forall|i: int| 0 <= i < before.len() ==> (#[trigger] before[i]).id != added.id,
        forall|i: int| 0 <= i < before.len() ==> #[trigger] before.push(added)[i] == before[i],
        forall|i: int|
            0 <= i < before.push(added).len() ==> (#[trigger] before.push(added)[i]).id == TaskId(
                i as usize,
            ),
        forall|i: int, j: int|
            0 <= i < j < before.push(added).len() ==> (#[trigger] before.push(added)[i]).id != (
            #[trigger] before.push(added)[j]).id,
{
}

/// Bringing the registry up to date leaves the number of schedules and the
/// identity of each as they were.
pub proof fn lemma_refresh_keeps_identities(
    before: Seq<ScheduleView>,
    after: Seq<ScheduleView>,
    now: u64,
)
    requires
        Scheduler::refreshed(before, after, now),
    ensures
        after.len() == before.len(),
        forall|i: int| 0 <= i < before.len() ==> (#[trigger] after[i]).id == before[i].id,
        forall|i: int| 0 <= i < before.len() ==> (#[trigger] after[i]).work == before[i].work,
        forall|i: int|
            0 <= i < before.len() && !before[i].expired(now) ==> #[trigger] after[i] == before[i],
{
}

/// What each of `schedules` holds.
spec fn views(schedules: Seq<Schedule>) -> Seq<ScheduleView> {
    schedules.map_values(|s: Schedule| s@)
}

/// No identity stands twice in a due order.
pub proof fn lemma_distinct_in_order(entries: Seq<ScheduleView>, order: Seq<TaskId>)
    requires
        in_due_order(entries, order),
    ensures
        order.no_duplicates(),
{
    assert forall|i: int, j: int| 0 <= i < order.len() && 0 <= j < order.len() && i != j implies order[i]
        != order[j] by {
        if i < j {
            assert(comes_before(entries[order[i].0 as int], entries[order[j].0 as int]));
        } else {
            assert(comes_before(entries[order[j].0 as int], entries[order[i].0 as int]));
        }
    }
}

impl View for Scheduler {
    type V = Seq<ScheduleView>;

    /// What each schedule holds, by the identity of its task.
    closed spec fn view(&self) -> Seq<ScheduleView> {
        views(self.schedules@)
    }
}

impl Scheduler {
    /// The identities of all tasks, soonest due first.
    pub closed spec fn due_order(&self) -> Seq<TaskId> {
        self.order@
    }

    /// The registry is sound: the schedule of task `n` stands under `n`, the
    /// next identity is the number of schedules, and the index lists them all
    /// by due time.
    pub open spec fn wf(&self) -> bool {
        &&& self.next_id().0 == self@.len()
        &&& forall|i: int| 0 <= i < self@.len() ==> (#[trigger] self@[i]).id == TaskId(i as usize)
        &&& in_due_order(self@, self.due_order())
    }

    /// The identity that the next task registered gets.
    pub closed spec fn next_id(&self) -> TaskId {
        TaskId(self.pk)
    }

    /// Hours by which the clocks of the scheduler's users run ahead of UTC.
    pub closed spec fn utc_offset(&self) -> int {
        self.tz_offset as int
    }

    /// The index holds identities of schedules, none of them twice.
    spec fn index_sound(&self) -> bool {
        &&& self.order@.len() <= self.schedules@.len()
        &&& self.order@.no_duplicates()
        &&& forall|i: int| 0 <= i < self.order@.len() ==> (#[trigger] self.order@[i]).0 < self@.len()
        &&& forall|i: int| 0 <= i < self@.len() ==> (#[trigger] self@[i]).id == TaskId(i as usize)
    }

    /// The first `upto` places of the index are in due order.
    spec fn sorted_to(&self, upto: int) -> bool {
        forall|i: int, j: int|
            0 <= i < j < upto ==> comes_before(
                self@[(#[trigger] self.order@[i]).0 as int],
                self@[(#[trigger] self.order@[j]).0 as int],
            )
    }

    /// Whether the schedule of `a` is due before that of `b`.
    fn due_before(&self, a: TaskId, b: TaskId) -> (before: bool)
        requires
            a.0 < self@.len(),
            b.0 < self@.len(),
        ensures
            before == comes_before(self@[a.0 as int], self@[b.0 as int]),
    {
        let first = &self.schedules[a.0];
        let second = &self.schedules[b.0];
        let first_due = first.run_on().as_timestamp();
        let second_due = second.run_on().as_timestamp();
        first_due < second_due || (first_due == second_due && first.id().0 < second.id().0)
    }

    /// Carries the identity at place `upto` of the index down to where it
    /// belongs among the places before it, which are in due order already.
    fn settle(&mut self, upto: usize)
        requires
            old(self).index_sound(),
            upto < old(self).order@.len(),
            old(self).sorted_to(upto as int),
        ensures
            final(self).schedules == old(self).schedules,
            final(self).pk == old(self).pk,
            final(self).tz_offset == old(self).tz_offset,
            final(self).index_sound(),
            final(self).order@.len() == old(self).order@.len(),
            final(self).sorted_to(upto + 1),
            forall|k: int|
                upto < k < old(self).order@.len() ==> final(self).order@[k] == old(self).order@[k],
    {
        let mut place: usize = upto;
        while place > 0 && self.due_before(self.order[place], self.order[place - 1])
            invariant
                self.schedules == old(self).schedules,
                self.pk == old(self).pk,
                self.tz_offset == old(self).tz_offset,
                self.index_sound(),
                self.order@.len() == old(self).order@.len(),
                place <= upto < self.order@.len(),
                forall|k: int|
                    upto < k < old(self).order@.len() ==> self.order@[k] == old(self).order@[k],
                forall|i: int, j: int|
                    0 <= i < j <= upto && i != place && j != place ==> comes_before(
                        self@[(#[trigger] self.order@[i]).0 as int],
                        self@[(#[trigger] self.order@[j]).0 as int],
                    ),
                forall|j: int|
                    place < j <= upto ==> comes_before(
                        self@[self.order@[place as int].0 as int],
                        self@[(#[trigger] self.order@[j]).0 as int],
                    ),
            decreases place,
        {
            let moving = self.order[place];
            let resting = self.order[place - 1];
            self.order[place - 1] = moving;
            self.order[place] = resting;
            place = place - 1;
        }
    }

    /// An empty registry for users whose clocks show UTC.
    pub fn new() -> (scheduler: Self)
        ensures
            scheduler.wf(),
            scheduler@.len() == 0,
            scheduler.utc_offset() == 0,
    {
        Self { schedules: Vec::new(), order: Vec::new(), pk: 0, tz_offset: 0 }
    }

    /// An empty registry for users in the time zone `tz`, written as `UTC`,
    /// or as `UTC` with a sign and the hours: `UTC+2`, `UTC-11`. The registry
    /// itself counts in UTC throughout; the offset is kept for whoever turns
    /// a local time of day into one for a rule. Text of another form is a
    /// `ParseError`; an offset of more than 14 hours east or 12 hours west
    /// is a `RangeError`.
    pub fn with_tz(tz: &str) -> (scheduler: Result<Self, ScheduleError>)
        ensures
            match parse_utc_offset(tz.spec_bytes()) {
                Some(hours) => if -12 <= hours <= 14 {
                    &&& scheduler is Ok
                    &&& scheduler->Ok_0.wf()
                    &&& scheduler->Ok_0@.len() == 0
                    &&& scheduler->Ok_0.utc_offset() == hours
                } else {
                    scheduler is Err && scheduler->Err_0 == ScheduleError::RangeError
                },
                None => scheduler is Err && scheduler->Err_0 == ScheduleError::ParseError,
            },
    {
        let text = tz.as_bytes();
        let len = text.len();
        if len < 3 || text[0] != 85 || text[1] != 84 || text[2] != 67 {
            return Err(ScheduleError::ParseError);
        }
        if len == 3 {
            return Ok(Self::new());
        }
        let sign = text[3];
        let hours = match parse_field(text, 4, len) {
            Some(hours) => hours,
            None => {
                return Err(ScheduleError::ParseError);
            },
        };
        if sign == 43 {
            if hours > 14 {
                return Err(ScheduleError::RangeError);
            }
            Ok(Self { schedules: Vec::new(), order: Vec::new(), pk: 0, tz_offset: hours as i8 })
        } else if sign == 45 {
            if hours > 12 {
                return Err(ScheduleError::RangeError);
            }
            Ok(Self { schedules: Vec::new(), order: Vec::new(), pk: 0, tz_offset: -(hours as i8) })
        } else {
            Err(ScheduleError::ParseError)
        }
    }

    /// Hours by which the clocks of the scheduler's users run ahead of UTC.
    pub fn tz_offset(&self) -> (hours: i8)
        ensures
            hours == self.utc_offset(),
    {
        self.tz_offset
    }

    /// Registers `ts` as seen on the system clock; see `every_at`.
    pub fn every(&mut self, ts: TimeSpan) -> (schedule: &mut Schedule)
        requires
            old(self).wf(),
            old(self)@.len() < usize::MAX,
        ensures
            exists|now: u64|
                schedule@ == #[trigger] Schedule::registered(
                    ts@,
                    TaskId(old(self)@.len() as usize),
                    now,
                ),
            schedule@.id == TaskId(old(self)@.len() as usize),
            forall|i: int| 0 <= i < old(self)@.len() ==> (#[trigger] old(self)@[i]).id != schedule@.id,
            final(self)@ == old(self)@.push(final(schedule)@),
            final(schedule)@.id == schedule@.id && final(schedule)@.run_on == schedule@.run_on
                ==> final(self).wf(),
            final(self).utc_offset() == old(self).utc_offset(),
    {
        let now = Timestamp::now();
        let ghost id = TaskId(self@.len() as usize);
        let schedule = self.every_at(ts, &now);
        assert(schedule@ == Schedule::registered(ts@, id, now@));
        schedule
    }

    /// Registers the rule `ts`. The new task gets the next identity: the
    /// number of tasks registered before it. Its schedule is due at the rule's
    /// next occurrence as seen at `now`. The schedule is handed back so that
    /// work can be attached to it; as long as that leaves its identity and its
    /// due time alone, the registry stays sound.
    pub fn every_at(&mut self, ts: TimeSpan, now: &Timestamp) -> (schedule: &mut Schedule)
        requires
            old(self).wf(),
            old(self)@.len() < usize::MAX,
        ensures
            schedule@ == Schedule::registered(ts@, TaskId(old(self)@.len() as usize), now@),
            schedule@.id == TaskId(old(self)@.len() as usize),
            forall|i: int| 0 <= i < old(self)@.len() ==> (#[trigger] old(self)@[i]).id != schedule@.id,
            final(self)@ == old(self)@.push(final(schedule)@),
            final(schedule)@.id == schedule@.id && final(schedule)@.run_on == schedule@.run_on
                ==> final(self).wf(),
            final(self).utc_offset() == old(self).utc_offset(),
    {
        let task_id = self.next_task_id();
        let schedule = Schedule::new_at(ts, task_id, now);
        self.add_schedule(task_id, schedule)
    }

    /// Hands out the next identity.
    fn next_task_id(&mut self) -> (id: TaskId)
        requires
            old(self).pk < usize::MAX,
        ensures
            id == TaskId(old(self).pk),
            final(self).pk == old(self).pk + 1,
            final(self).schedules == old(self).schedules,
            final(self).order == old(self).order,
            final(self).tz_offset == old(self).tz_offset,
    {
        let id = TaskId(self.pk);
        self.pk += 1;
        id
    }

    /// Stores `schedule` under `task_id`, the next free place, and enters it
    /// in the index where its due time puts it.
    fn add_schedule(&mut self, task_id: TaskId, schedule: Schedule) -> (stored: &mut Schedule)
        requires
            old(self).pk == old(self).schedules@.len() + 1,
            task_id.0 == old(self).schedules@.len(),
            schedule@.id == task_id,
            forall|i: int|
                0 <= i < old(self)@.len() ==> (#[trigger] old(self)@[i]).id == TaskId(i as usize),
            in_due_order(old(self)@, old(self).order@),
        ensures
            *stored == schedule,
            final(self)@ == old(self)@.push(final(stored)@),
            final(stored)@.id == schedule@.id && final(stored)@.run_on == schedule@.run_on
                ==> final(self).wf(),
            final(self).tz_offset == old(self).tz_offset,
    {
        let ghost before = self@;
        proof {
            lemma_distinct_in_order(before, self.order@);
        }
        self.schedules.push(schedule);
        self.order.push(task_id);
        assert(self@ =~= before.push(schedule@));
        assert(self.sorted_to(task_id.0 as int));
        self.settle(task_id.0);
        proof {
            let entries = self@;
            let stored = self.schedules@;
            let order = self.order@;
            let place = task_id.0 as int;
            assert forall|replaced: Schedule|
                replaced@.id == schedule@.id && replaced@.run_on == schedule@.run_on
                    implies in_due_order(#[trigger] views(stored.update(place, replaced)), order) by {
                lemma_same_key_same_order(entries, order, place, replaced@);
                assert(views(stored.update(place, replaced)) =~= entries.update(place, replaced@));
            }
            assert forall|replaced: Schedule| #[trigger]
                views(stored.update(place, replaced)) =~= before.push(replaced@) by {}
        }
        &mut self.schedules[task_id.0]
    }

    /// Brings the registry up to date as seen on the system clock; see
    /// `refresh_at`.
    pub fn refresh(&mut self)
        requires
            old(self).wf(),
        ensures
            final(self).wf(),
            final(self).utc_offset() == old(self).utc_offset(),
            exists|now: u64| #[trigger] Self::refreshed(old(self)@, final(self)@, now),
    {
        let now = Timestamp::now();
        self.refresh_at(&now);
        assert(Self::refreshed(old(self)@, self@, now@));
    }

    /// What `refresh_at` does to the schedules: each one that was due at `now`
    /// has moved on by its rule, with its task and the work attached to it as
    /// they were; every other one is as it was. A schedule whose rule advances
    /// is then due after `now`, unless `now` is the last instant that can be
    /// counted.
    pub open spec fn refreshed(before: Seq<ScheduleView>, after: Seq<ScheduleView>, now: u64) -> bool {
        &&& after.len() == before.len()
        &&& forall|i: int| 0 <= i < before.len() ==> #[trigger] after[i] == before[i].refreshed(now)
        &&& now < u64::MAX ==> forall|i: int|
            0 <= i < before.len() && before[i].rule.advances() ==> (#[trigger] after[i]).run_on > now
    }

    /// Brings the registry up to date as seen at `now`. Every schedule that is
    /// due moves on to the next occurrence of its rule; no other schedule
    /// changes. The index is then put back in due order: an identity that is
    /// still in place costs one comparison, and only those whose schedules
    /// moved on are carried to their new places.
    pub fn refresh_at(&mut self, now: &Timestamp)
        requires
            old(self).wf(),
        ensures
            final(self).wf(),
            final(self).utc_offset() == old(self).utc_offset(),
            Self::refreshed(old(self)@, final(self)@, now@),
    {
        proof {
            lemma_distinct_in_order(self@, self.order@);
            assert(self.pk == self.schedules@.len());
        }
        self.advance_due(now);
        self.restore_order();
    }

    /// Moves every schedule that is due at `now` on by its rule.
    fn advance_due(&mut self, now: &Timestamp)
        ensures
            final(self).order == old(self).order,
            final(self).pk == old(self).pk,
            final(self).tz_offset == old(self).tz_offset,
            Self::refreshed(old(self)@, final(self)@, now@),
    {
        let count = self.schedules.len();
        let mut place: usize = 0;
        while place < count
            invariant
                place <= count == self.schedules@.len(),
                self.order == old(self).order,
                self.pk == old(self).pk,
                self.tz_offset == old(self).tz_offset,
                self@.len() == old(self)@.len(),
                forall|i: int| 0 <= i < place ==> #[trigger] self@[i] == old(self)@[i].refreshed(now@),
                forall|i: int| place <= i < count ==> #[trigger] self@[i] == old(self)@[i],
                now@ < u64::MAX ==> forall|i: int|
                    0 <= i < place && old(self)@[i].rule.advances() ==> (#[trigger] self@[i]).run_on
                        > now@,
            decreases count - place,
        {
            let ghost entries = self@;
            if self.schedules[place].has_expired_at(now) {
                self.schedules[place].advance(now);
            }
            assert(self@ =~= entries.update(place as int, entries[place as int].refreshed(now@)));
            place = place + 1;
        }
    }

    /// Puts the index back in due order, one place after the other.
    fn restore_order(&mut self)
        requires
            old(self).index_sound(),
            old(self).order@.len() == old(self).schedules@.len(),
            old(self).pk == old(self).schedules@.len(),
        ensures
            final(self).schedules == old(self).schedules,
            final(self).tz_offset == old(self).tz_offset,
            final(self).wf(),
    {
        let count = self.order.len();
        let mut upto: usize = 0;
        while upto < count
            invariant
                self.schedules == old(self).schedules,
                self.pk == old(self).pk,
                self.tz_offset == old(self).tz_offset,
                self.index_sound(),
                upto <= count == self.order@.len(),
                self.sorted_to(upto as int),
            decreases count - upto,
        {
            self.settle(upto);
            upto = upto + 1;
        }
    }

    /// The task registered under `id`, if there is one.
    pub fn tasks(&self, id: TaskId) -> (task: Option<&Task>)
        requires
            self.wf(),
        ensures
            id.0 < self@.len() ==> task is Some && task->Some_0.ident() == id
                && task->Some_0.work() == self@[id.0 as int].work,
            id.0 >= self@.len() ==> task is None,
    {
        if id.0 < self.schedules.len() {
            assert(self@[id.0 as int].id == id);
            Some(self.schedules[id.0].task())
        } else {
            None
        }
    }

    /// The schedule of the task registered under `id`, if there is one.
    pub fn schedule(&self, id: TaskId) -> (schedule: Option<&Schedule>)
        ensures
            id.0 < self@.len() ==> schedule is Some && schedule->Some_0@ == self@[id.0 as int],
            id.0 >= self@.len() ==> schedule is None,
    {
        if id.0 < self.schedules.len() {
            Some(&self.schedules[id.0])
        } else {
            None
        }
    }

    /// Runs the work attached to the task `id` once and returns `true`. Where
    /// no such task is registered, or no work is attached to it, nothing
    /// happens and `false` is returned.
    pub fn fire(&mut self, id: TaskId) -> (ran: bool)
        requires
            old(self).wf(),
        ensures
            final(self).wf(),
            final(self).due_order() == old(self).due_order(),
            final(self).utc_offset() == old(self).utc_offset(),
            ran == (id.0 < old(self)@.len() && old(self)@[id.0 as int].has_handler()),
            final(self)@.len() == old(self)@.len(),
            forall|i: int|
                0 <= i < old(self)@.len() && i != id.0 ==> #[trigger] final(self)@[i] == old(
                    self,
                )@[i],
            ran ==> final(self)@[id.0 as int].same_timing(old(self)@[id.0 as int])
                && final(self)@[id.0 as int].has_handler() && final(self)@[id.0 as int].runs()
                == old(self)@[id.0 as int].runs() + 1,
            !ran ==> final(self)@ == old(self)@,
    {
        if id.0 < self.schedules.len() {
            let ghost entries = self@;
            let ran = self.schedules[id.0].fire();
            proof {
                let fired = self@[id.0 as int];
                assert(self@ =~= entries.update(id.0 as int, fired));
                lemma_same_key_same_order(entries, self.order@, id.0 as int, fired);
                if !ran {
                    assert(self@ =~= entries);
                }
            }
            ran
        } else {
            false
        }
    }

    /// The identities of all tasks, soonest due first.
    pub fn by_due_time(&self) -> (order: Vec<TaskId>)
        ensures
            order@ == self.due_order(),
    {
        let mut order: Vec<TaskId> = Vec::new();
        let mut place: usize = 0;
        while place < self.order.len()
            invariant
                place <= self.order@.len(),
                order@ == self.order@.take(place as int),
            decreases self.order@.len() - place,
        {
            order.push(self.order[place]);
            assert(order@ =~= self.order@.take(place + 1));
            place = place + 1;
        }
        assert(self.order@.take(place as int) =~= self.order@);
        order
    }

    /// The identities of the tasks that are due at `now`, soonest due first:
    /// the head of the due order that holds every schedule that is due and no
    /// other.
    pub fn due_at(&self, now: &Timestamp) -> (due: Vec<TaskId>)
        requires
            self.wf(),
        ensures
            due@.len() <= self.due_order().len(),
            due@ == self.due_order().take(due@.len() as int),
            forall|id: TaskId|
                id.0 < self@.len() ==> (self@[id.0 as int].expired(now@) <==> #[trigger] due@.contains(
                    id,
                )),
    {
        let mut due: Vec<TaskId> = Vec::new();
        let mut place: usize = 0;
        while place < self.order.len() && self.schedules[self.order[place].0].has_expired_at(now)
            invariant
                self.wf(),
                place <= self.order@.len(),
                due@ == self.order@.take(place as int),
                forall|i: int|
                    0 <= i < place ==> self@[(#[trigger] self.order@[i]).0 as int].expired(now@),
            decreases self.order@.len() - place,
        {
            due.push(self.order[place]);
            assert(due@ =~= self.order@.take(place + 1));
            place = place + 1;
        }
        proof {
            assert forall|i: int| place <= i < self.order@.len() implies !self@[(
            #[trigger] self.order@[i]).0 as int].expired(now@) by {
                if place < i {
                    assert(comes_before(
                        self@[self.order@[place as int].0 as int],
                        self@[self.order@[i].0 as int],
                    ));
                }
            }
            assert forall|id: TaskId| id.0 < self@.len() implies (self@[id.0 as int].expired(now@)
                <==> #[trigger] due@.contains(id)) by {
                lemma_all_in_order(self@, self.order@, id);
                let i = choose|i: int| 0 <= i < self.order@.len() && self.order@[i] == id;
                if i < place {
                    assert(due@[i] == id);
                }
                if due@.contains(id) {
                    let j = choose|j: int| 0 <= j < due@.len() && due@[j] == id;
                    assert(self.order@[j] == id);
                }
            }
        }
        due
    }

    /// The identity of the task that is due soonest, if any is registered.
    pub fn next_due(&self) -> (next: Option<TaskId>)
        ensures
            self.due_order().len() == 0 ==> next is None,
            self.due_order().len() > 0 ==> next == Some(self.due_order()[0]),
    {
        if self.order.len() > 0 {
            Some(self.order[0])
        } else {
            None
        }
    }

    /// The number of schedules registered.
    pub fn len(&self) -> (len: usize)
        ensures
            len == self@.len(),
    {
        self.schedules.len()
    }
}

impl Default for Scheduler {
    fn default() -> (scheduler: Self)
        ensures
            scheduler.wf(),
            scheduler@.len() == 0,
    {
        Self::new()
    }
}

} // verus!
