//! Actions that repeat: who registered what, and when it last ran.

use crate::message::NodeMessage;
use vstd::prelude::*;

verus! {

/// What a periodic task does each time it fires.
#[derive(Clone, Copy, Debug, PartialEq, Eq, Structural)]
pub enum Action {
    /// Send `value` again to the neighbours that have not acknowledged it.
    RetryBroadcast { value: NodeMessage },
}

/// One registration: `action` every `interval` milliseconds, last run (or
/// registered) at `last_fired`.
#[derive(Clone, Copy, Debug, PartialEq, Eq, Structural)]
pub struct Task {
    pub interval: u64,
    pub last_fired: u64,
    pub action: Action,
}

/// Whether `task` fires at time `now`: at least its interval has passed
/// since it last fired.
pub open spec fn due(task: Task, now: u64) -> bool {
    now >= task.last_fired && now - task.last_fired >= task.interval
}

/// The test that a task fires at `now`.
pub open spec fn due_at(now: u64) -> spec_fn(Task) -> bool {
    |task: Task| due(task, now)
}

/// The test that a task does something else than `action`.
pub open spec fn not_doing(action: Action) -> spec_fn(Task) -> bool {
    |task: Task| task.action != action
}

/// The actions of the tasks that fire at `now`, in the order they were
/// registered.
pub open spec fn fired(tasks: Seq<Task>, now: u64) -> Seq<Action> {
    tasks.filter(due_at(now)).map_values(|task: Task| task.action)
}

/// The tasks after a poll at `now`: those that fired carry `now` as the time
/// they last did.
pub open spec fn rearmed(tasks: Seq<Task>, now: u64) -> Seq<Task> {
    tasks.map_values(
        |task: Task|
            if due(task, now) {
                Task { last_fired: now, ..task }
            } else {
                task
            },
    )
}

/// The tasks that are left when every registration of `action` is taken out.
pub open spec fn cancelled(tasks: Seq<Task>, action: Action) -> Seq<Task> {
    tasks.filter(not_doing(action))
}

/// The later of two clock readings.
pub open spec fn later(a: u64, b: u64) -> u64 {
    if a >= b {
        a
    } else {
        b
    }
}

/// The scheduler as contracts see it.
pub struct SchedulerView {
    /// The latest time a poll has seen.
    pub clock: u64,
    /// The registered tasks, oldest first.
    pub tasks: Seq<Task>,
}

/// A registry of repeating actions, driven by polls from one place. It is
/// coarse: a task fires at the first poll at or after its interval has
/// passed, not at a deadline.
#[derive(Debug)]
pub struct Scheduler {
    clock: u64,
    tasks: Vec<Task>,
}

impl View for Scheduler {
    type V = SchedulerView;

    closed spec fn view(&self) -> SchedulerView {
        SchedulerView { clock: self.clock, tasks: self.tasks@ }
    }
}

impl Scheduler {
    /// A scheduler with no task, its clock at zero.
    pub fn new() -> (scheduler: Self)
        ensures
            scheduler@ == (SchedulerView { clock: 0, tasks: Seq::empty() }),
    {
        Scheduler { clock: 0, tasks: Vec::new() }
    }

    /// The latest time a poll has seen.
    pub fn clock(&self) -> (now: u64)
        ensures
            now == self@.clock,
    {
        self.clock
    }

    /// How many tasks are registered.
    pub fn len(&self) -> (count: usize)
        ensures
            count == self@.tasks.len(),
    {
        self.tasks.len()
    }

    /// Registers `action` to run every `interval` milliseconds, counted from
    /// the latest poll.
    pub fn every(&mut self, interval: u64, action: Action)
        ensures
            final(self)@ == (SchedulerView {
                clock: old(self)@.clock,
                tasks: old(self)@.tasks.push(
                    Task { interval, last_fired: old(self)@.clock, action },
                ),
            }),
    {
        self.tasks.push(Task { interval, last_fired: self.clock, action });
    }

    /// Takes out every registration of `action`. Only the node does so, when
    /// the last neighbour has acknowledged a value; a task registered from
    /// outside runs until the process ends.
    pub(crate) fn cancel(&mut self, action: Action)
        ensures
            final(self)@ == (SchedulerView {
                clock: old(self)@.clock,
                tasks: cancelled(old(self)@.tasks, action),
            }),
    {
        let ghost before = self.tasks@;
        let ghost keep = not_doing(action);
        let mut kept: Vec<Task> = Vec::new();
        let mut i: usize = 0;
        while i < self.tasks.len()
            invariant
                self.tasks@ == before,
                i <= before.len(),
                keep == not_doing(action),
                kept@ == before.take(i as int).filter(keep),
            decreases before.len() - i,
        {
            let task = self.tasks[i];
            proof {
                assert(before.take(i + 1) =~= before.take(i as int).push(task));
                before.take(i as int).lemma_filter_push(task, keep);
            }
            if task.action != action {
                kept.push(task);
            }
            i += 1;
        }
        assert(before.take(before.len() as int) =~= before);
        self.tasks = kept;
    }

    /// One poll cycle at time `now`: every task whose interval has passed
    /// fires and is stamped with the time. The answer holds the actions to
    /// run, in the order they were registered. A reading earlier than the
    /// clock counts as the clock.
    pub fn poll(&mut self, now: u64) -> (actions: Vec<Action>)
        ensures
            final(self)@ == (SchedulerView {
                clock: later(old(self)@.clock, now),
                tasks: rearmed(old(self)@.tasks, later(old(self)@.clock, now)),
            }),
            actions@ == fired(old(self)@.tasks, later(old(self)@.clock, now)),
    {
        let time: u64 = if self.clock >= now {
            self.clock
        } else {
            now
        };
        let ghost before = self.tasks@;
        let ghost is_due = due_at(time);
        let mut actions: Vec<Action> = Vec::new();
        let mut i: usize = 0;
        while i < self.tasks.len()
            invariant
                i <= before.len(),
                self.tasks@.len() == before.len(),
                is_due == due_at(time),
                forall|j: int| 0 <= j < i ==> self.tasks@[j] == rearmed(before, time)[j],
                forall|j: int| i <= j < before.len() ==> self.tasks@[j] == before[j],
                actions@ == fired(before.take(i as int), time),
            decreases before.len() - i,
        {
            let task = self.tasks[i];
            proof {
                assert(before.take(i + 1) =~= before.take(i as int).push(task));
                before.take(i as int).lemma_filter_push(task, is_due);
            }
            if time >= task.last_fired && time - task.last_fired >= task.interval {
                actions.push(task.action);
                self.tasks.set(i, Task { last_fired: time, ..task });
            }
            i += 1;
        }
        assert(before.take(before.len() as int) =~= before);
        assert(self.tasks@ =~= rearmed(before, time));
        self.clock = time;
        actions
    }
}

/// A task that has fired waits its whole interval before it fires again.
pub proof fn lemma_fired_task_waits(task: Task, now: u64, again: u64)
    requires
        due(task, now),
        again < now + task.interval,
    ensures
        rearmed(seq![task], now) == seq![Task { last_fired: now, ..task }],
        !due(Task { last_fired: now, ..task }, again),
{
}

} // verus!
