//! The scheduler: which tasks are due at a given moment, and how long the
//! caller may sleep before the next one is.

use vstd::prelude::*;
use std::time::Duration;
use crate::duration::{duration_nanos, low_nanos, low_nanos_of, sat_add};
use crate::system_time::{Clock, MonoInstant, RealClock, WallInstant};
use crate::task::{PeriodicSchedule, Repeat, Task, TaskType};

verus! {

/// Why a task could not be added.
#[derive(Debug)]
pub enum AddTaskError {
    DeadlineInPast,
    ClockWentBackward,
}

/// How far from its ideal deadline a task was serviced.
#[derive(Debug, Clone, Copy, PartialEq, Eq)]
pub enum Drift {
    Early(Duration),
    OnTime,
    Late(Duration),
}

/// `d` is the drift of a service at `actual` for the deadline `ideal`.
pub open spec fn drift_is(d: Drift, actual: int, ideal: int) -> bool {
    if actual > ideal {
        d matches Drift::Late(x) && duration_nanos(x) == actual - ideal
    } else if actual < ideal {
        d matches Drift::Early(x) && duration_nanos(x) == ideal - actual
    } else {
        d matches Drift::OnTime
    }
}

/// A drift as a signed number of nanoseconds: negative when early.
pub open spec fn signed_nanos(d: Drift) -> int {
    match d {
        Drift::Early(x) => -duration_nanos(x),
        Drift::OnTime => 0,
        Drift::Late(x) => duration_nanos(x) as int,
    }
}

impl Drift {
    pub fn as_nanos_signed(&self) -> (n: i128)
        ensures
            n == signed_nanos(*self),
    {
        match self {
            Drift::Early(d) => -(d.as_nanos() as i128),
            Drift::OnTime => 0,
            Drift::Late(d) => d.as_nanos() as i128,
        }
    }
}

/// A task that the tick serviced, with its drift.
#[verifier::reject_recursive_types(Ctx)]
pub struct TaskExecution<'a, Ctx = ()> {
    pub task: &'a Task<Ctx>,
    pub drift: Drift,
}

/// What one tick did: the tasks fired within their windows, and those whose
/// window had already closed.
#[verifier::reject_recursive_types(Ctx)]
pub struct TickResult<'a, Ctx = ()> {
    pub fired: Vec<TaskExecution<'a, Ctx>>,
    pub missed: Vec<TaskExecution<'a, Ctx>>,
}

/// The scheduling state the scheduler keeps beside each task.
#[derive(Debug, Clone, Copy, PartialEq, Eq, Structural)]
pub struct TaskState {
    /// The anchor of a relative task's period: the ideal deadline (fixed
    /// rate) or the actual moment (fixed delay) of its last service.
    pub last_fired: Option<MonoInstant>,
    /// The last wall-clock deadline an anchored task was serviced for.
    pub last_wall_deadline: Option<WallInstant>,
    /// When the task was added; a relative task's first period starts here.
    pub added_at: MonoInstant,
    /// How many more deadlines the task serves.
    pub remaining: Repeat,
}

/// What happened to one task in one tick. `actual` and `ideal` are
/// monotonic for relative tasks and wall-clock for anchored ones.
#[derive(Debug, Clone, Copy, PartialEq, Eq, Structural)]
pub enum Outcome {
    Idle,
    Fired { actual: u64, ideal: u64 },
    Missed { actual: u64, ideal: u64 },
}

/// `d` is the drift that `o` reports.
pub open spec fn outcome_drift(d: Drift, o: Outcome) -> bool {
    match o {
        Outcome::Fired { actual, ideal } => drift_is(d, actual as int, ideal as int),
        Outcome::Missed { actual, ideal } => drift_is(d, actual as int, ideal as int),
        Outcome::Idle => false,
    }
}

/// A task that has served all its deadlines.
pub open spec fn is_exhausted(st: TaskState) -> bool {
    st.remaining == Repeat::Times(0)
}

/// The repeat count after one more deadline is served.
pub open spec fn consumed(r: Repeat) -> Repeat {
    match r {
        Repeat::Forever => Repeat::Forever,
        Repeat::Times(n) => Repeat::Times((n - 1) as u32),
    }
}

/// A task type the scheduler can work with: an anchored period must be at
/// least one nanosecond in its low 64 bits, since the grid is computed modulo it.
pub open spec fn schedulable(tt: TaskType) -> bool {
    match tt {
        TaskType::Anchored { period, .. } => low_nanos(period) > 0,
        TaskType::Relative { .. } => true,
    }
}

/// The offset of an anchored task in nanoseconds (zero when absent).
pub open spec fn offset_nanos(offset: Option<Duration>) -> u64 {
    match offset {
        Some(o) => low_nanos(o),
        None => 0,
    }
}

/// The next deadline of a relative task: one period after its anchor.
pub open spec fn relative_deadline(st: TaskState, period: Duration) -> u64 {
    let anchor = match st.last_fired {
        Some(m) => m.0,
        None => st.added_at.0,
    };
    sat_add(anchor as int, duration_nanos(period) as int)
}

/// The latest point of the grid `offset + k * period` at or before `now`,
/// or `None` when `now` is before `offset`.
pub open spec fn floor_deadline(now: u64, period: u64, offset: u64) -> Option<u64> {
    if now < offset {
        None
    } else {
        Some((((now - offset) / (period as int)) * period + offset) as u64)
    }
}

pub open spec fn wall_value(w: Option<WallInstant>) -> Option<u64> {
    match w {
        Some(x) => Some(x.0),
        None => None,
    }
}

/// The next wall deadline an anchored task must be evaluated for, given the
/// last deadline it was serviced for: the grid point at or before `wall`,
/// unless that one was serviced already, in which case the one after the
/// last serviced deadline.
pub open spec fn next_deadline(wall: u64, period: Duration, offset: u64, last: Option<u64>) -> u64 {
    match floor_deadline(wall, low_nanos(period), offset) {
        Some(current) => match last {
            Some(l) => if l >= current {
                sat_add(l as int, duration_nanos(period) as int)
            } else {
                current
            },
            None => current,
        },
        None => match last {
            Some(l) => if l >= offset {
                sat_add(l as int, duration_nanos(period) as int)
            } else {
                offset
            },
            None => offset,
        },
    }
}

/// One task at one tick: its new state and what happened to it.
pub open spec fn step(tt: TaskType, st: TaskState, now: u64, wall: u64) -> (TaskState, Outcome) {
    if is_exhausted(st) {
        (st, Outcome::Idle)
    } else {
        match tt {
            TaskType::Relative { period, window, schedule } => {
                let deadline = relative_deadline(st, period);
                let start = sat_add(deadline as int, -duration_nanos(window.early));
                let end = sat_add(deadline as int, duration_nanos(window.late) as int);
                if now < start {
                    (st, Outcome::Idle)
                } else if now <= end {
                    let anchor = match schedule {
                        PeriodicSchedule::FixedRate => deadline,
                        PeriodicSchedule::FixedDelay => now,
                    };
                    (
                        TaskState {
                            last_fired: Some(MonoInstant(anchor)),
                            remaining: consumed(st.remaining),
                            ..st
                        },
                        Outcome::Fired { actual: now, ideal: deadline },
                    )
                } else {
                    (
                        TaskState {
                            last_fired: Some(MonoInstant(now)),
                            remaining: consumed(st.remaining),
                            ..st
                        },
                        Outcome::Missed { actual: now, ideal: deadline },
                    )
                }
            },
            TaskType::Anchored { period, offset, window } => {
                let deadline = next_deadline(
                    wall,
                    period,
                    offset_nanos(offset),
                    wall_value(st.last_wall_deadline),
                );
                let start = sat_add(deadline as int, -duration_nanos(window.early));
                let end = sat_add(deadline as int, duration_nanos(window.late) as int);
                let serviced = TaskState {
                    last_fired: Some(MonoInstant(now)),
                    last_wall_deadline: Some(WallInstant(deadline)),
                    remaining: consumed(st.remaining),
                    ..st
                };
                if wall < start {
                    (st, Outcome::Idle)
                } else if wall <= end {
                    (serviced, Outcome::Fired { actual: wall, ideal: deadline })
                } else {
                    (serviced, Outcome::Missed { actual: wall, ideal: deadline })
                }
            },
        }
    }
}

/// The monotonic moment at which a task next wants a tick: the start of a
/// relative task's window; for an anchored task, now plus the wall time
/// left until its next deadline. `None` for a task with nothing left to serve.
pub open spec fn wake_point(tt: TaskType, st: TaskState, now: u64, wall: u64) -> Option<u64> {
    if is_exhausted(st) {
        None
    } else {
        match tt {
            TaskType::Relative { period, window, .. } => Some(
                sat_add(relative_deadline(st, period) as int, -duration_nanos(window.early)),
            ),
            TaskType::Anchored { period, offset, .. } => {
                let d = next_deadline(
                    wall,
                    period,
                    offset_nanos(offset),
                    wall_value(st.last_wall_deadline),
                );
                Some(sat_add(now as int, if d > wall { d - wall } else { 0 }))
            },
        }
    }
}

/// The earliest wake point among the first `k` tasks.
pub open spec fn soonest<Ctx>(
    tasks: Seq<Task<Ctx>>,
    states: Seq<TaskState>,
    now: u64,
    wall: u64,
    k: int,
) -> Option<u64>
    decreases k,
{
    if k <= 0 {
        None
    } else {
        let prev = soonest(tasks, states, now, wall, k - 1);
        match wake_point(tasks[k - 1].task_type, states[k - 1], now, wall) {
            None => prev,
            Some(w) => match prev {
                None => Some(w),
                Some(p) => Some(if w < p { w } else { p }),
            },
        }
    }
}

/// The tasks that remain after the exhausted ones are evicted.
pub open spec fn kept_tasks<Ctx>(tasks: Seq<Task<Ctx>>, states: Seq<TaskState>) -> Seq<Task<Ctx>>
    decreases tasks.len(),
{
    if tasks.len() == 0 || states.len() == 0 {
        Seq::empty()
    } else {
        let prev = kept_tasks(tasks.drop_last(), states.drop_last());
        if is_exhausted(states.last()) {
            prev
        } else {
            prev.push(tasks.last())
        }
    }
}

/// The states of the tasks that remain after the exhausted ones are evicted.
pub open spec fn kept_states(states: Seq<TaskState>) -> Seq<TaskState>
    decreases states.len(),
{
    if states.len() == 0 {
        Seq::empty()
    } else {
        let prev = kept_states(states.drop_last());
        if is_exhausted(states.last()) {
            prev
        } else {
            prev.push(states.last())
        }
    }
}

/// What each task's step produces at one tick.
pub open spec fn outcomes<Ctx>(tasks: Seq<Task<Ctx>>, states: Seq<TaskState>, now: u64, wall: u64) -> Seq<Outcome> {
    Seq::new(states.len(), |i: int| step(tasks[i].task_type, states[i], now, wall).1)
}

/// Each task's state after one tick.
pub open spec fn stepped<Ctx>(tasks: Seq<Task<Ctx>>, states: Seq<TaskState>, now: u64, wall: u64) -> Seq<TaskState> {
    Seq::new(states.len(), |i: int| step(tasks[i].task_type, states[i], now, wall).0)
}

/// The positions, in order, of the outcomes that fired.
pub open spec fn fired_indices(o: Seq<Outcome>) -> Seq<int>
    decreases o.len(),
{
    if o.len() == 0 {
        Seq::empty()
    } else {
        let prev = fired_indices(o.drop_last());
        if o.last() is Fired {
            prev.push(o.len() - 1)
        } else {
            prev
        }
    }
}

/// The positions, in order, of the outcomes that missed.
pub open spec fn missed_indices(o: Seq<Outcome>) -> Seq<int>
    decreases o.len(),
{
    if o.len() == 0 {
        Seq::empty()
    } else {
        let prev = missed_indices(o.drop_last());
        if o.last() is Missed {
            prev.push(o.len() - 1)
        } else {
            prev
        }
    }
}

/// `execs` lists, in order, the tasks at `indices`, each with the drift of its outcome.
pub open spec fn reports<'a, Ctx>(
    execs: Seq<TaskExecution<'a, Ctx>>,
    tasks: Seq<Task<Ctx>>,
    outs: Seq<Outcome>,
    indices: Seq<int>,
) -> bool {
    &&& execs.len() == indices.len()
    &&& forall|j: int|
        0 <= j < execs.len() ==> {
            &&& *execs[j].task == tasks[indices[j]]
            &&& outcome_drift(execs[j].drift, outs[indices[j]])
        }
}

/// The state of a task just added at `now` (monotonic) and `wall`.
pub open spec fn initial_state(tt: TaskType, repeat: Repeat, now: u64, wall: u64) -> TaskState {
    TaskState {
        last_fired: None,
        last_wall_deadline: match tt {
            TaskType::Anchored { period, offset, .. } => match floor_deadline(
                wall,
                low_nanos(period),
                offset_nanos(offset),
            ) {
                Some(d) => Some(WallInstant(d)),
                None => None,
            },
            TaskType::Relative { .. } => None,
        },
        added_at: MonoInstant(now),
        remaining: repeat,
    }
}

/// A scheduler of periodic tasks over a clock.
#[verifier::reject_recursive_types(Ctx)]
pub struct Scheduler<Ctx = (), C: Clock = RealClock> {
    clock: C,
    timer_delay: Duration,
    tasks: Vec<Task<Ctx>>,
    states: Vec<TaskState>,
}

/// Constructors for the default `RealClock` configuration.
impl<Ctx> Scheduler<Ctx> {
    pub fn new() -> (s: Self)
        ensures
            s.wf(),
            s.spec_tasks().len() == 0,
            duration_nanos(s.spec_timer_delay()) == 0,
    {
        Self::new_with_clock(RealClock::new())
    }
}

impl<Ctx> Default for Scheduler<Ctx> {
    fn default() -> (s: Self)
        ensures
            s.wf(),
            s.spec_tasks().len() == 0,
            duration_nanos(s.spec_timer_delay()) == 0,
    {
        Self::new()
    }
}

/// Core API — available for any clock.
impl<Ctx, C: Clock> Scheduler<Ctx, C> {
    pub closed spec fn spec_clock(&self) -> C {
        self.clock
    }

    pub closed spec fn spec_timer_delay(&self) -> Duration {
        self.timer_delay
    }

    pub closed spec fn spec_tasks(&self) -> Seq<Task<Ctx>> {
        self.tasks@
    }

    pub closed spec fn spec_states(&self) -> Seq<TaskState> {
        self.states@
    }

    /// One state per task, and every task schedulable.
    pub open spec fn wf(&self) -> bool {
        &&& self.spec_tasks().len() == self.spec_states().len()
        &&& forall|i: int|
            0 <= i < self.spec_tasks().len() ==> schedulable(#[trigger] self.spec_tasks()[i].task_type)
    }

    pub fn new_with_clock(clock: C) -> (s: Self)
        ensures
            s.wf(),
            s.spec_clock() == clock,
            s.spec_tasks().len() == 0,
            duration_nanos(s.spec_timer_delay()) == 0,
    {
        Scheduler { clock, timer_delay: Duration::from_nanos(0), tasks: Vec::new(), states: Vec::new() }
    }

    /// Sets how much earlier than needed `calculate_next_tick` tells the
    /// caller to wake, to make up for the operating system's wakeup latency.
    pub fn set_timer_delay(&mut self, timer_delay: Duration)
        ensures
            final(self).spec_timer_delay() == timer_delay,
            final(self).spec_clock() == old(self).spec_clock(),
            final(self).spec_tasks() == old(self).spec_tasks(),
            final(self).spec_states() == old(self).spec_states(),
    {
        self.timer_delay = timer_delay;
    }

    /// Adds a task, reading the clocks for the moment it is added.
    pub fn add_task(&mut self, task: Task<Ctx>) -> (r: Result<(), AddTaskError>)
        requires
            old(self).wf(),
            schedulable(task.task_type),
        ensures
            final(self).wf(),
            r is Ok,
            final(self).spec_clock() == old(self).spec_clock(),
            final(self).spec_timer_delay() == old(self).spec_timer_delay(),
            final(self).spec_tasks() == old(self).spec_tasks().push(task),
            exists|now: u64, wall: u64|
                final(self).spec_states() == old(self).spec_states().push(
                    #[trigger] initial_state(task.task_type, task.repeat, now, wall),
                ),
    {
        let now = self.clock.monotonic_now();
        let wall = self.clock.wall_now();
        let ghost tt = task.task_type;
        let ghost rep = task.repeat;
        let r = self.add_task_at(task, now, wall);
        assert(final(self).spec_states() == old(self).spec_states().push(
            initial_state(tt, rep, now.0, wall.0),
        ));
        r
    }

    /// Adds a task as if the clocks read `now` and `wall`. A relative task's
    /// first period starts at `now`; an anchored task starts from the grid
    /// point at or before `wall`.
    pub fn add_task_at(&mut self, task: Task<Ctx>, now: MonoInstant, wall: WallInstant) -> (r:
        Result<(), AddTaskError>)
        requires
            old(self).wf(),
            schedulable(task.task_type),
        ensures
            final(self).wf(),
            r is Ok,
            final(self).spec_clock() == old(self).spec_clock(),
            final(self).spec_timer_delay() == old(self).spec_timer_delay(),
            final(self).spec_tasks() == old(self).spec_tasks().push(task),
            final(self).spec_states() == old(self).spec_states().push(
                initial_state(task.task_type, task.repeat, now.0, wall.0),
            ),
    {
        let last_wall_deadline = match &task.task_type {
            TaskType::Anchored { period, offset, .. } => {
                let offset_dur = match offset {
                    Some(o) => *o,
                    None => Duration::from_nanos(0),
                };
                floor_wall_deadline(wall, *period, offset_dur)
            },
            TaskType::Relative { .. } => None,
        };
        let state = TaskState {
            last_fired: None,
            last_wall_deadline,
            added_at: now,
            remaining: task.repeat,
        };
        self.tasks.push(task);
        self.states.push(state);
        proof {
            assert forall|i: int| 0 <= i < self.spec_tasks().len() implies schedulable(
                #[trigger] self.spec_tasks()[i].task_type,
            ) by {
                if i < old(self).spec_tasks().len() {
                    assert(self.spec_tasks()[i] == old(self).spec_tasks()[i]);
                }
            }
        }
        Ok(())
    }
}

impl<Ctx, C: Clock> Scheduler<Ctx, C> {
    /// How long the caller should sleep before calling `tick`, read from the clock.
    ///
    /// For each relative periodic task the next wakeup point is
    /// `(anchor + period) - window.early` — the earliest moment the task is
    /// allowed to fire.  We return the duration from *now* until the soonest
    /// such point across all tasks, minus `timer_delay` to compensate for
    /// known OS wakeup latency.
    ///
    /// Returns `Some(Duration::ZERO)` when a task is already inside or past
    /// its window (tick should be called immediately), and `None` when there
    /// are no schedulable tasks.
    pub fn calculate_next_tick(&self) -> (r: Option<Duration>)
        requires
            self.wf(),
        ensures
            exists|now: u64, wall: u64| #[trigger] next_tick_is(r, self.spec_tasks(), self.spec_states(), self.spec_timer_delay(), now, wall),
    {
        let now = self.clock.monotonic_now();
        let wall = self.clock.wall_now();
        let r = self.next_tick_at(now, wall);
        assert(next_tick_is(r, self.spec_tasks(), self.spec_states(), self.spec_timer_delay(), now.0, wall.0));
        r
    }

    /// `calculate_next_tick` as if the clocks read `now` and `wall`.
    pub fn next_tick_at(&self, now: MonoInstant, wall: WallInstant) -> (r: Option<Duration>)
        requires
            self.wf(),
        ensures
            next_tick_is(r, self.spec_tasks(), self.spec_states(), self.spec_timer_delay(), now.0, wall.0),
    {
        let mut soonest_point: Option<u64> = None;
        let mut i: usize = 0;
        while i < self.states.len()
            invariant
                self.wf(),
                0 <= i <= self.states@.len(),
                soonest_point == soonest(self.tasks@, self.states@, now.0, wall.0, i as int),
            decreases self.states@.len() - i,
        {
            proof {
                assert(schedulable(self.spec_tasks()[i as int].task_type));
            }
            let point = wake_point_of(&self.tasks[i].task_type, self.states[i], now.0, wall.0);
            soonest_point = match point {
                None => soonest_point,
                Some(w) => match soonest_point {
                    None => Some(w),
                    Some(p) => Some(if w < p { w } else { p }),
                },
            };
            i += 1;
        }
        match soonest_point {
            None => None,
            Some(t) => {
                let gap: u64 = if t >= now.0 { t - now.0 } else { 0 };
                let delay = self.timer_delay.as_nanos();
                if (gap as u128) <= delay {
                    Some(Duration::from_nanos(0))
                } else {
                    Some(Duration::from_nanos(gap - delay as u64))
                }
            },
        }
    }

    /// Evicts the tasks that have served all their deadlines.
    fn evict_exhausted(&mut self)
        requires
            old(self).wf(),
        ensures
            final(self).wf(),
            final(self).spec_clock() == old(self).spec_clock(),
            final(self).spec_timer_delay() == old(self).spec_timer_delay(),
            final(self).spec_tasks() == kept_tasks(old(self).spec_tasks(), old(self).spec_states()),
            final(self).spec_states() == kept_states(old(self).spec_states()),
    {
        let ghost ot = self.tasks@;
        let ghost os = self.states@;
        let mut i: usize = 0;
        let ghost mut j: int = 0;
        while i < self.states.len()
            invariant
                ot.len() == os.len(),
                0 <= j <= os.len(),
                self.tasks@.len() == self.states@.len(),
                self.tasks@ == kept_tasks(ot.take(j), os.take(j)) + ot.skip(j),
                self.states@ == kept_states(os.take(j)) + os.skip(j),
                i as int == kept_states(os.take(j)).len(),
                kept_tasks(ot.take(j), os.take(j)).len() == i,
                forall|k: int| 0 <= k < ot.len() ==> schedulable(#[trigger] ot[k].task_type),
                forall|k: int| 0 <= k < i ==> schedulable(#[trigger] self.tasks@[k].task_type),
                self.clock == old(self).clock,
                self.timer_delay == old(self).timer_delay,
            decreases os.len() - j,
        {
            proof {
                assert(ot.take(j + 1).drop_last() =~= ot.take(j));
                assert(os.take(j + 1).drop_last() =~= os.take(j));
                assert(ot.take(j + 1).last() == ot[j]);
                assert(os.take(j + 1).last() == os[j]);
                assert(self.states@[i as int] == os[j]);
                assert(self.tasks@[i as int] == ot[j]);
            }
            if self.states[i].remaining == Repeat::Times(0) {
                self.tasks.remove(i);
                self.states.remove(i);
                proof {
                    assert(self.tasks@ =~= kept_tasks(ot.take(j + 1), os.take(j + 1)) + ot.skip(j + 1));
                    assert(self.states@ =~= kept_states(os.take(j + 1)) + os.skip(j + 1));
                    j = j + 1;
                }
            } else {
                i += 1;
                proof {
                    assert(self.tasks@ =~= kept_tasks(ot.take(j + 1), os.take(j + 1)) + ot.skip(j + 1));
                    assert(self.states@ =~= kept_states(os.take(j + 1)) + os.skip(j + 1));
                    j = j + 1;
                }
            }
        }
        proof {
            assert(ot.take(j) =~= ot);
            assert(os.take(j) =~= os);
            assert(self.tasks@ =~= kept_tasks(ot, os));
            assert(self.states@ =~= kept_states(os));
        }
    }

    /// Services every task that is due, reading the clocks for the moment.
    pub fn tick(&mut self) -> (r: TickResult<'_, Ctx>)
        requires
            old(self).wf(),
        ensures
            final(self).wf(),
            final(self).spec_clock() == old(self).spec_clock(),
            final(self).spec_timer_delay() == old(self).spec_timer_delay(),
            exists|now: u64, wall: u64| #[trigger] tick_is(
                r,
                old(self).spec_tasks(),
                old(self).spec_states(),
                final(self).spec_tasks(),
                final(self).spec_states(),
                now,
                wall,
            ),
    {
        let now = self.clock.monotonic_now();
        let wall = self.clock.wall_now();
        self.tick_at(now, wall)
    }

    /// `tick` as if the clocks read `now` and `wall`. Tasks that served all
    /// their deadlines are evicted first; then each task is stepped, in the
    /// order it was added, and reported as fired or missed when it was due.
    pub fn tick_at(&mut self, now: MonoInstant, wall: WallInstant) -> (r: TickResult<'_, Ctx>)
        requires
            old(self).wf(),
        ensures
            final(self).wf(),
            final(self).spec_clock() == old(self).spec_clock(),
            final(self).spec_timer_delay() == old(self).spec_timer_delay(),
            tick_is(
                r,
                old(self).spec_tasks(),
                old(self).spec_states(),
                final(self).spec_tasks(),
                final(self).spec_states(),
                now.0,
                wall.0,
            ),
    {
        self.evict_exhausted();
        let ghost tasks = self.tasks@;
        let ghost states0 = self.states@;
        let mut outs: Vec<Outcome> = Vec::new();
        let mut i: usize = 0;
        while i < self.states.len()
            invariant
                self.wf(),
                self.tasks@ == tasks,
                self.states@.len() == states0.len(),
                0 <= i <= states0.len(),
                outs@.len() == i,
                forall|k: int| 0 <= k < i ==> #[trigger] self.states@[k] == step(tasks[k].task_type, states0[k], now.0, wall.0).0,
                forall|k: int| 0 <= k < i ==> #[trigger] outs@[k] == step(tasks[k].task_type, states0[k], now.0, wall.0).1,
                forall|k: int| i <= k < states0.len() ==> #[trigger] self.states@[k] == states0[k],
                self.clock == old(self).clock,
                self.timer_delay == old(self).timer_delay,
            decreases states0.len() - i,
        {
            proof {
                assert(schedulable(self.spec_tasks()[i as int].task_type));
            }
            let (next_state, outcome) = step_task(&self.tasks[i].task_type, self.states[i], now.0, wall.0);
            self.states.set(i, next_state);
            outs.push(outcome);
            i += 1;
        }
        proof {
            assert(self.states@ =~= stepped(tasks, states0, now.0, wall.0));
            assert(outs@ =~= outcomes(tasks, states0, now.0, wall.0));
        }
        let this: &Self = self;
        let mut fired: Vec<TaskExecution<'_, Ctx>> = Vec::new();
        let mut missed: Vec<TaskExecution<'_, Ctx>> = Vec::new();
        let mut k: usize = 0;
        while k < outs.len()
            invariant
                this.tasks@ == tasks,
                outs@.len() == tasks.len(),
                0 <= k <= outs@.len(),
                reports(fired@, tasks, outs@, fired_indices(outs@.take(k as int))),
                reports(missed@, tasks, outs@, missed_indices(outs@.take(k as int))),
                forall|m: int| 0 <= m < fired_indices(outs@.take(k as int)).len() ==> 0 <= #[trigger] fired_indices(outs@.take(k as int))[m] < k,
                forall|m: int| 0 <= m < missed_indices(outs@.take(k as int)).len() ==> 0 <= #[trigger] missed_indices(outs@.take(k as int))[m] < k,
            decreases outs@.len() - k,
        {
            proof {
                assert(outs@.take(k + 1).drop_last() =~= outs@.take(k as int));
                assert(outs@.take(k + 1).last() == outs@[k as int]);
            }
            match outs[k] {
                Outcome::Fired { actual, ideal } => {
                    fired.push(TaskExecution { task: &this.tasks[k], drift: calculate_drift(actual, ideal) });
                },
                Outcome::Missed { actual, ideal } => {
                    missed.push(TaskExecution { task: &this.tasks[k], drift: calculate_drift(actual, ideal) });
                },
                Outcome::Idle => {},
            }
            k += 1;
        }
        proof {
            assert(outs@.take(k as int) =~= outs@);
        }
        TickResult { fired, missed }
    }
}

/// `r` is what `calculate_next_tick` answers when the clocks read `now` and
/// `wall`: `None` when no task has anything left to serve, else the time
/// from `now` to the soonest wake point, less the timer delay, never negative.
pub open spec fn next_tick_is<Ctx>(
    r: Option<Duration>,
    tasks: Seq<Task<Ctx>>,
    states: Seq<TaskState>,
    timer_delay: Duration,
    now: u64,
    wall: u64,
) -> bool {
    match soonest(tasks, states, now, wall, states.len() as int) {
        None => r is None,
        Some(t) => r matches Some(d) && duration_nanos(d) == sat_add(
            sat_add(t as int, -now) as int,
            -duration_nanos(timer_delay),
        ),
    }
}

/// `r` and the new tasks and states are what `tick` produces from the old
/// ones when the clocks read `now` and `wall`.
pub open spec fn tick_is<'a, Ctx>(
    r: TickResult<'a, Ctx>,
    old_tasks: Seq<Task<Ctx>>,
    old_states: Seq<TaskState>,
    new_tasks: Seq<Task<Ctx>>,
    new_states: Seq<TaskState>,
    now: u64,
    wall: u64,
) -> bool {
    let tasks = kept_tasks(old_tasks, old_states);
    let states = kept_states(old_states);
    let outs = outcomes(tasks, states, now, wall);
    &&& new_tasks == tasks
    &&& new_states == stepped(tasks, states, now, wall)
    &&& reports(r.fired@, tasks, outs, fired_indices(outs))
    &&& reports(r.missed@, tasks, outs, missed_indices(outs))
}

/// The wake point of one task, as `wake_point` describes it.
fn wake_point_of(tt: &TaskType, st: TaskState, now: u64, wall: u64) -> (r: Option<u64>)
    requires
        schedulable(*tt),
    ensures
        r == wake_point(*tt, st, now, wall),
{
    if st.remaining == Repeat::Times(0) {
        return None;
    }
    match tt {
        TaskType::Relative { period, window, .. } => {
            let anchor = match st.last_fired {
                Some(m) => m,
                None => st.added_at,
            };
            let deadline = anchor.saturating_add(*period);
            Some(deadline.saturating_sub(window.early).0)
        },
        TaskType::Anchored { period, offset, .. } => {
            let offset_dur = match offset {
                Some(o) => *o,
                None => Duration::from_nanos(0),
            };
            let deadline = next_absolute_deadline(
                WallInstant(wall),
                *period,
                offset_dur,
                st.last_wall_deadline,
            );
            let wait = if deadline.0 > wall { deadline.0 - wall } else { 0 };
            Some(MonoInstant(now).saturating_add(Duration::from_nanos(wait)).0)
        },
    }
}

/// Compute the drift between the moment a task was serviced (`actual`) and
/// its ideal deadline, both read on the clock the task is scheduled by:
/// the monotonic clock for a relative task, the wall clock for an anchored one.
fn calculate_drift(actual: u64, ideal: u64) -> (d: Drift)
    ensures
        drift_is(d, actual as int, ideal as int),
        signed_nanos(d) == actual - ideal,
        d is OnTime <==> actual == ideal,
        d is Late <==> actual > ideal,
        d is Early <==> actual < ideal,
{
    if actual > ideal {
        Drift::Late(Duration::from_nanos(actual - ideal))
    } else if actual < ideal {
        Drift::Early(Duration::from_nanos(ideal - actual))
    } else {
        Drift::OnTime
    }
}

/// Compute the most recent wall-clock deadline at or before `wall_now`.
///
/// Deadlines form the series: offset, offset + period, offset + 2·period, …
/// Returns `None` if `wall_now` is before the first deadline (`offset`).
fn floor_wall_deadline(wall_now: WallInstant, period: Duration, offset: Duration) -> (r: Option<
    WallInstant,
>)
    requires
        low_nanos(period) > 0,
    ensures
        wall_value(r) == floor_deadline(wall_now.0, low_nanos(period), low_nanos(offset)),
        r is None <==> wall_now.0 < low_nanos(offset),
        r matches Some(a) ==> {
            &&& low_nanos(offset) <= a.0 <= wall_now.0
            &&& on_grid(a.0 as int, low_nanos(period) as int, low_nanos(offset) as int)
            &&& wall_now.0 < a.0 + low_nanos(period)
        },
{
    let now_nanos = wall_now.0;
    let offset_nanos = low_nanos_of(offset);
    if now_nanos < offset_nanos {
        return None;
    }
    let period_nanos = low_nanos_of(period);
    let since = now_nanos - offset_nanos;
    let k = since / period_nanos;
    proof {
        vstd::arithmetic::div_mod::lemma_fundamental_div_mod(since as int, period_nanos as int);
        vstd::arithmetic::mul::lemma_mul_is_commutative(period_nanos as int, k as int);
    }
    let aligned = k * period_nanos + offset_nanos;
    proof {
        lemma_floor_deadline_bounds(now_nanos, period_nanos, offset_nanos);
    }
    Some(WallInstant(aligned))
}

/// Given the current wall time and the task's last serviced deadline, return
/// the next deadline that needs evaluation.
///
/// After an early fire, `last_wall_deadline` may be *ahead* of the floor
/// deadline (we serviced a future boundary). The `>=` comparison handles this
/// correctly — any floor deadline at or below the last serviced one is already
/// covered.
fn next_absolute_deadline(
    wall_now: WallInstant,
    period: Duration,
    offset_dur: Duration,
    last_wall_deadline: Option<WallInstant>,
) -> (r: WallInstant)
    requires
        low_nanos(period) > 0,
    ensures
        r.0 == next_deadline(
            wall_now.0,
            period,
            low_nanos(offset_dur),
            wall_value(last_wall_deadline),
        ),
        last_wall_deadline matches Some(l) ==> (l.0 + duration_nanos(period) <= u64::MAX ==> r.0 > l.0),
        last_wall_deadline is None ==> r.0 == match floor_deadline(
            wall_now.0,
            low_nanos(period),
            low_nanos(offset_dur),
        ) {
            Some(f) => f,
            None => low_nanos(offset_dur),
        },
{
    proof {
        if let Some(l) = last_wall_deadline {
            if l.0 + duration_nanos(period) <= u64::MAX {
                lemma_next_deadline_after_last(wall_now.0, period, low_nanos(offset_dur), l.0);
            }
        }
    }
    let offset_point = WallInstant(low_nanos_of(offset_dur));
    match floor_wall_deadline(wall_now, period, offset_dur) {
        Some(current) => match last_wall_deadline {
            Some(last) => if last.0 >= current.0 {
                last.saturating_add(period)
            } else {
                current
            },
            None => current,
        },
        None => match last_wall_deadline {
            Some(last) => if last.0 >= offset_point.0 {
                last.saturating_add(period)
            } else {
                offset_point
            },
            None => offset_point,
        },
    }
}

/// One task at one tick, as `step` describes it.
fn step_task(tt: &TaskType, st: TaskState, now: u64, wall: u64) -> (r: (TaskState, Outcome))
    requires
        schedulable(*tt),
    ensures
        r == step(*tt, st, now, wall),
{
    if st.remaining == Repeat::Times(0) {
        return (st, Outcome::Idle);
    }
    let remaining = match st.remaining {
        Repeat::Forever => Repeat::Forever,
        Repeat::Times(n) => Repeat::Times(n - 1),
    };
    match tt {
        TaskType::Relative { period, window, schedule } => {
            let anchor = match st.last_fired {
                Some(m) => m,
                None => st.added_at,
            };
            let deadline = anchor.saturating_add(*period);
            let start = deadline.saturating_sub(window.early);
            let end = deadline.saturating_add(window.late);
            if now < start.0 {
                (st, Outcome::Idle)
            } else if now <= end.0 {
                let new_anchor = match schedule {
                    PeriodicSchedule::FixedRate => deadline,
                    PeriodicSchedule::FixedDelay => MonoInstant(now),
                };
                (
                    TaskState {
                        last_fired: Some(new_anchor),
                        last_wall_deadline: st.last_wall_deadline,
                        added_at: st.added_at,
                        remaining,
                    },
                    Outcome::Fired { actual: now, ideal: deadline.0 },
                )
            } else {
                (
                    TaskState {
                        last_fired: Some(MonoInstant(now)),
                        last_wall_deadline: st.last_wall_deadline,
                        added_at: st.added_at,
                        remaining,
                    },
                    Outcome::Missed { actual: now, ideal: deadline.0 },
                )
            }
        },
        TaskType::Anchored { period, offset, window } => {
            let offset_dur = match offset {
                Some(o) => *o,
                None => Duration::from_nanos(0),
            };
            let deadline = next_absolute_deadline(
                WallInstant(wall),
                *period,
                offset_dur,
                st.last_wall_deadline,
            );
            let start = deadline.saturating_sub(window.early);
            let end = deadline.saturating_add(window.late);
            let serviced = TaskState {
                last_fired: Some(MonoInstant(now)),
                last_wall_deadline: Some(deadline),
                added_at: st.added_at,
                remaining,
            };
            if wall < start.0 {
                (st, Outcome::Idle)
            } else if wall <= end.0 {
                (serviced, Outcome::Fired { actual: wall, ideal: deadline.0 })
            } else {
                (serviced, Outcome::Missed { actual: wall, ideal: deadline.0 })
            }
        },
    }
}


/// A grid point `offset + k * period` at or after `offset`.
pub open spec fn on_grid(x: int, period: int, offset: int) -> bool {
    x >= offset && (x - offset) % period == 0
}

/// How many times a task is serviced (fired or missed) over successive
/// ticks at the given (monotonic, wall) readings.
pub open spec fn services(tt: TaskType, st: TaskState, ticks: Seq<(u64, u64)>) -> nat
    decreases ticks.len(),
{
    if ticks.len() == 0 {
        0
    } else {
        let (next, o) = step(tt, st, ticks[0].0, ticks[0].1);
        (if o is Idle { 0nat } else { 1nat }) + services(tt, next, ticks.drop_first())
    }
}

/// The drift a tick reports, read as signed nanoseconds, is the actual time
/// minus the ideal deadline.
pub proof fn lemma_drift_is_signed_difference(d: Drift, actual: int, ideal: int)
    requires
        drift_is(d, actual, ideal),
    ensures
        signed_nanos(d) == actual - ideal,
{
}

/// The grid point at or before `now` is on the grid, is not after `now`,
/// and is less than one period before it.
pub proof fn lemma_floor_deadline_bounds(now: u64, period: u64, offset: u64)
    requires
        period > 0,
        now >= offset,
    ensures
        floor_deadline(now, period, offset) matches Some(f) && {
            &&& on_grid(f as int, period as int, offset as int)
            &&& f <= now
            &&& now - f < period
        },
{
    let since = (now - offset) as int;
    let k = since / (period as int);
    vstd::arithmetic::div_mod::lemma_fundamental_div_mod(since, period as int);
    vstd::arithmetic::mul::lemma_mul_is_commutative(period as int, k);
    vstd::arithmetic::div_mod::lemma_mod_multiples_basic(k, period as int);
}

/// A FixedRate task that fires keeps its grid: its next deadline is exactly
/// one period after the deadline it fired for, however late it fired.
pub proof fn lemma_fixed_rate_keeps_cadence(
    period: Duration,
    window: crate::task::Window,
    st: TaskState,
    now: u64,
    wall: u64,
)
    requires
        step(
            TaskType::Relative { period, window, schedule: PeriodicSchedule::FixedRate },
            st,
            now,
            wall,
        ).1 is Fired,
    ensures
        relative_deadline(
            step(
                TaskType::Relative { period, window, schedule: PeriodicSchedule::FixedRate },
                st,
                now,
                wall,
            ).0,
            period,
        ) == sat_add(relative_deadline(st, period) as int, duration_nanos(period) as int),
{
}

/// A task's state after successive ticks at the given (monotonic, wall) readings.
pub open spec fn run_state(tt: TaskType, st: TaskState, ticks: Seq<(u64, u64)>) -> TaskState
    decreases ticks.len(),
{
    if ticks.len() == 0 {
        st
    } else {
        run_state(tt, step(tt, st, ticks[0].0, ticks[0].1).0, ticks.drop_first())
    }
}

/// No tick of the run finds the task past its window.
pub open spec fn never_missed(tt: TaskType, st: TaskState, ticks: Seq<(u64, u64)>) -> bool
    decreases ticks.len(),
{
    ticks.len() == 0 || {
        &&& !(step(tt, st, ticks[0].0, ticks[0].1).1 is Missed)
        &&& never_missed(tt, step(tt, st, ticks[0].0, ticks[0].1).0, ticks.drop_first())
    }
}

/// A fixed-rate task keeps its grid over any run of ticks in which it is
/// never missed: however late each tick comes within the window, after `k`
/// fires its next deadline is exactly `k` periods after the one it had
/// (while the grid stays within the representable range).
pub proof fn lemma_fixed_rate_grid_over_run(
    period: Duration,
    window: crate::task::Window,
    st: TaskState,
    ticks: Seq<(u64, u64)>,
)
    requires
        never_missed(
            TaskType::Relative { period, window, schedule: PeriodicSchedule::FixedRate },
            st,
            ticks,
        ),
        relative_deadline(st, period) + services(
            TaskType::Relative { period, window, schedule: PeriodicSchedule::FixedRate },
            st,
            ticks,
        ) * duration_nanos(period) <= u64::MAX,
    ensures
        relative_deadline(
            run_state(
                TaskType::Relative { period, window, schedule: PeriodicSchedule::FixedRate },
                st,
                ticks,
            ),
            period,
        ) == relative_deadline(st, period) + services(
            TaskType::Relative { period, window, schedule: PeriodicSchedule::FixedRate },
            st,
            ticks,
        ) * duration_nanos(period),
    decreases ticks.len(),
{
    let tt = TaskType::Relative { period, window, schedule: PeriodicSchedule::FixedRate };
    if ticks.len() > 0 {
        let (next, o) = step(tt, st, ticks[0].0, ticks[0].1);
        let rest = ticks.drop_first();
        let n = services(tt, next, rest);
        let p = duration_nanos(period) as int;
        assert(n * p >= 0) by (nonlinear_arith)
            requires
                n >= 0,
                p >= 0,
        ;
        assert(run_state(tt, st, ticks) == run_state(tt, next, rest));
        if o is Idle {
            assert(services(tt, st, ticks) == n);
            lemma_fixed_rate_grid_over_run(period, window, next, rest);
        } else {
            assert(services(tt, st, ticks) == n + 1);
            assert((n + 1) * p == n * p + p) by (nonlinear_arith);
            assert(relative_deadline(next, period) == relative_deadline(st, period) + p);
            lemma_fixed_rate_grid_over_run(period, window, next, rest);
        }
    } else {
        assert(services(tt, st, ticks) == 0);
        assert(0 * duration_nanos(period) == 0);
    }
}

/// A relative task that has deadlines left, with deadline `D`, is fired by
/// a tick at `now` exactly when `now` lies in its window
/// `[D - early, D + late]` (the start saturating at zero), missed exactly
/// when `now` is past the window, and left alone before it; a fire or miss
/// reports the drift `now - D`.
pub proof fn lemma_relative_outcome(
    period: Duration,
    window: crate::task::Window,
    schedule: PeriodicSchedule,
    st: TaskState,
    now: u64,
    wall: u64,
)
    requires
        !is_exhausted(st),
    ensures
        ({
            let dl = relative_deadline(st, period);
            let start = sat_add(dl as int, -duration_nanos(window.early));
            let end = sat_add(dl as int, duration_nanos(window.late) as int);
            let o = step(TaskType::Relative { period, window, schedule }, st, now, wall).1;
            &&& (o == Outcome::Fired { actual: now, ideal: dl }) <==> start <= now <= end
            &&& (o == Outcome::Missed { actual: now, ideal: dl }) <==> now > end
            &&& o is Idle <==> now < start
            &&& forall|d: Drift| #[trigger] outcome_drift(d, o) ==> signed_nanos(d) == now - dl
        }),
{
}

/// The next deadline of a relative task after a tick: unchanged when the
/// tick left it alone; one period after the old deadline when a fixed-rate
/// task fired; one period after the tick when a fixed-delay task fired or
/// when the task was missed.
pub proof fn lemma_relative_next_deadline(
    period: Duration,
    window: crate::task::Window,
    schedule: PeriodicSchedule,
    st: TaskState,
    now: u64,
    wall: u64,
)
    ensures
        ({
            let (next, o) = step(TaskType::Relative { period, window, schedule }, st, now, wall);
            let p = duration_nanos(period) as int;
            &&& o is Idle ==> relative_deadline(next, period) == relative_deadline(st, period)
            &&& o is Fired && schedule == PeriodicSchedule::FixedRate ==> relative_deadline(next, period)
                == sat_add(relative_deadline(st, period) as int, p)
            &&& o is Fired && schedule == PeriodicSchedule::FixedDelay ==> relative_deadline(
                next,
                period,
            ) == sat_add(now as int, p)
            &&& o is Missed ==> relative_deadline(next, period) == sat_add(now as int, p)
        }),
{
}

/// Relative tasks never read the wall clock: with only relative tasks, a
/// tick and `calculate_next_tick` give the same outcomes, states and
/// wakeup whatever the wall clock reads.
pub proof fn lemma_relative_tasks_ignore_wall<Ctx>(
    tasks: Seq<Task<Ctx>>,
    states: Seq<TaskState>,
    now: u64,
    w1: u64,
    w2: u64,
    k: int,
)
    requires
        states.len() == tasks.len(),
        0 <= k <= states.len(),
        forall|i: int| 0 <= i < tasks.len() ==> (#[trigger] tasks[i]).task_type is Relative,
    ensures
        outcomes(tasks, states, now, w1) == outcomes(tasks, states, now, w2),
        stepped(tasks, states, now, w1) == stepped(tasks, states, now, w2),
        soonest(tasks, states, now, w1, k) == soonest(tasks, states, now, w2, k),
    decreases k,
{
    assert forall|i: int| 0 <= i < states.len() implies #[trigger] step(
        tasks[i].task_type,
        states[i],
        now,
        w1,
    ) == step(tasks[i].task_type, states[i], now, w2) by {
        assert(tasks[i].task_type is Relative);
    }
    assert(outcomes(tasks, states, now, w1) =~= outcomes(tasks, states, now, w2));
    assert(stepped(tasks, states, now, w1) =~= stepped(tasks, states, now, w2));
    if k > 0 {
        lemma_relative_tasks_ignore_wall(tasks, states, now, w1, w2, k - 1);
        assert(tasks[k - 1].task_type is Relative);
    }
}

/// Over whole runs too, a relative task ignores the wall clock: two runs of
/// ticks at the same monotonic readings leave it in the same state and
/// service it as often, whatever the wall clock read at each tick.
pub proof fn lemma_relative_run_ignores_wall(
    period: Duration,
    window: crate::task::Window,
    schedule: PeriodicSchedule,
    st: TaskState,
    a: Seq<(u64, u64)>,
    b: Seq<(u64, u64)>,
)
    requires
        a.len() == b.len(),
        forall|i: int| 0 <= i < a.len() ==> (#[trigger] a[i]).0 == b[i].0,
    ensures
        run_state(TaskType::Relative { period, window, schedule }, st, a) == run_state(
            TaskType::Relative { period, window, schedule },
            st,
            b,
        ),
        services(TaskType::Relative { period, window, schedule }, st, a) == services(
            TaskType::Relative { period, window, schedule },
            st,
            b,
        ),
    decreases a.len(),
{
    if a.len() > 0 {
        let tt = TaskType::Relative { period, window, schedule };
        assert(a[0].0 == b[0].0);
        assert(step(tt, st, a[0].0, a[0].1) == step(tt, st, b[0].0, b[0].1));
        let next = step(tt, st, a[0].0, a[0].1).0;
        assert forall|i: int| 0 <= i < a.drop_first().len() implies (#[trigger] a.drop_first()[i]).0
            == b.drop_first()[i].0 by {
            assert(a.drop_first()[i] == a[i + 1]);
            assert(b.drop_first()[i] == b[i + 1]);
        }
        lemma_relative_run_ignores_wall(period, window, schedule, next, a.drop_first(), b.drop_first());
    }
}

/// A FixedDelay task that fires starts its next period from the moment it
/// fired, so a late fire shifts its cadence.
pub proof fn lemma_fixed_delay_restarts_period(
    period: Duration,
    window: crate::task::Window,
    st: TaskState,
    now: u64,
    wall: u64,
)
    requires
        step(
            TaskType::Relative { period, window, schedule: PeriodicSchedule::FixedDelay },
            st,
            now,
            wall,
        ).1 is Fired,
    ensures
        relative_deadline(
            step(
                TaskType::Relative { period, window, schedule: PeriodicSchedule::FixedDelay },
                st,
                now,
                wall,
            ).0,
            period,
        ) == sat_add(now as int, duration_nanos(period) as int),
{
}

/// A relative task that missed its window starts its next period from the
/// moment the miss was seen, whatever its schedule.
pub proof fn lemma_missed_relative_restarts_period(
    period: Duration,
    window: crate::task::Window,
    schedule: PeriodicSchedule,
    st: TaskState,
    now: u64,
    wall: u64,
)
    requires
        step(TaskType::Relative { period, window, schedule }, st, now, wall).1 is Missed,
    ensures
        relative_deadline(
            step(TaskType::Relative { period, window, schedule }, st, now, wall).0,
            period,
        ) == sat_add(now as int, duration_nanos(period) as int),
{
}

/// A relative task is serviced by a tick exactly when the tick comes at or
/// after the wake point that `calculate_next_tick` aims for.
pub proof fn lemma_relative_due_from_wake_point(
    period: Duration,
    window: crate::task::Window,
    schedule: PeriodicSchedule,
    st: TaskState,
    now: u64,
    wall: u64,
)
    requires
        !is_exhausted(st),
    ensures
        wake_point(TaskType::Relative { period, window, schedule }, st, now, wall) matches Some(w)
            && (!(step(TaskType::Relative { period, window, schedule }, st, now, wall).1 is Idle)
            <==> now >= w),
{
}

/// A task with nothing left to serve is never serviced, never changes, and
/// never asks for a wakeup.
pub proof fn lemma_exhausted_task_is_inert(tt: TaskType, st: TaskState, now: u64, wall: u64)
    requires
        is_exhausted(st),
    ensures
        step(tt, st, now, wall) == (st, Outcome::Idle),
        wake_point(tt, st, now, wall) is None,
{
}

/// A tick leaves an idle task's state as it was, and a service uses up one
/// of the task's deadlines.
pub proof fn lemma_service_consumes_one_deadline(tt: TaskType, st: TaskState, now: u64, wall: u64)
    ensures
        step(tt, st, now, wall).1 is Idle ==> step(tt, st, now, wall).0 == st,
        !(step(tt, st, now, wall).1 is Idle) ==> {
            &&& !is_exhausted(st)
            &&& step(tt, st, now, wall).0.remaining == consumed(st.remaining)
        },
{
}

/// Eviction keeps exactly the tasks that still have deadlines to serve, in
/// the order they were added, each with its own state: the states kept are
/// the live ones, filtered out of the old states.
pub proof fn lemma_eviction_keeps_live_tasks<Ctx>(tasks: Seq<Task<Ctx>>, states: Seq<TaskState>)
    requires
        tasks.len() == states.len(),
    ensures
        kept_states(states) == states.filter(|st: TaskState| !is_exhausted(st)),
        kept_tasks(tasks, states).len() == kept_states(states).len(),
    decreases states.len(),
{
    reveal(Seq::filter);
    if states.len() > 0 {
        lemma_eviction_keeps_live_tasks(tasks.drop_last(), states.drop_last());
    }
}

/// A task that may serve `n` more deadlines is serviced at most `n` times,
/// over any sequence of ticks.
pub proof fn lemma_repeat_bounds_services(tt: TaskType, st: TaskState, n: u32, ticks: Seq<(u64, u64)>)
    requires
        st.remaining == Repeat::Times(n),
    ensures
        services(tt, st, ticks) <= n,
    decreases ticks.len(),
{
    if ticks.len() > 0 {
        let (next, o) = step(tt, st, ticks[0].0, ticks[0].1);
        lemma_service_consumes_one_deadline(tt, st, ticks[0].0, ticks[0].1);
        if o is Idle {
            lemma_repeat_bounds_services(tt, next, n, ticks.drop_first());
        } else {
            lemma_repeat_bounds_services(tt, next, (n - 1) as u32, ticks.drop_first());
        }
    }
}

/// A task that may serve `n` more deadlines and is due at every tick is
/// serviced exactly `n` times, as long as there are at least `n` ticks.
pub proof fn lemma_repeat_serves_exactly_n_when_always_due(
    tt: TaskType,
    st: TaskState,
    n: u32,
    ticks: Seq<(u64, u64)>,
)
    requires
        st.remaining == Repeat::Times(n),
        ticks.len() >= n,
        forall|s: TaskState, i: int|
            0 <= i < ticks.len() && !is_exhausted(s) ==> !(#[trigger] step(tt, s, ticks[i].0, ticks[i].1).1 is Idle),
    ensures
        services(tt, st, ticks) == n,
    decreases ticks.len(),
{
    if ticks.len() > 0 {
        let (next, o) = step(tt, st, ticks[0].0, ticks[0].1);
        lemma_service_consumes_one_deadline(tt, st, ticks[0].0, ticks[0].1);
        if n == 0 {
            lemma_repeat_bounds_services(tt, st, n, ticks);
        } else {
            assert(!(step(tt, st, ticks[0].0, ticks[0].1).1 is Idle));
            let rest = ticks.drop_first();
            assert forall|s: TaskState, i: int|
                0 <= i < rest.len() && !is_exhausted(s) implies !(#[trigger] step(tt, s, rest[i].0, rest[i].1).1 is Idle) by {
                assert(rest[i] == ticks[i + 1]);
            }
            lemma_repeat_serves_exactly_n_when_always_due(tt, next, (n - 1) as u32, rest);
        }
    }
}

/// The next wall deadline of an anchored task lies on its grid
/// `offset + k * period`, as long as the last serviced deadline did and the
/// period fits in 64 bits of nanoseconds.
pub proof fn lemma_next_deadline_on_grid(wall: u64, period: Duration, offset: u64, last: Option<u64>)
    requires
        low_nanos(period) > 0,
        duration_nanos(period) == low_nanos(period),
        last matches Some(l) ==> on_grid(l as int, low_nanos(period) as int, offset as int) && l
            + duration_nanos(period) <= u64::MAX,
    ensures
        on_grid(next_deadline(wall, period, offset, last) as int, low_nanos(period) as int, offset as int),
{
    let p = low_nanos(period) as int;
    if wall >= offset {
        lemma_floor_deadline_bounds(wall, low_nanos(period), offset);
    }
    vstd::arithmetic::div_mod::lemma_small_mod(0, p as nat);
    assert((offset - offset) % p == 0);
    if let Some(l) = last {
        vstd::arithmetic::div_mod::lemma_mod_add_multiples_vanish((l - offset) as int, p);
        assert(l + p - offset == p + (l - offset));
    }
}

/// An anchored task never goes back to a deadline it has already been
/// serviced for: its next deadline is after the last one.
pub proof fn lemma_next_deadline_after_last(wall: u64, period: Duration, offset: u64, l: u64)
    requires
        low_nanos(period) > 0,
        l + duration_nanos(period) <= u64::MAX,
    ensures
        next_deadline(wall, period, offset, Some(l)) > l,
{
    assert(duration_nanos(period) > 0) by {
        if duration_nanos(period) == 0 {
            assert(low_nanos(period) == 0);
        }
    }
}

/// When the wall clock has jumped past deadlines of an anchored task (a
/// suspend, a clock correction), the task is next evaluated once, for the
/// latest grid deadline at or before the wall clock: the deadlines in
/// between are skipped, not served one by one.
pub proof fn lemma_jump_forward_resyncs(wall: u64, period: Duration, offset: u64, l: u64)
    requires
        low_nanos(period) > 0,
        floor_deadline(wall, low_nanos(period), offset) matches Some(f) && f > l,
    ensures
        next_deadline(wall, period, offset, Some(l)) == floor_deadline(
            wall,
            low_nanos(period),
            offset,
        )->0,
        next_deadline(wall, period, offset, Some(l)) <= wall,
{
    lemma_floor_deadline_bounds(wall, low_nanos(period), offset);
}

/// `calculate_next_tick` answers `None` exactly when no task has anything
/// left to serve.
pub proof fn lemma_no_wakeup_iff_all_exhausted<Ctx>(
    tasks: Seq<Task<Ctx>>,
    states: Seq<TaskState>,
    now: u64,
    wall: u64,
    k: int,
)
    requires
        0 <= k <= states.len(),
        states.len() == tasks.len(),
    ensures
        soonest(tasks, states, now, wall, k) is None <==> forall|i: int|
            0 <= i < k ==> is_exhausted(#[trigger] states[i]),
    decreases k,
{
    if k > 0 {
        lemma_no_wakeup_iff_all_exhausted(tasks, states, now, wall, k - 1);
        if !is_exhausted(states[k - 1]) {
            assert(wake_point(tasks[k - 1].task_type, states[k - 1], now, wall) is Some);
        }
    }
}

/// The wakeup that `calculate_next_tick` asks for is no later than the wake
/// point of any task.
pub proof fn lemma_wakeup_is_soonest<Ctx>(
    tasks: Seq<Task<Ctx>>,
    states: Seq<TaskState>,
    now: u64,
    wall: u64,
    k: int,
    i: int,
)
    requires
        0 <= i < k <= states.len(),
        states.len() == tasks.len(),
        wake_point(tasks[i].task_type, states[i], now, wall) is Some,
    ensures
        soonest(tasks, states, now, wall, k) matches Some(t) && t <= wake_point(
            tasks[i].task_type,
            states[i],
            now,
            wall,
        )->0,
    decreases k,
{
    if i < k - 1 {
        lemma_wakeup_is_soonest(tasks, states, now, wall, k - 1, i);
    }
}


/// The soonest wake point is the wake point of one of the tasks.
pub proof fn lemma_soonest_is_attained<Ctx>(
    tasks: Seq<Task<Ctx>>,
    states: Seq<TaskState>,
    now: u64,
    wall: u64,
    k: int,
)
    requires
        0 <= k <= states.len(),
        states.len() == tasks.len(),
        soonest(tasks, states, now, wall, k) is Some,
    ensures
        exists|i: int|
            0 <= i < k && #[trigger] wake_point(tasks[i].task_type, states[i], now, wall) == soonest(
                tasks,
                states,
                now,
                wall,
                k,
            ),
    decreases k,
{
    let prev = soonest(tasks, states, now, wall, k - 1);
    let w = wake_point(tasks[k - 1].task_type, states[k - 1], now, wall);
    if prev is Some {
        lemma_soonest_is_attained(tasks, states, now, wall, k - 1);
        let j = choose|i: int|
            0 <= i < k - 1 && #[trigger] wake_point(tasks[i].task_type, states[i], now, wall)
                == prev;
        if w is Some && w->0 < prev->0 {
            assert(wake_point(tasks[k - 1].task_type, states[k - 1], now, wall) == soonest(tasks, states, now, wall, k));
        } else {
            assert(wake_point(tasks[j].task_type, states[j], now, wall) == soonest(tasks, states, now, wall, k));
        }
    } else {
        assert(wake_point(tasks[k - 1].task_type, states[k - 1], now, wall) == soonest(tasks, states, now, wall, k));
    }
}

/// The last serviced wall deadline of an anchored task is on its grid and
/// one more period after it still fits in 64 bits; the period itself fits
/// in 64 bits of nanoseconds.
pub open spec fn on_its_grid(tt: TaskType, st: TaskState) -> bool {
    match tt {
        TaskType::Anchored { period, offset, .. } => {
            &&& duration_nanos(period) == low_nanos(period)
            &&& match st.last_wall_deadline {
                Some(l) => on_grid(l.0 as int, low_nanos(period) as int, offset_nanos(offset) as int)
                    && l.0 + duration_nanos(period) <= u64::MAX,
                None => true,
            }
        },
        TaskType::Relative { .. } => true,
    }
}

/// An anchored task starts on its grid when it is added, as long as its
/// period fits in 64 bits of nanoseconds and one period after the wall
/// reading stays within range.
pub proof fn lemma_added_anchored_task_on_grid(
    period: Duration,
    offset: Option<Duration>,
    window: crate::task::Window,
    repeat: Repeat,
    now: u64,
    wall: u64,
)
    requires
        low_nanos(period) > 0,
        duration_nanos(period) == low_nanos(period),
        wall + duration_nanos(period) <= u64::MAX,
    ensures
        on_its_grid(
            TaskType::Anchored { period, offset, window },
            initial_state(TaskType::Anchored { period, offset, window }, repeat, now, wall),
        ),
{
    if wall >= offset_nanos(offset) {
        lemma_floor_deadline_bounds(wall, low_nanos(period), offset_nanos(offset));
    }
}

/// The first deadline of a newly added anchored task is the least point of
/// its grid `offset + k * period` strictly after the wall reading at which
/// it was added: on the grid, after that reading, and either the first grid
/// point or one period after a point not after the reading (while the
/// period fits in 64 bits of nanoseconds and one period after the reading
/// stays in range).
pub proof fn lemma_added_anchored_first_deadline(
    period: Duration,
    offset: Option<Duration>,
    window: crate::task::Window,
    repeat: Repeat,
    now: u64,
    wall: u64,
)
    requires
        low_nanos(period) > 0,
        duration_nanos(period) == low_nanos(period),
        wall + duration_nanos(period) <= u64::MAX,
    ensures
        ({
            let tt = TaskType::Anchored { period, offset, window };
            let d = next_deadline(
                wall,
                period,
                offset_nanos(offset),
                wall_value(initial_state(tt, repeat, now, wall).last_wall_deadline),
            );
            &&& on_grid(d as int, low_nanos(period) as int, offset_nanos(offset) as int)
            &&& d > wall
            &&& d == offset_nanos(offset) || d - low_nanos(period) <= wall
        }),
{
    let o = offset_nanos(offset);
    let p = low_nanos(period);
    if wall >= o {
        lemma_floor_deadline_bounds(wall, p, o);
        let f = floor_deadline(wall, p, o)->0;
        lemma_next_deadline_on_grid(wall, period, o, Some(f));
    } else {
        lemma_next_deadline_on_grid(wall, period, o, None);
    }
}

/// An anchored task with deadlines left and next grid deadline `D` is left
/// alone by a tick whose wall reading is before `D - window.early`
/// (saturating at zero), fired when the wall reading lies in
/// `[D - window.early, D + window.late]`, and missed past it; a fire or miss
/// reports the drift `wall - D` and uses up `D` and one repeat.
pub proof fn lemma_anchored_outcome(
    period: Duration,
    offset: Option<Duration>,
    window: crate::task::Window,
    st: TaskState,
    now: u64,
    wall: u64,
)
    requires
        !is_exhausted(st),
    ensures
        ({
            let tt = TaskType::Anchored { period, offset, window };
            let dl = next_deadline(wall, period, offset_nanos(offset), wall_value(st.last_wall_deadline));
            let start = sat_add(dl as int, -duration_nanos(window.early));
            let end = sat_add(dl as int, duration_nanos(window.late) as int);
            let (next, o) = step(tt, st, now, wall);
            &&& (o == Outcome::Fired { actual: wall, ideal: dl }) <==> start <= wall <= end
            &&& (o == Outcome::Missed { actual: wall, ideal: dl }) <==> wall > end
            &&& o is Idle <==> wall < start
            &&& o is Idle ==> next == st
            &&& !(o is Idle) ==> next.last_wall_deadline == Some(WallInstant(dl)) && next.remaining
                == consumed(st.remaining)
            &&& forall|d: Drift| #[trigger] outcome_drift(d, o) ==> signed_nanos(d) == wall - dl
        }),
{
}

/// An anchored task with deadlines left wants a tick when the wall clock
/// reaches its next grid deadline `D`: `D - wall` after `now` when `D` is
/// still ahead, at once otherwise; its window plays no part.
pub proof fn lemma_anchored_wake_point(
    period: Duration,
    offset: Option<Duration>,
    window: crate::task::Window,
    st: TaskState,
    now: u64,
    wall: u64,
)
    requires
        !is_exhausted(st),
    ensures
        ({
            let dl = next_deadline(wall, period, offset_nanos(offset), wall_value(st.last_wall_deadline));
            &&& dl > wall && now + (dl - wall) <= u64::MAX ==> wake_point(
                TaskType::Anchored { period, offset, window },
                st,
                now,
                wall,
            ) == Some((now + (dl - wall)) as u64)
            &&& dl <= wall ==> wake_point(TaskType::Anchored { period, offset, window }, st, now, wall)
                == Some(now)
            &&& forall|w2: crate::task::Window| #[trigger] wake_point(
                TaskType::Anchored { period, offset, window: w2 },
                st,
                now,
                wall,
            ) == wake_point(TaskType::Anchored { period, offset, window }, st, now, wall)
        }),
{
}

/// A relative task with deadlines left wants a tick when its window opens:
/// `window.early` before its deadline (one period after its anchor), at
/// zero should that reach before it; neither its late side, its schedule
/// nor the clock readings change that.
pub proof fn lemma_relative_wake_point(
    period: Duration,
    window: crate::task::Window,
    schedule: PeriodicSchedule,
    st: TaskState,
    now: u64,
    wall: u64,
)
    requires
        !is_exhausted(st),
    ensures
        ({
            let anchor = match st.last_fired {
                Some(m) => m.0,
                None => st.added_at.0,
            };
            let dl = anchor + duration_nanos(period);
            &&& dl <= u64::MAX && duration_nanos(window.early) <= dl ==> wake_point(
                TaskType::Relative { period, window, schedule },
                st,
                now,
                wall,
            ) == Some((dl - duration_nanos(window.early)) as u64)
            &&& dl <= u64::MAX && duration_nanos(window.early) > dl ==> wake_point(
                TaskType::Relative { period, window, schedule },
                st,
                now,
                wall,
            ) == Some(0u64)
            &&& forall|late: Duration, s2: PeriodicSchedule, n2: u64, w2: u64| #[trigger] wake_point(
                TaskType::Relative {
                    period,
                    window: crate::task::Window { early: window.early, late },
                    schedule: s2,
                },
                st,
                n2,
                w2,
            ) == wake_point(TaskType::Relative { period, window, schedule }, st, now, wall)
        }),
{
}

/// With one anchored task with deadlines left, `calculate_next_tick` asks to
/// sleep until the wall clock reaches its next grid deadline `D`, less the
/// timer delay (never below zero), and at once when `D` is not ahead.
pub proof fn lemma_single_anchored_next_tick<Ctx>(
    tasks: Seq<Task<Ctx>>,
    states: Seq<TaskState>,
    timer_delay: Duration,
    now: u64,
    wall: u64,
    r: Option<Duration>,
)
    requires
        tasks.len() == 1,
        states.len() == 1,
        tasks[0].task_type is Anchored,
        !is_exhausted(states[0]),
        next_tick_is(r, tasks, states, timer_delay, now, wall),
    ensures
        ({
            let tt = tasks[0].task_type;
            let dl = next_deadline(
                wall,
                tt->Anchored_period,
                offset_nanos(tt->Anchored_offset),
                wall_value(states[0].last_wall_deadline),
            );
            &&& r is Some
            &&& dl > wall && now + (dl - wall) <= u64::MAX ==> duration_nanos(r->0) == sat_add(
                dl - wall,
                -duration_nanos(timer_delay),
            )
            &&& dl <= wall ==> duration_nanos(r->0) == 0
        }),
{
    let tt = tasks[0].task_type;
    lemma_anchored_wake_point(
        tt->Anchored_period,
        tt->Anchored_offset,
        tt->Anchored_window,
        states[0],
        now,
        wall,
    );
    assert(soonest(tasks, states, now, wall, 0) is None);
}

/// An anchored task is only ever serviced, fired or missed, for a deadline
/// on its grid `offset + k * period`, and stays on its grid from one tick
/// to the next while one more period after that deadline is within range.
pub proof fn lemma_anchored_services_on_grid(
    period: Duration,
    offset: Option<Duration>,
    window: crate::task::Window,
    st: TaskState,
    now: u64,
    wall: u64,
)
    requires
        low_nanos(period) > 0,
        on_its_grid(TaskType::Anchored { period, offset, window }, st),
    ensures
        step(TaskType::Anchored { period, offset, window }, st, now, wall).1 matches Outcome::Fired {
            ideal,
            ..
        } ==> on_grid(ideal as int, low_nanos(period) as int, offset_nanos(offset) as int),
        step(TaskType::Anchored { period, offset, window }, st, now, wall).1 matches Outcome::Missed {
            ideal,
            ..
        } ==> on_grid(ideal as int, low_nanos(period) as int, offset_nanos(offset) as int),
        next_deadline(wall, period, offset_nanos(offset), wall_value(st.last_wall_deadline))
            + duration_nanos(period) <= u64::MAX ==> on_its_grid(
            TaskType::Anchored { period, offset, window },
            step(TaskType::Anchored { period, offset, window }, st, now, wall).0,
        ),
{
    lemma_next_deadline_on_grid(wall, period, offset_nanos(offset), wall_value(st.last_wall_deadline));
}

/// For an anchored task, once the wall clock has reached the deadline it
/// computed earlier, the deadline it computes now is not after the wall clock.
proof fn lemma_anchored_deadline_reached(
    wall: u64,
    wall2: u64,
    period: Duration,
    offset: u64,
    last: Option<u64>,
)
    requires
        low_nanos(period) > 0,
        duration_nanos(period) == low_nanos(period),
        last matches Some(l) ==> on_grid(l as int, low_nanos(period) as int, offset as int) && l
            + duration_nanos(period) <= u64::MAX,
        wall2 >= wall,
        wall2 >= next_deadline(wall, period, offset, last),
    ensures
        next_deadline(wall2, period, offset, last) <= wall2,
{
    let p = low_nanos(period);
    let d = next_deadline(wall, period, offset, last);
    lemma_next_deadline_on_grid(wall, period, offset, last);
    assert(wall2 >= offset) by {
        assert(d >= offset);
    }
    lemma_floor_deadline_bounds(wall2, p, offset);
    let f2 = floor_deadline(wall2, p, offset)->0;
    // The grid point `d` is at or before `wall2`, so the latest grid point
    // at or before `wall2` is at least `d`.
    lemma_grid_floor_is_greatest(wall2, p, offset, d);
    assert(f2 >= d);
    if let Some(l) = last {
        assert(d > l) by {
            lemma_next_deadline_after_last(wall, period, offset, l);
        }
    }
}

/// No grid point at or before `now` is after the floor grid point.
proof fn lemma_grid_floor_is_greatest(now: u64, period: u64, offset: u64, x: u64)
    requires
        period > 0,
        now >= offset,
        on_grid(x as int, period as int, offset as int),
        x <= now,
    ensures
        floor_deadline(now, period, offset)->0 >= x,
{
    let p = period as int;
    let a = (x - offset) as int;
    let b = (now - offset) as int;
    vstd::arithmetic::div_mod::lemma_fundamental_div_mod(a, p);
    vstd::arithmetic::div_mod::lemma_fundamental_div_mod(b, p);
    vstd::arithmetic::div_mod::lemma_mod_bound(b, p);
    vstd::arithmetic::div_mod::lemma_div_is_ordered(a, b, p);
    vstd::arithmetic::mul::lemma_mul_inequality(a / p, b / p, p);
    vstd::arithmetic::mul::lemma_mul_is_commutative(p, a / p);
    vstd::arithmetic::mul::lemma_mul_is_commutative(p, b / p);
    assert(a == (a / p) * p);
    assert((b / p) * p <= b);
    assert((b / p) * p + offset <= now);
    assert(floor_deadline(now, period, offset)->0 == (b / p) * p + offset);
}

/// Sleeping as long as `calculate_next_tick` says (plus the timer delay)
/// and then ticking services a task: one whose wake point was the soonest.
/// This holds when the wall clock has not fallen behind the monotonic clock
/// meanwhile, the soonest wake point is below the end of the range, and that
/// task, if anchored, keeps to its grid.
pub proof fn lemma_wakeup_services_a_task<Ctx>(
    tasks: Seq<Task<Ctx>>,
    states: Seq<TaskState>,
    timer_delay: Duration,
    d: Duration,
    now: u64,
    wall: u64,
    now2: u64,
    wall2: u64,
)
    requires
        states.len() == tasks.len(),
        forall|i: int| 0 <= i < tasks.len() ==> schedulable(#[trigger] tasks[i].task_type),
        forall|i: int| 0 <= i < tasks.len() ==> on_its_grid(#[trigger] tasks[i].task_type, states[i]),
        next_tick_is(Some(d), tasks, states, timer_delay, now, wall),
        soonest(tasks, states, now, wall, states.len() as int)->0 < u64::MAX,
        now2 >= now + duration_nanos(d) + duration_nanos(timer_delay),
        wall2 >= wall + (now2 - now),
    ensures
        exists|i: int|
            0 <= i < tasks.len() && !(#[trigger] step(tasks[i].task_type, states[i], now2, wall2).1 is Idle),
{
    let n = states.len() as int;
    let t = soonest(tasks, states, now, wall, n)->0;
    lemma_soonest_is_attained(tasks, states, now, wall, n);
    let i = choose|i: int|
        0 <= i < n && #[trigger] wake_point(tasks[i].task_type, states[i], now, wall) == soonest(
            tasks,
            states,
            now,
            wall,
            n,
        );
    assert(now2 >= t);
    let st = states[i];
    assert(!is_exhausted(st));
    match tasks[i].task_type {
        TaskType::Relative { period, window, schedule } => {
            lemma_relative_due_from_wake_point(period, window, schedule, st, now2, wall2);
        },
        TaskType::Anchored { period, offset, window } => {
            let o = offset_nanos(offset);
            let last = wall_value(st.last_wall_deadline);
            let dl = next_deadline(wall, period, o, last);
            assert(wall2 >= dl);
            lemma_anchored_deadline_reached(wall, wall2, period, o, last);
        },
    }
    assert(!(step(tasks[i].task_type, states[i], now2, wall2).1 is Idle));
}

} // verus!
