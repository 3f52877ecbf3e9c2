//! A single-owner scheduler loop driven by `poll`: tasks are kept with their
//! next deadline, run through callbacks when due, and other threads add
//! tasks through a channel.

use vstd::prelude::*;
use std::time::Duration;
use crossbeam::channel::{Receiver, Sender, SendError, RecvError, TryRecvError};
use crate::duration::{duration_nanos, sat_add};
use crate::system_time::{Clock, MonoInstant, RealClock};
use vstd::std_specs::cmp::PartialEqSpecImpl;

verus! {

/// Unique task identifier with generation counter.
/// High 32 bits: generation. Low 32 bits: arena index.
#[derive(Debug, Clone, Copy, PartialEq, Eq, Structural, Hash)]
pub struct TaskId(u64);

impl TaskId {
    pub closed spec fn value(&self) -> u64 {
        self.0
    }

    /// The identifier `generation * 2^32 + index`; not both may be zero.
    pub fn new(index: u32, generation: u32) -> (id: TaskId)
        requires
            index != 0 || generation != 0,
        ensures
            id.value() == generation * 0x1_0000_0000 + index,
            id.value() != 0,
    {
        TaskId((generation as u64) * 0x1_0000_0000 + (index as u64))
    }

    pub fn index(&self) -> (i: u32)
        ensures
            i == self.value() % 0x1_0000_0000,
    {
        (self.0 % 0x1_0000_0000) as u32
    }

    pub fn generation(&self) -> (g: u32)
        ensures
            g == self.value() / 0x1_0000_0000,
    {
        (self.0 / 0x1_0000_0000) as u32
    }
}

/// An identifier gives back the index and the generation it was made from.
pub proof fn lemma_task_id_round_trip(index: u32, generation: u32, id: TaskId)
    requires
        id.value() == generation * 0x1_0000_0000 + index,
    ensures
        id.value() % 0x1_0000_0000 == index,
        id.value() / 0x1_0000_0000 == generation,
{
    vstd::arithmetic::div_mod::lemma_fundamental_div_mod_converse(
        id.value() as int,
        0x1_0000_0000,
        generation as int,
        index as int,
    );
}

/// The scheduling pattern for a task.
#[derive(Debug, Clone, Copy)]
pub enum TaskType {
    /// Recurring task with a fixed period.
    Periodic {
        /// Time between ideal execution points.
        period: Duration,
        /// Task may execute this much before its ideal time.
        window_before: Duration,
        /// Task may execute this much after its ideal time.
        window_after: Duration,
        /// If true, next deadline is wall-clock aligned (`next_deadline += period`).
        /// If false (interval mode), next deadline is relative to actual fire time
        /// (`next_deadline = now + period`).
        anchored: bool,
    },
}

/// Information provided to a task execution callback.
#[derive(Debug, Clone, Copy)]
pub struct TaskExecution {
    /// The task's unique identifier.
    pub task_id: TaskId,
    /// The deadline the task was due at.
    pub ideal_time: MonoInstant,
    /// When the task was actually executed (polled).
    pub actual_time: MonoInstant,
    /// Drift between ideal and actual execution time.
    pub drift: Duration,
    /// Whether the task was executed after its ideal time.
    pub was_late: bool,
}

/// Information provided to a task miss callback.
#[derive(Debug, Clone, Copy)]
pub struct TaskMiss {
    /// The task's unique identifier.
    pub task_id: TaskId,
    /// The deadline the task was due at.
    pub ideal_time: MonoInstant,
    /// The end of the acceptable execution window that was missed.
    pub window_end: MonoInstant,
    /// How many windows in a row the task has missed.
    pub miss_count: usize,
}

/// Run when a task executes, with the scheduler's context.
pub trait ExecuteCallback<Ctx>: Send + Sync {
    fn call(&self, execution: TaskExecution, ctx: &Ctx);
}

/// Run when a task misses its window, with the scheduler's context.
pub trait MissCallback<Ctx>: Send + Sync {
    fn call(&self, miss: TaskMiss, ctx: &Ctx);
}

/// A task's execution callback, with the executions it has been run for.
#[verifier::reject_recursive_types(Ctx)]
pub struct Executor<Ctx> {
    callback: Box<dyn ExecuteCallback<Ctx>>,
    given: Ghost<Seq<TaskExecution>>,
}

impl<Ctx> Executor<Ctx> {
    /// The executions the callback has been run for, in order.
    pub closed spec fn executions(&self) -> Seq<TaskExecution> {
        self.given@
    }

    /// `callback`, not yet run.
    pub fn new(callback: Box<dyn ExecuteCallback<Ctx>>) -> (e: Self)
        ensures
            e.executions() == Seq::<TaskExecution>::empty(),
    {
        Executor { callback, given: Ghost(Seq::empty()) }
    }

    /// Runs the callback for `execution`.
    pub fn run(&mut self, execution: TaskExecution, ctx: &Ctx)
        ensures
            final(self).executions() == old(self).executions().push(execution),
    {
        self.callback.call(execution, ctx);
        self.given = Ghost(self.given@.push(execution));
    }
}

/// A task's miss callback, with the misses it has been told of.
#[verifier::reject_recursive_types(Ctx)]
pub struct MissHandler<Ctx> {
    callback: Box<dyn MissCallback<Ctx>>,
    told: Ghost<Seq<TaskMiss>>,
}

impl<Ctx> MissHandler<Ctx> {
    /// The misses the callback has been told of, in order.
    pub closed spec fn misses(&self) -> Seq<TaskMiss> {
        self.told@
    }

    /// `callback`, not yet told of any miss.
    pub fn new(callback: Box<dyn MissCallback<Ctx>>) -> (m: Self)
        ensures
            m.misses() == Seq::<TaskMiss>::empty(),
    {
        MissHandler { callback, told: Ghost(Seq::empty()) }
    }

    /// Runs the callback for `miss`.
    pub fn run(&mut self, miss: TaskMiss, ctx: &Ctx)
        ensures
            final(self).misses() == old(self).misses().push(miss),
    {
        self.callback.call(miss, ctx);
        self.told = Ghost(self.told@.push(miss));
    }
}

/// A task as submitted to the loop.
#[verifier::reject_recursive_types(Ctx)]
pub struct TaskConfig<Ctx = ()> {
    pub task_type: TaskType,
    pub priority: u8,
    pub name: Option<String>,
    pub on_execute: Option<Executor<Ctx>>,
    pub on_miss: Option<MissHandler<Ctx>>,
}

impl<Ctx> TaskConfig<Ctx> {
    /// The same task, run by `callback` when it executes.
    pub fn with_executor(self, callback: Executor<Ctx>) -> (c: Self)
        ensures
            c.task_type == self.task_type,
            c.priority == self.priority,
            c.name == self.name,
            c.on_execute == Some(callback),
            c.on_miss == self.on_miss,
    {
        let mut c = self;
        c.on_execute = Some(callback);
        c
    }

    /// The same task, reported to `callback` when it misses its window.
    pub fn with_miss_handler(self, callback: MissHandler<Ctx>) -> (c: Self)
        ensures
            c.task_type == self.task_type,
            c.priority == self.priority,
            c.name == self.name,
            c.on_execute == self.on_execute,
            c.on_miss == Some(callback),
    {
        let mut c = self;
        c.on_miss = Some(callback);
        c
    }
}

/// Why the loop refused a request.
#[derive(Debug, Clone, Copy)]
pub enum SchedulerError {
    /// The period (first) is outside the allowed bounds (second and third).
    PeriodOutOfBounds(Duration, Duration, Duration),
    /// The loop is gone.
    ShutDown,
}

/// A request sent to the loop through its channel.
#[verifier::reject_recursive_types(Ctx)]
pub enum Command<Ctx = ()> {
    AddTask { config: TaskConfig<Ctx>, response: Sender<Result<TaskId, SchedulerError>> },
    Shutdown,
}

impl<Ctx> Command<Ctx> {
    /// The request to add the task `config`, answered through `response`.
    pub fn add_task(config: TaskConfig<Ctx>, response: Sender<Result<TaskId, SchedulerError>>) -> (c:
        Self)
        ensures
            c == (Command::AddTask { config, response }),
    {
        Command::AddTask { config, response }
    }
}

/// What the loop does after carrying out a command: send `result` to the
/// requester through `to`, or stop draining the channel.
pub enum CommandAction {
    Reply { to: Sender<Result<TaskId, SchedulerError>>, result: Result<TaskId, SchedulerError> },
    Stop,
}

#[verifier::external_type_specification]
#[verifier::external_body]
#[verifier::reject_recursive_types(T)]
pub struct ExSender<T>(Sender<T>);

#[verifier::external_type_specification]
#[verifier::external_body]
#[verifier::reject_recursive_types(T)]
pub struct ExReceiver<T>(Receiver<T>);

#[verifier::external_type_specification]
#[verifier::external_body]
#[verifier::reject_recursive_types(T)]
pub struct ExSendError<T>(SendError<T>);

#[verifier::external_type_specification]
#[verifier::external_body]
pub struct ExRecvError(RecvError);

#[verifier::external_type_specification]
#[verifier::external_body]
pub struct ExTryRecvError(TryRecvError);

/// `crossbeam::channel::bounded`: a channel holding at most `cap` messages.
/// It panics only for capacities far larger than the ones asked for here.
#[verifier::external_body]
fn bounded_channel<T>(cap: usize) -> (Sender<T>, Receiver<T>)
    requires
        cap <= 256,
{
    crossbeam::channel::bounded(cap)
}

/// `Sender::send`: queues `msg`, or gives it back when the receiver is gone.
/// Whether it succeeds depends on other threads; nothing is promised of it.
#[verifier::external_body]
fn channel_send<T>(tx: &Sender<T>, msg: T) -> Result<(), SendError<T>> {
    tx.send(msg)
}

/// `Receiver::recv`: waits for the next message, or fails when every sender
/// is gone. What arrives depends on other threads; nothing is promised of it.
#[verifier::external_body]
fn channel_recv<T>(rx: &Receiver<T>) -> Result<T, RecvError> {
    rx.recv()
}

/// `Receiver::try_recv`: the next queued message, if there is one. What it
/// returns depends on other threads; nothing is promised of it.
#[verifier::external_body]
fn channel_try_recv<T>(rx: &Receiver<T>) -> Result<T, TryRecvError> {
    rx.try_recv()
}

/// `Receiver::len`: how many messages are queued at this moment. It depends
/// on other threads; nothing is promised of it.
#[verifier::external_body]
fn channel_len<T>(rx: &Receiver<T>) -> usize {
    rx.len()
}

/// The start of the window around `deadline`: `window_before` earlier, or
/// the deadline itself when that would reach before the clock's origin.
pub open spec fn loop_window_start(deadline: u64, before: Duration) -> u64 {
    if duration_nanos(before) <= deadline {
        (deadline - duration_nanos(before)) as u64
    } else {
        deadline
    }
}

/// The end of the window around `deadline`: `window_after` later, or the
/// deadline itself when that would leave the representable range.
pub open spec fn loop_window_end(deadline: u64, after: Duration) -> u64 {
    if deadline + duration_nanos(after) <= u64::MAX {
        (deadline + duration_nanos(after)) as u64
    } else {
        deadline
    }
}

/// A task as the loop keeps it: its configuration, its next deadline and
/// how many times in a row it has missed its window.
#[verifier::reject_recursive_types(Ctx)]
pub struct ScheduledTask<Ctx = ()> {
    id: TaskId,
    config: TaskConfig<Ctx>,
    next_deadline: MonoInstant,
    miss_count: usize,
}

impl<Ctx> ScheduledTask<Ctx> {
    pub closed spec fn spec_id(&self) -> TaskId {
        self.id
    }

    pub closed spec fn spec_config(&self) -> TaskConfig<Ctx> {
        self.config
    }

    pub closed spec fn spec_deadline(&self) -> u64 {
        self.next_deadline.0
    }

    pub closed spec fn spec_miss_count(&self) -> usize {
        self.miss_count
    }

    pub open spec fn spec_period(&self) -> Duration {
        match self.spec_config().task_type {
            TaskType::Periodic { period, .. } => period,
        }
    }

    pub open spec fn spec_window_start(&self) -> u64 {
        match self.spec_config().task_type {
            TaskType::Periodic { window_before, .. } => loop_window_start(
                self.spec_deadline(),
                window_before,
            ),
        }
    }

    pub open spec fn spec_window_end(&self) -> u64 {
        match self.spec_config().task_type {
            TaskType::Periodic { window_after, .. } => loop_window_end(
                self.spec_deadline(),
                window_after,
            ),
        }
    }

    pub open spec fn spec_anchored(&self) -> bool {
        match self.spec_config().task_type {
            TaskType::Periodic { anchored, .. } => anchored,
        }
    }

    /// The same task with a new deadline and miss count.
    pub closed spec fn with_timing(self, deadline: u64, miss_count: usize) -> Self {
        ScheduledTask { next_deadline: MonoInstant(deadline), miss_count, ..self }
    }

    pub fn window_start(&self) -> (t: MonoInstant)
        ensures
            t.0 == self.spec_window_start(),
    {
        match &self.config.task_type {
            TaskType::Periodic { window_before, .. } => {
                let before = window_before.as_nanos();
                if before <= self.next_deadline.0 as u128 {
                    MonoInstant(self.next_deadline.0 - before as u64)
                } else {
                    self.next_deadline
                }
            },
        }
    }

    pub fn window_end(&self) -> (t: MonoInstant)
        ensures
            t.0 == self.spec_window_end(),
    {
        match &self.config.task_type {
            TaskType::Periodic { window_after, .. } => {
                let after = window_after.as_nanos();
                if after <= (u64::MAX - self.next_deadline.0) as u128 {
                    MonoInstant(self.next_deadline.0 + after as u64)
                } else {
                    self.next_deadline
                }
            },
        }
    }

    pub fn period(&self) -> (p: Duration)
        ensures
            p == self.spec_period(),
    {
        match &self.config.task_type {
            TaskType::Periodic { period, .. } => *period,
        }
    }

    pub fn is_anchored(&self) -> (b: bool)
        ensures
            b == self.spec_anchored(),
    {
        match &self.config.task_type {
            TaskType::Periodic { anchored, .. } => *anchored,
        }
    }

    /// What the task reports to its execution callback when run at `now`:
    /// its deadline, the moment it ran, how far after the deadline that was
    /// (zero when it ran early) and whether it ran late.
    pub fn execution_at(&self, now: MonoInstant) -> (e: TaskExecution)
        ensures
            e.task_id == self.spec_id(),
            e.ideal_time.0 == self.spec_deadline(),
            e.actual_time == now,
            duration_nanos(e.drift) == if now.0 >= self.spec_deadline() {
                now.0 - self.spec_deadline()
            } else {
                0
            },
            e.was_late == (now.0 > self.spec_deadline()),
    {
        let drift = if now.0 >= self.next_deadline.0 {
            Duration::from_nanos(now.0 - self.next_deadline.0)
        } else {
            Duration::from_nanos(0)
        };
        TaskExecution {
            task_id: self.id,
            ideal_time: self.next_deadline,
            actual_time: now,
            drift,
            was_late: now.0 > self.next_deadline.0,
        }
    }

    /// What the task reports to its miss callback: its deadline, the end of
    /// the window it missed and how many windows in a row it has missed.
    pub fn miss_report(&self) -> (m: TaskMiss)
        ensures
            m.task_id == self.spec_id(),
            m.ideal_time.0 == self.spec_deadline(),
            m.window_end.0 == self.spec_window_end(),
            m.miss_count == self.spec_miss_count(),
    {
        TaskMiss {
            task_id: self.id,
            ideal_time: self.next_deadline,
            window_end: self.window_end(),
            miss_count: self.miss_count,
        }
    }
}

/// Two scheduled tasks are equal when they are due at the same moment.
impl<Ctx> PartialEq for ScheduledTask<Ctx> {
    fn eq(&self, other: &Self) -> (r: bool) {
        self.next_deadline.0 == other.next_deadline.0
    }
}

impl<Ctx> PartialEqSpecImpl for ScheduledTask<Ctx> {
    open spec fn obeys_eq_spec() -> bool {
        true
    }

    open spec fn eq_spec(&self, other: &Self) -> bool {
        self.spec_deadline() == other.spec_deadline()
    }
}

impl<Ctx> Eq for ScheduledTask<Ctx> {}

/// Task `a` at position `i` is handled before task `b` at position `j`:
/// earlier deadline first, then lower priority value, then position.
pub open spec fn runs_before<Ctx>(a: ScheduledTask<Ctx>, i: int, b: ScheduledTask<Ctx>, j: int) -> bool {
    ||| a.spec_deadline() < b.spec_deadline()
    ||| a.spec_deadline() == b.spec_deadline() && a.spec_config().priority < b.spec_config().priority
    ||| a.spec_deadline() == b.spec_deadline() && a.spec_config().priority
        == b.spec_config().priority && i < j
}

/// A task is due once `now` has reached the start of its window.
pub open spec fn is_due<Ctx>(t: ScheduledTask<Ctx>, now: u64) -> bool {
    now >= t.spec_window_start()
}

/// A due task after `poll` handled it at `now`: executed (miss count
/// reset) when `now` is within its window, missed (miss count up by one)
/// after it; its next deadline one period after the last one when anchored,
/// else one period after `now`.
pub open spec fn after_handling<Ctx>(t: ScheduledTask<Ctx>, now: u64) -> ScheduledTask<Ctx> {
    let deadline = if t.spec_anchored() {
        sat_add(t.spec_deadline() as int, duration_nanos(t.spec_period()) as int)
    } else {
        sat_add(now as int, duration_nanos(t.spec_period()) as int)
    };
    let misses: usize = if now <= t.spec_window_end() {
        0
    } else if t.spec_miss_count() < usize::MAX {
        (t.spec_miss_count() + 1) as usize
    } else {
        usize::MAX
    };
    t.with_timing(deadline, misses)
}

/// An anchored task keeps its grid: each time it is handled, executed or
/// missed, its next deadline is one period after the last, however late
/// the poll came (while the grid stays within the representable range).
pub proof fn lemma_anchored_task_keeps_grid<Ctx>(t: ScheduledTask<Ctx>, now: u64)
    requires
        t.spec_anchored(),
        t.spec_deadline() + duration_nanos(t.spec_period()) <= u64::MAX,
    ensures
        after_handling(t, now).spec_deadline() == t.spec_deadline() + duration_nanos(t.spec_period()),
        after_handling(t, now).spec_config() == t.spec_config(),
        after_handling(t, now).spec_id() == t.spec_id(),
{
}

/// A task in interval mode starts its next period from the poll that
/// handled it.
pub proof fn lemma_interval_task_restarts_from_now<Ctx>(t: ScheduledTask<Ctx>, now: u64)
    requires
        !t.spec_anchored(),
        now + duration_nanos(t.spec_period()) <= u64::MAX,
    ensures
        after_handling(t, now).spec_deadline() == now + duration_nanos(t.spec_period()),
{
}

/// Executing a task within its window clears its run of misses; handling
/// it after the window adds one miss to the run.
pub proof fn lemma_misses_count_consecutive_windows<Ctx>(t: ScheduledTask<Ctx>, now: u64)
    ensures
        now <= t.spec_window_end() ==> after_handling(t, now).spec_miss_count() == 0,
        now > t.spec_window_end() && t.spec_miss_count() < usize::MAX ==> after_handling(
            t,
            now,
        ).spec_miss_count() == t.spec_miss_count() + 1,
{
}

/// `e` is what task `t` reports to its execution callback when run at `now`.
pub open spec fn is_execution_report<Ctx>(e: TaskExecution, t: ScheduledTask<Ctx>, now: u64) -> bool {
    &&& e.task_id == t.spec_id()
    &&& e.ideal_time.0 == t.spec_deadline()
    &&& e.actual_time.0 == now
    &&& duration_nanos(e.drift) == if now >= t.spec_deadline() {
        now - t.spec_deadline()
    } else {
        0
    }
    &&& e.was_late == (now > t.spec_deadline())
}

/// `m` is what task `t` reports to its miss callback when it has missed
/// `count` windows in a row.
pub open spec fn is_miss_report<Ctx>(m: TaskMiss, t: ScheduledTask<Ctx>, count: usize) -> bool {
    &&& m.task_id == t.spec_id()
    &&& m.ideal_time.0 == t.spec_deadline()
    &&& m.window_end.0 == t.spec_window_end()
    &&& m.miss_count == count
}

/// The execution callback went from `before` to `after` by being run once
/// with task `t`'s report at `now` (and stays absent when there is none).
pub open spec fn ran_execution<Ctx>(
    before: Option<Executor<Ctx>>,
    after: Option<Executor<Ctx>>,
    t: ScheduledTask<Ctx>,
    now: u64,
) -> bool {
    match before {
        None => after is None,
        Some(cb) => after matches Some(cb2) && {
            &&& cb2.executions().len() == cb.executions().len() + 1
            &&& cb2.executions().drop_last() == cb.executions()
            &&& is_execution_report(cb2.executions().last(), t, now)
        },
    }
}

/// The miss callback went from `before` to `after` by being told once of
/// task `t`'s miss, the `count`-th in a row (and stays absent when there is none).
pub open spec fn ran_miss<Ctx>(
    before: Option<MissHandler<Ctx>>,
    after: Option<MissHandler<Ctx>>,
    t: ScheduledTask<Ctx>,
    count: usize,
) -> bool {
    match before {
        None => after is None,
        Some(cb) => after matches Some(cb2) && {
            &&& cb2.misses().len() == cb.misses().len() + 1
            &&& cb2.misses().drop_last() == cb.misses()
            &&& is_miss_report(cb2.misses().last(), t, count)
        },
    }
}

/// `u` is task `t` after a poll at `now` handled it: rescheduled and its
/// miss count updated as `after_handling` says, its identifier and settings
/// kept, and, within its window, its execution callback run with its
/// report; past it, its miss callback told of the miss.
pub open spec fn handled_as<Ctx>(t: ScheduledTask<Ctx>, u: ScheduledTask<Ctx>, now: u64) -> bool {
    let a = after_handling(t, now);
    &&& u.spec_id() == t.spec_id()
    &&& u.spec_deadline() == a.spec_deadline()
    &&& u.spec_miss_count() == a.spec_miss_count()
    &&& u.spec_config().task_type == t.spec_config().task_type
    &&& u.spec_config().priority == t.spec_config().priority
    &&& u.spec_config().name == t.spec_config().name
    &&& if now <= t.spec_window_end() {
        &&& ran_execution(t.spec_config().on_execute, u.spec_config().on_execute, t, now)
        &&& u.spec_config().on_miss == t.spec_config().on_miss
    } else {
        &&& u.spec_config().on_execute == t.spec_config().on_execute
        &&& ran_miss(t.spec_config().on_miss, u.spec_config().on_miss, t, a.spec_miss_count())
    }
}

/// A scheduled task's window runs from `window_before` before its deadline
/// (the deadline itself, should that reach before the clock's origin) to
/// `window_after` after it (the deadline itself past the range).
pub proof fn lemma_window_bounds<Ctx>(t: ScheduledTask<Ctx>)
    ensures
        ({
            let d = t.spec_deadline() as int;
            match t.spec_config().task_type {
                TaskType::Periodic { window_before, window_after, .. } => {
                    &&& t.spec_window_start() == if duration_nanos(window_before) <= d {
                        d - duration_nanos(window_before)
                    } else {
                        d
                    }
                    &&& t.spec_window_end() == if d + duration_nanos(window_after) <= u64::MAX {
                        d + duration_nanos(window_after)
                    } else {
                        d
                    }
                },
            }
        }),
{
}

/// A poll at `now` executes, and does not miss, a task whose deadline is
/// at most `window_after` before `now` (with the window's end within the
/// representable range), whatever its `window_before`: its
/// run of misses is cleared, its miss handler is not told, and its
/// executor (if any) is run once with its report.
pub proof fn lemma_executed_up_to_window_after<Ctx>(
    t: ScheduledTask<Ctx>,
    u: ScheduledTask<Ctx>,
    now: u64,
)
    requires
        handled_as(t, u, now),
        match t.spec_config().task_type {
            TaskType::Periodic { window_after, .. } => now <= t.spec_deadline() + duration_nanos(
                window_after,
            ) <= u64::MAX,
        },
    ensures
        u.spec_miss_count() == 0,
        u.spec_config().on_miss == t.spec_config().on_miss,
        ran_execution(t.spec_config().on_execute, u.spec_config().on_execute, t, now),
{
    lemma_window_bounds(t);
}

/// A poll at `now` misses a task whose deadline plus `window_after` is
/// before `now` (within the representable range): its executor is not run
/// and its miss handler is told of one more miss in a row.
pub proof fn lemma_missed_after_window_after<Ctx>(
    t: ScheduledTask<Ctx>,
    u: ScheduledTask<Ctx>,
    now: u64,
)
    requires
        handled_as(t, u, now),
        match t.spec_config().task_type {
            TaskType::Periodic { window_after, .. } => t.spec_deadline() + duration_nanos(
                window_after,
            ) < now,
        },
    ensures
        u.spec_config().on_execute == t.spec_config().on_execute,
        t.spec_miss_count() < usize::MAX ==> u.spec_miss_count() == t.spec_miss_count() + 1,
{
    lemma_window_bounds(t);
}

/// `handled[i]` marks the tasks one poll at `now` handles: the longest run
/// of due tasks in handling order.
pub open spec fn handled_prefix<Ctx>(tasks: Seq<ScheduledTask<Ctx>>, now: u64, handled: Seq<bool>) -> bool {
    &&& handled.len() == tasks.len()
    &&& forall|i: int| 0 <= i < tasks.len() && handled[i] ==> is_due(tasks[i], now)
    &&& (forall|i: int| 0 <= i < tasks.len() ==> handled[i]) || exists|m: int|
        {
            &&& 0 <= m < tasks.len()
            &&& !handled[m]
            &&& !is_due(tasks[m], now)
            &&& forall|i: int|
                0 <= i < tasks.len() && handled[i] ==> runs_before(tasks[i], i, tasks[m], m)
            &&& forall|u: int|
                0 <= u < tasks.len() && !handled[u] && u != m ==> runs_before(
                    tasks[m],
                    m,
                    tasks[u],
                    u,
                )
        }
}

/// `k` is the task handled first among `tasks`.
pub open spec fn is_first<Ctx>(tasks: Seq<ScheduledTask<Ctx>>, k: int) -> bool {
    &&& 0 <= k < tasks.len()
    &&& forall|j: int| 0 <= j < tasks.len() && j != k ==> runs_before(tasks[k], k, tasks[j], j)
}

/// How long `poll` says to sleep: until the first task's deadline less the
/// sleep compensation (never before that task's window opens), or
/// `max_period` when there is no task.
pub open spec fn idle_is<Ctx>(
    r: Duration,
    tasks: Seq<ScheduledTask<Ctx>>,
    now: u64,
    compensation: Duration,
    max_period: Duration,
) -> bool {
    if tasks.len() == 0 {
        r == max_period
    } else {
        exists|k: int|
            #![trigger tasks[k]]
            is_first(tasks, k) && {
                let d = tasks[k].spec_deadline();
                let compensated = if duration_nanos(compensation) <= d {
                    d - duration_nanos(compensation)
                } else {
                    d as int
                };
                let wake = if compensated >= tasks[k].spec_window_start() {
                    compensated
                } else {
                    tasks[k].spec_window_start() as int
                };
                duration_nanos(r) == sat_add(wake, -now)
            }
    }
}

/// After handling, a poll never asks to sleep past the deadline of the
/// task handled first next, nor to wake before its window opens (in
/// nanoseconds from `now`, never below zero); without sleep compensation it
/// sleeps exactly until that deadline.
pub proof fn lemma_idle_bounds<Ctx>(
    r: Duration,
    tasks: Seq<ScheduledTask<Ctx>>,
    now: u64,
    compensation: Duration,
    max_period: Duration,
)
    requires
        idle_is(r, tasks, now, compensation, max_period),
        tasks.len() > 0,
    ensures
        exists|k: int|
            #![trigger tasks[k]]
            is_first(tasks, k) && {
                let d = tasks[k].spec_deadline() as int;
                let ws = tasks[k].spec_window_start() as int;
                &&& duration_nanos(r) <= if d > now { d - now } else { 0 }
                &&& duration_nanos(r) >= if ws > now { ws - now } else { 0 }
                &&& duration_nanos(compensation) == 0 ==> duration_nanos(r) == if d > now {
                    d - now
                } else {
                    0
                }
            },
{
    let k = choose|k: int|
        #![trigger tasks[k]]
        is_first(tasks, k) && {
            let d = tasks[k].spec_deadline();
            let compensated = if duration_nanos(compensation) <= d {
                d - duration_nanos(compensation)
            } else {
                d as int
            };
            let wake = if compensated >= tasks[k].spec_window_start() {
                compensated
            } else {
                tasks[k].spec_window_start() as int
            };
            duration_nanos(r) == sat_add(wake, -now)
        };
    lemma_window_bounds(tasks[k]);
    assert(is_first(tasks, k));
}

/// The number of unset flags.
pub open spec fn count_unset(s: Seq<bool>) -> nat
    decreases s.len(),
{
    if s.len() == 0 {
        0
    } else {
        count_unset(s.drop_last()) + if s.last() { 0nat } else { 1nat }
    }
}

proof fn lemma_count_unset_set(s: Seq<bool>, b: int)
    requires
        0 <= b < s.len(),
        !s[b],
    ensures
        count_unset(s.update(b, true)) + 1 == count_unset(s),
    decreases s.len(),
{
    if b < s.len() - 1 {
        assert(s.update(b, true).drop_last() =~= s.drop_last().update(b, true));
        lemma_count_unset_set(s.drop_last(), b);
    } else {
        assert(s.update(b, true).drop_last() =~= s.drop_last());
    }
}

/// Single-owner scheduler loop. Processes commands and computes plans.
#[verifier::reject_recursive_types(Ctx)]
pub struct SchedulerLoop<Ctx = ()> {
    cmd_rx: Option<Receiver<Command<Ctx>>>,
    tasks: Vec<ScheduledTask<Ctx>>,
    next_task_id: u32,
    next_generation: u32,
    min_period: Duration,
    max_period: Duration,
    sleep_compensation: Duration,
    context: Ctx,
    clock: RealClock,
}

impl<Ctx> SchedulerLoop<Ctx> {
    pub closed spec fn spec_tasks(&self) -> Seq<ScheduledTask<Ctx>> {
        self.tasks@
    }

    pub closed spec fn spec_next_task_id(&self) -> u32 {
        self.next_task_id
    }

    pub closed spec fn spec_next_generation(&self) -> u32 {
        self.next_generation
    }

    pub closed spec fn spec_min_period(&self) -> Duration {
        self.min_period
    }

    pub closed spec fn spec_max_period(&self) -> Duration {
        self.max_period
    }

    pub closed spec fn spec_sleep_compensation(&self) -> Duration {
        self.sleep_compensation
    }

    pub closed spec fn spec_cmd_rx(&self) -> Option<Receiver<Command<Ctx>>> {
        self.cmd_rx
    }

    pub closed spec fn has_channel(&self) -> bool {
        self.cmd_rx is Some
    }

    /// The generation of new identifiers is never zero.
    pub open spec fn wf(&self) -> bool {
        self.spec_next_generation() != 0
    }

    /// The limits and the generation of identifiers are unchanged from `other`.
    pub open spec fn same_limits(&self, other: &Self) -> bool {
        &&& self.spec_next_generation() == other.spec_next_generation()
        &&& self.spec_min_period() == other.spec_min_period()
        &&& self.spec_max_period() == other.spec_max_period()
        &&& self.spec_sleep_compensation() == other.spec_sleep_compensation()
    }

    /// The settings are unchanged from `other`.
    pub open spec fn same_settings(&self, other: &Self) -> bool {
        &&& self.spec_next_generation() == other.spec_next_generation()
        &&& self.spec_min_period() == other.spec_min_period()
        &&& self.spec_max_period() == other.spec_max_period()
        &&& self.spec_sleep_compensation() == other.spec_sleep_compensation()
        &&& self.has_channel() == other.has_channel()
    }

    /// Drain pending commands, advance time, and return how long to sleep.
    ///
    /// Tasks are executed via their callbacks during this call, with access to the context.
    ///
    /// Each `AddTask` received is carried out by `handle_command` at the
    /// clock's reading on receipt and answered through its channel;
    /// `Shutdown`, or an empty channel, ends the draining. Then the due
    /// tasks are handled as `poll_at` does.
    pub fn poll(&mut self) -> (idle: Duration)
        requires
            old(self).wf(),
        ensures
            final(self).wf(),
            final(self).same_settings(old(self)),
            exists|
                steps: Seq<SchedulerLoop<Ctx>>,
                configs: Seq<TaskConfig<Ctx>>,
                nows: Seq<u64>,
                results: Seq<Result<TaskId, SchedulerError>>,
                now: u64,
                handled: Seq<bool>,
            |
                #![trigger drained(old(self), steps, configs, nows, results), handled_prefix(steps.last().spec_tasks(), now, handled)]
                {
                    &&& drained(old(self), steps, configs, nows, results)
                    &&& !old(self).has_channel() ==> configs.len() == 0
                    &&& handled_prefix(steps.last().spec_tasks(), now, handled)
                    &&& final(self).spec_tasks().len() == handled.len()
                    &&& forall|i: int|
                        #![trigger final(self).spec_tasks()[i]]
                        0 <= i < handled.len() ==> if handled[i] {
                            handled_as(steps.last().spec_tasks()[i], final(self).spec_tasks()[i], now)
                        } else {
                            final(self).spec_tasks()[i] == steps.last().spec_tasks()[i]
                        }
                    &&& final(self).spec_next_task_id() == steps.last().spec_next_task_id()
                    &&& idle_is(
                        idle,
                        final(self).spec_tasks(),
                        now,
                        old(self).spec_sleep_compensation(),
                        old(self).spec_max_period(),
                    )
                },
    {
        // Process all pending commands
        let rx_slot = self.cmd_rx.take();
        let ghost mut steps: Seq<SchedulerLoop<Ctx>> = seq![*self];
        let ghost mut configs: Seq<TaskConfig<Ctx>> = Seq::empty();
        let ghost mut nows: Seq<u64> = Seq::empty();
        let ghost mut results: Seq<Result<TaskId, SchedulerError>> = Seq::empty();
        if let Some(rx) = &rx_slot {
            let pending = channel_len(rx);
            let mut k: usize = 0;
            while k < pending
                invariant
                    self.wf(),
                    self.cmd_rx is None,
                    self.same_limits(old(self)),
                    drained(old(self), steps, configs, nows, results),
                    steps.last() == *self,
                decreases pending - k,
            {
                match channel_try_recv(rx) {
                    Ok(cmd) => {
                        let now = self.clock.monotonic_now();
                        let ghost c = cmd;
                        let ghost pre = *self;
                        let action = self.handle_command(cmd, now);
                        match action {
                            CommandAction::Reply { to, result } => {
                                proof {
                                    let n = configs.len();
                                    let s0 = steps;
                                    let c0 = configs;
                                    let n0 = nows;
                                    let r0 = results;
                                    assert(drained(old(self), s0, c0, n0, r0));
                                    assert(added_task(&pre, &*self, c->config, now.0, result));
                                    steps = steps.push(*self);
                                    configs = configs.push(c->config);
                                    nows = nows.push(now.0);
                                    results = results.push(result);
                                    assert(steps[n as int] == pre);
                                    assert forall|i: int| 0 <= i < configs.len() implies {
                                        &&& #[trigger] added_task(&steps[i], &steps[i + 1], configs[i], nows[i], results[i])
                                        &&& steps[i + 1].same_limits(&steps[i])
                                    } by {
                                        if i < n {
                                            assert(steps[i] == s0[i]);
                                            assert(steps[i + 1] == s0[i + 1]);
                                            assert(configs[i] == c0[i]);
                                            assert(nows[i] == n0[i]);
                                            assert(results[i] == r0[i]);
                                            assert(added_task(&s0[i], &s0[i + 1], c0[i], n0[i], r0[i]));
                                        } else {
                                            assert(steps[i + 1] == *self);
                                            assert(configs[i] == c->config);
                                        }
                                    }
                                    assert(steps[0] == s0[0]);
                                }
                                let _ = channel_send(&to, result);
                            },
                            CommandAction::Stop => {
                                break;
                            },
                        }
                    },
                    Err(_) => {
                        break;
                    },
                }
                k += 1;
            }
        }
        self.cmd_rx = rx_slot;
        let ghost drained_tasks = steps.last().spec_tasks();
        let now = self.clock.monotonic_now();
        let idle = self.poll_at(now);
        proof {
            let h = choose|h: Seq<bool>|
                {
                    &&& #[trigger] handled_prefix(drained_tasks, now.0, h)
                    &&& self.spec_tasks().len() == h.len()
                    &&& forall|i: int|
                        #![trigger self.spec_tasks()[i]]
                        0 <= i < h.len() ==> if h[i] {
                            handled_as(drained_tasks[i], self.spec_tasks()[i], now.0)
                        } else {
                            self.spec_tasks()[i] == drained_tasks[i]
                        }
                };
            assert(drained(old(self), steps, configs, nows, results));
            assert(handled_prefix(steps.last().spec_tasks(), now.0, h));
        }
        idle
    }

    /// Carries out one command received at `now`: `AddTask` adds the task as
    /// `add_task_at` does and gives back its answer, with the channel to send
    /// it through; `Shutdown` changes nothing and tells `poll` to stop.
    pub fn handle_command(&mut self, cmd: Command<Ctx>, now: MonoInstant) -> (r: CommandAction)
        requires
            old(self).wf(),
        ensures
            final(self).wf(),
            final(self).same_settings(old(self)),
            final(self).spec_cmd_rx() == old(self).spec_cmd_rx(),
            match cmd {
                Command::AddTask { config, response } => r matches CommandAction::Reply { to, result }
                    && to == response && added_task(old(self), final(self), config, now.0, result),
                Command::Shutdown => r is Stop && *final(self) == *old(self),
            },
    {
        match cmd {
            Command::AddTask { config, response } => {
                let result = self.add_task_at(config, now);
                CommandAction::Reply { to: response, result }
            },
            Command::Shutdown => CommandAction::Stop,
        }
    }

    /// `poll` as if the clock read `now` and no command were pending: every
    /// task in the longest run of due tasks (in handling order) is handled
    /// once, its callback run, and the time to sleep is returned.
    pub fn poll_at(&mut self, now: MonoInstant) -> (idle: Duration)
        ensures
            final(self).same_settings(old(self)),
            final(self).spec_next_task_id() == old(self).spec_next_task_id(),
            exists|handled: Seq<bool>|
                {
                    &&& #[trigger] handled_prefix(old(self).spec_tasks(), now.0, handled)
                    &&& final(self).spec_tasks().len() == handled.len()
                    &&& forall|i: int|
                        #![trigger final(self).spec_tasks()[i]]
                        0 <= i < handled.len() ==> if handled[i] {
                            handled_as(old(self).spec_tasks()[i], final(self).spec_tasks()[i], now.0)
                        } else {
                            final(self).spec_tasks()[i] == old(self).spec_tasks()[i]
                        }
                },
            idle_is(
                idle,
                final(self).spec_tasks(),
                now.0,
                old(self).spec_sleep_compensation(),
                old(self).spec_max_period(),
            ),
    {
        let ghost start = self.tasks@;
        let n = self.tasks.len();
        let mut done: Vec<bool> = Vec::new();
        let mut z: usize = 0;
        while z < n
            invariant
                z <= n,
                done@.len() == z,
                forall|i: int| 0 <= i < z ==> !done@[i],
            decreases n - z,
        {
            done.push(false);
            z += 1;
        }
        loop
            invariant
                n == start.len(),
                self.tasks@.len() == n,
                done@.len() == n,
                self.next_generation == old(self).next_generation,
                self.next_task_id == old(self).next_task_id,
                self.min_period == old(self).min_period,
                self.max_period == old(self).max_period,
                self.sleep_compensation == old(self).sleep_compensation,
                self.cmd_rx == old(self).cmd_rx,
                forall|i: int|
                    #![trigger self.tasks@[i]]
                    0 <= i < n ==> if done@[i] {
                        handled_as(start[i], self.tasks@[i], now.0)
                    } else {
                        self.tasks@[i] == start[i]
                    },
                forall|i: int| 0 <= i < n && done@[i] ==> is_due(start[i], now.0),
                forall|i: int, u: int|
                    0 <= i < n && 0 <= u < n && done@[i] && !done@[u] ==> runs_before(
                        start[i],
                        i,
                        start[u],
                        u,
                    ),
            ensures
                self.tasks@.len() == n,
                handled_prefix(start, now.0, done@),
                forall|i: int|
                    #![trigger self.tasks@[i]]
                    0 <= i < n ==> if done@[i] {
                        handled_as(start[i], self.tasks@[i], now.0)
                    } else {
                        self.tasks@[i] == start[i]
                    },
                self.next_generation == old(self).next_generation,
                self.next_task_id == old(self).next_task_id,
                self.min_period == old(self).min_period,
                self.max_period == old(self).max_period,
                self.sleep_compensation == old(self).sleep_compensation,
                self.cmd_rx == old(self).cmd_rx,
            decreases count_unset(done@),
        {
            // Find the first task in handling order among those not yet handled.
            let mut best: usize = n;
            let mut i: usize = 0;
            while i < n
                invariant
                    n == start.len(),
                    self.tasks@.len() == n,
                    done@.len() == n,
                    i <= n,
                    best == n || (best < i && !done@[best as int]),
                    forall|j: int| 0 <= j < i && !done@[j] ==> (best < n && (j == best || runs_before(start[best as int], best as int, start[j], j))),
                    best == n ==> forall|j: int| 0 <= j < i ==> done@[j],
                    forall|k: int|
                        #![trigger self.tasks@[k]]
                        0 <= k < n ==> if done@[k] {
                            handled_as(start[k], self.tasks@[k], now.0)
                        } else {
                            self.tasks@[k] == start[k]
                        },
                decreases n - i,
            {
                if !done[i] {
                    if best == n {
                        best = i;
                    } else {
                        let a = &self.tasks[i];
                        let b = &self.tasks[best];
                        if a.next_deadline.0 < b.next_deadline.0 || (a.next_deadline.0 == b.next_deadline.0 && a.config.priority < b.config.priority) {
                            best = i;
                        }
                    }
                }
                i += 1;
            }
            if best == n {
                break;
            }
            let ws = self.tasks[best].window_start();
            if now.0 < ws.0 {
                break;
            }
            let ghost tasks_before = self.tasks@;
            let mut task = self.tasks.remove(best);
            let ghost orig = task;
            assert(orig == start[best as int]);
            let window_end = task.window_end();
            if now.0 <= window_end.0 {
                // Task is due (within its window)
                let execution = task.execution_at(now);
                if let Some(callback) = &mut task.config.on_execute {
                    callback.run(execution, &self.context);
                }
                proof {
                    if let Some(cb) = orig.config.on_execute {
                        let cb2 = task.config.on_execute->0;
                        assert(cb2.executions().drop_last() =~= cb.executions());
                        assert(is_execution_report(cb2.executions().last(), orig, now.0));
                    }
                }
                task.miss_count = 0;
            } else {
                // Task missed its window
                task.miss_count = if task.miss_count < usize::MAX {
                    task.miss_count + 1
                } else {
                    usize::MAX
                };
                let miss = task.miss_report();
                assert(is_miss_report(miss, orig, task.miss_count));
                if let Some(on_miss) = &mut task.config.on_miss {
                    on_miss.run(miss, &self.context);
                }
                proof {
                    if let Some(cb) = orig.config.on_miss {
                        let cb2 = task.config.on_miss->0;
                        assert(cb2.misses().drop_last() =~= cb.misses());
                    }
                }
            }
            // Reschedule to the next period
            let period = task.period();
            if task.is_anchored() {
                task.next_deadline = task.next_deadline.saturating_add(period);
            } else {
                task.next_deadline = now.saturating_add(period);
            }
            assert(handled_as(orig, task, now.0));
            let ghost handled_task = task;
            self.tasks.insert(best, task);
            proof {
                assert(self.tasks@ =~= tasks_before.update(best as int, handled_task));
                lemma_count_unset_set(done@, best as int);
            }
            done.set(best, true);
        }
        let idle = self.idle_after(now);
        assert(handled_prefix(old(self).spec_tasks(), now.0, done@));
        idle
    }

    /// How long to sleep after handling: until the first task's window
    /// opens, aiming `sleep_compensation` before its deadline.
    fn idle_after(&self, now: MonoInstant) -> (idle: Duration)
        ensures
            idle_is(idle, self.spec_tasks(), now.0, self.spec_sleep_compensation(), self.spec_max_period()),
    {
        let n = self.tasks.len();
        if n == 0 {
            // When no tasks are scheduled, sleep for max_period
            return self.max_period;
        }
        let mut best: usize = 0;
        let mut i: usize = 1;
        while i < n
            invariant
                n == self.tasks@.len(),
                1 <= i <= n,
                best < i,
                forall|j: int| 0 <= j < i && j != best ==> runs_before(self.tasks@[best as int], best as int, self.tasks@[j], j),
            decreases n - i,
        {
            let a = &self.tasks[i];
            let b = &self.tasks[best];
            if a.next_deadline.0 < b.next_deadline.0 || (a.next_deadline.0 == b.next_deadline.0 && a.config.priority < b.config.priority) {
                best = i;
            }
            i += 1;
        }
        let next_task = &self.tasks[best];
        let d = next_task.next_deadline.0;
        let comp = self.sleep_compensation.as_nanos();
        let compensated: u64 = if comp <= d as u128 { d - comp as u64 } else { d };
        let ws = next_task.window_start().0;
        let next_wakeup = if compensated >= ws { compensated } else { ws };
        let gap = if next_wakeup >= now.0 { next_wakeup - now.0 } else { 0 };
        let idle = Duration::from_nanos(gap);
        proof {
            assert(is_first(self.spec_tasks(), best as int));
        }
        idle
    }

    /// Add a task directly to the scheduler without going through the channel.
    ///
    /// This method is for single-threaded usage where the scheduler and task creation
    /// are on the same thread. It does not require the context to be Send + Sync.
    pub fn add_task_local(&mut self, config: TaskConfig<Ctx>) -> (r: Result<TaskId, SchedulerError>)
        requires
            old(self).wf(),
        ensures
            final(self).wf(),
            final(self).same_settings(old(self)),
            exists|now: u64| #[trigger] added_task(old(self), final(self), config, now, r),
    {
        self.add_task_internal(config)
    }

    fn add_task_internal(&mut self, config: TaskConfig<Ctx>) -> (r: Result<TaskId, SchedulerError>)
        requires
            old(self).wf(),
        ensures
            final(self).wf(),
            final(self).same_settings(old(self)),
            final(self).spec_cmd_rx() == old(self).spec_cmd_rx(),
            exists|now: u64| #[trigger] added_task(old(self), final(self), config, now, r),
    {
        let now = self.clock.monotonic_now();
        let r = self.add_task_at(config, now);
        assert(added_task(old(self), final(self), config, now.0, r));
        r
    }

    /// `add_task_local` as if the clock read `now`. The identifier is used
    /// up even when the period is out of bounds.
    pub fn add_task_at(&mut self, config: TaskConfig<Ctx>, now: MonoInstant) -> (r: Result<TaskId, SchedulerError>)
        requires
            old(self).wf(),
        ensures
            final(self).wf(),
            final(self).same_settings(old(self)),
            final(self).spec_cmd_rx() == old(self).spec_cmd_rx(),
            added_task(old(self), final(self), config, now.0, r),
    {
        let id = TaskId::new(self.next_task_id, self.next_generation);
        self.next_task_id = self.next_task_id.wrapping_add(1);
        let next_deadline = match &config.task_type {
            TaskType::Periodic { period, .. } => {
                if period.as_nanos() < self.min_period.as_nanos() {
                    return Err(SchedulerError::PeriodOutOfBounds(*period, self.min_period, self.max_period));
                }
                if period.as_nanos() > self.max_period.as_nanos() {
                    return Err(SchedulerError::PeriodOutOfBounds(*period, self.min_period, self.max_period));
                }
                now.saturating_add(*period)
            },
        };
        let task = ScheduledTask { id, config, next_deadline, miss_count: 0 };
        self.tasks.push(task);
        assert(self.tasks@.drop_last() =~= old(self).tasks@);
        Ok(id)
    }
}

/// The commands `poll` carried out, in the order received: `steps[0]` is
/// the loop as the poll found it, and the `i`-th command added `configs[i]`
/// at `nows[i]` as `add_task_at` does, answered `results[i]` and led to
/// `steps[i + 1]`.
pub open spec fn drained<Ctx>(
    start: &SchedulerLoop<Ctx>,
    steps: Seq<SchedulerLoop<Ctx>>,
    configs: Seq<TaskConfig<Ctx>>,
    nows: Seq<u64>,
    results: Seq<Result<TaskId, SchedulerError>>,
) -> bool {
    &&& steps.len() == configs.len() + 1
    &&& nows.len() == configs.len()
    &&& results.len() == configs.len()
    &&& steps[0].spec_tasks() == start.spec_tasks()
    &&& steps[0].spec_next_task_id() == start.spec_next_task_id()
    &&& steps[0].same_limits(start)
    &&& forall|i: int|
        0 <= i < configs.len() ==> {
            &&& #[trigger] added_task(&steps[i], &steps[i + 1], configs[i], nows[i], results[i])
            &&& steps[i + 1].same_limits(&steps[i])
        }
}

/// One task added at `now`: the identifier is made from the old counters
/// and the counter moves on; a period outside `[min_period, max_period]`
/// is refused, else the task is appended, due one period after `now`.
pub open spec fn added_task<Ctx>(
    before: &SchedulerLoop<Ctx>,
    after: &SchedulerLoop<Ctx>,
    config: TaskConfig<Ctx>,
    now: u64,
    r: Result<TaskId, SchedulerError>,
) -> bool {
    let period = match config.task_type {
        TaskType::Periodic { period, .. } => period,
    };
    let id_value = before.spec_next_generation() * 0x1_0000_0000 + before.spec_next_task_id();
    &&& after.spec_next_task_id() == (if before.spec_next_task_id() == u32::MAX {
        0
    } else {
        before.spec_next_task_id() + 1
    })
    &&& if duration_nanos(period) < duration_nanos(before.spec_min_period()) || duration_nanos(period)
        > duration_nanos(before.spec_max_period()) {
        &&& r matches Err(SchedulerError::PeriodOutOfBounds(p, lo, hi))
        &&& p == period
        &&& lo == before.spec_min_period()
        &&& hi == before.spec_max_period()
        &&& after.spec_tasks() == before.spec_tasks()
    } else {
        &&& r matches Ok(id)
        &&& id.value() == id_value
        &&& after.spec_tasks().len() == before.spec_tasks().len() + 1
        &&& after.spec_tasks().drop_last() == before.spec_tasks()
        &&& after.spec_tasks().last().spec_id() == id
        &&& after.spec_tasks().last().spec_config() == config
        &&& after.spec_tasks().last().spec_deadline() == sat_add(now as int, duration_nanos(period) as int)
        &&& after.spec_tasks().last().spec_miss_count() == 0
    }
}

/// Cloneable handle for submitting commands to the scheduler loop from
/// other threads.
#[verifier::reject_recursive_types(Ctx)]
pub struct SchedulerHandle<Ctx = ()> {
    cmd_tx: Sender<Command<Ctx>>,
}

/// `Sender::clone`: another sender for the same channel.
#[verifier::external_body]
fn sender_clone<T>(tx: &Sender<T>) -> Sender<T> {
    tx.clone()
}

impl<Ctx> Clone for SchedulerHandle<Ctx> {
    fn clone(&self) -> Self {
        SchedulerHandle { cmd_tx: sender_clone(&self.cmd_tx) }
    }
}

impl<Ctx: Send + Sync + 'static> SchedulerHandle<Ctx> {
    /// Add a new task from any thread. Returns a TaskId for future reference.
    ///
    /// The request sent is `Command::add_task(config, ..)` with a fresh
    /// reply channel; the loop answers it on its next `poll`, as
    /// `handle_command` states. `ShutDown` when the loop is gone.
    pub fn add_task(&self, config: TaskConfig<Ctx>) -> Result<TaskId, SchedulerError> {
        let (response_tx, response_rx) = bounded_channel(1);
        let request = Command::add_task(config, response_tx);
        match channel_send(&self.cmd_tx, request) {
            Err(_) => {
                return Err(SchedulerError::ShutDown);
            },
            Ok(()) => {},
        }
        match channel_recv(&response_rx) {
            Err(_) => Err(SchedulerError::ShutDown),
            Ok(result) => result,
        }
    }

    /// Initiate graceful shutdown.
    pub fn shutdown(&self) {
        let _ = channel_send(&self.cmd_tx, Command::Shutdown);
    }
}

/// Settings for a scheduler loop, and the context its callbacks receive.
pub struct SchedulerBuilder<Ctx = ()> {
    min_period: Duration,
    max_period: Duration,
    sleep_compensation: Duration,
    context: Ctx,
}

impl<Ctx> SchedulerBuilder<Ctx> {
    pub closed spec fn spec_min_period(&self) -> Duration {
        self.min_period
    }

    pub closed spec fn spec_max_period(&self) -> Duration {
        self.max_period
    }

    pub closed spec fn spec_sleep_compensation(&self) -> Duration {
        self.sleep_compensation
    }

    pub closed spec fn spec_context(&self) -> Ctx {
        self.context
    }
}

impl Default for SchedulerBuilder<()> {
    fn default() -> (b: Self)
        ensures
            duration_nanos(b.spec_min_period()) == 1_000_000,
            duration_nanos(b.spec_max_period()) == 3_600_000_000_000,
            duration_nanos(b.spec_sleep_compensation()) == 0,
    {
        Self::new()
    }
}

impl SchedulerBuilder<()> {
    /// Create a new scheduler builder with default settings and unit context:
    /// periods from 1 ms to one hour, no sleep compensation.
    pub fn new() -> (b: Self)
        ensures
            duration_nanos(b.spec_min_period()) == 1_000_000,
            duration_nanos(b.spec_max_period()) == 3_600_000_000_000,
            duration_nanos(b.spec_sleep_compensation()) == 0,
    {
        SchedulerBuilder {
            min_period: Duration::from_millis(1),
            max_period: Duration::from_secs(3600),
            sleep_compensation: Duration::from_nanos(0),
            context: (),
        }
    }
}

impl<Ctx> SchedulerBuilder<Ctx> {
    /// Set the minimum allowed task period.
    pub fn min_period(self, period: Duration) -> (b: Self)
        ensures
            b.spec_min_period() == period,
            b.spec_max_period() == self.spec_max_period(),
            b.spec_sleep_compensation() == self.spec_sleep_compensation(),
            b.spec_context() == self.spec_context(),
    {
        let mut b = self;
        b.min_period = period;
        b
    }

    /// Set the maximum allowed task period.
    pub fn max_period(self, period: Duration) -> (b: Self)
        ensures
            b.spec_min_period() == self.spec_min_period(),
            b.spec_max_period() == period,
            b.spec_sleep_compensation() == self.spec_sleep_compensation(),
            b.spec_context() == self.spec_context(),
    {
        let mut b = self;
        b.max_period = period;
        b
    }

    /// Set sleep compensation to account for OS/runtime sleep overshoot.
    ///
    /// The scheduler will request wakeups this much earlier than the ideal
    /// deadline, so that the actual wakeup (after OS overshoot) lands closer
    /// to the target time.
    pub fn sleep_compensation(self, duration: Duration) -> (b: Self)
        ensures
            b.spec_min_period() == self.spec_min_period(),
            b.spec_max_period() == self.spec_max_period(),
            b.spec_sleep_compensation() == duration,
            b.spec_context() == self.spec_context(),
    {
        let mut b = self;
        b.sleep_compensation = duration;
        b
    }

    /// Provide a custom context that will be passed to all task callbacks.
    pub fn with_context<NewCtx>(self, context: NewCtx) -> (b: SchedulerBuilder<NewCtx>)
        ensures
            b.spec_min_period() == self.spec_min_period(),
            b.spec_max_period() == self.spec_max_period(),
            b.spec_sleep_compensation() == self.spec_sleep_compensation(),
            b.spec_context() == context,
    {
        SchedulerBuilder {
            min_period: self.min_period,
            max_period: self.max_period,
            sleep_compensation: self.sleep_compensation,
            context,
        }
    }

    /// The loop these settings describe, with no task yet.
    fn make_loop(self, cmd_rx: Option<Receiver<Command<Ctx>>>) -> (l: SchedulerLoop<Ctx>)
        ensures
            l.wf(),
            l.spec_tasks().len() == 0,
            l.spec_next_task_id() == 0,
            l.spec_next_generation() == 1,
            l.spec_min_period() == self.spec_min_period(),
            l.spec_max_period() == self.spec_max_period(),
            l.spec_sleep_compensation() == self.spec_sleep_compensation(),
            l.spec_cmd_rx() == cmd_rx,
    {
        SchedulerLoop {
            cmd_rx,
            tasks: Vec::new(),
            next_task_id: 0,
            next_generation: 1,
            min_period: self.min_period,
            max_period: self.max_period,
            sleep_compensation: self.sleep_compensation,
            context: self.context,
            clock: RealClock::new(),
        }
    }

    /// Build the scheduler for multi-threaded use: a handle that can be
    /// cloned and sent across threads, and the loop that runs the tasks.
    pub fn build(self) -> (r: (SchedulerHandle<Ctx>, SchedulerLoop<Ctx>))
        where Ctx: Send + Sync + 'static,
        ensures
            r.1.wf(),
            r.1.has_channel(),
            r.1.spec_tasks().len() == 0,
            r.1.spec_next_task_id() == 0,
            r.1.spec_next_generation() == 1,
            r.1.spec_min_period() == self.spec_min_period(),
            r.1.spec_max_period() == self.spec_max_period(),
            r.1.spec_sleep_compensation() == self.spec_sleep_compensation(),
    {
        let (cmd_tx, cmd_rx) = bounded_channel(256);
        let handle = SchedulerHandle { cmd_tx };
        let scheduler_loop = self.make_loop(Some(cmd_rx));
        (handle, scheduler_loop)
    }

    /// Build the scheduler for single-threaded use without a handle.
    /// Tasks are added directly via `SchedulerLoop::add_task_local()`.
    pub fn build_local(self) -> (l: SchedulerLoop<Ctx>)
        ensures
            l.wf(),
            !l.has_channel(),
            l.spec_tasks().len() == 0,
            l.spec_next_task_id() == 0,
            l.spec_next_generation() == 1,
            l.spec_min_period() == self.spec_min_period(),
            l.spec_max_period() == self.spec_max_period(),
            l.spec_sleep_compensation() == self.spec_sleep_compensation(),
    {
        self.make_loop(None)
    }
}

} // verus!
