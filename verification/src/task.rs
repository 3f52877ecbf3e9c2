//! Task descriptions and the builder that validates them.

use vstd::prelude::*;
use std::time::{Duration, SystemTime};
use crate::duration::duration_nanos;
use crate::duration::capped_nanos_of;
use crate::system_time::{
    WallInstant, since_unix_epoch, system_time_after_epoch, system_time_now, wall_clock_now,
};

verus! {

/// How a relative periodic task measures its period.
#[derive(Debug, Clone, Copy, PartialEq, Eq, Structural)]
pub enum PeriodicSchedule {
    /// Period measured from ideal deadline to ideal deadline.
    /// Self-correcting: tick processing time doesn't affect cadence.
    FixedRate,
    /// Period measured from actual fire time.
    /// Tick processing time extends the total cycle.
    FixedDelay,
}

impl Default for PeriodicSchedule {
    fn default() -> (r: PeriodicSchedule)
        ensures
            r == PeriodicSchedule::FixedRate,
    {
        PeriodicSchedule::FixedRate
    }
}

/// How far before (`early`) and after (`late`) its ideal deadline a task may fire.
#[derive(Debug, Clone, Copy, PartialEq, Eq)]
pub struct Window {
    pub early: Duration,
    pub late: Duration,
}

impl Window {
    pub fn new(early: Duration, late: Duration) -> (w: Window)
        ensures
            w.early == early,
            w.late == late,
    {
        Window { early, late }
    }

    /// The window that allows no deviation from the deadline.
    pub fn zero() -> (w: Window)
        ensures
            duration_nanos(w.early) == 0,
            duration_nanos(w.late) == 0,
    {
        Window { early: Duration::from_nanos(0), late: Duration::from_nanos(0) }
    }

    /// A window of `margin` on both sides of the deadline.
    pub fn symmetric(margin: Duration) -> (w: Window)
        ensures
            w.early == margin,
            w.late == margin,
    {
        Window { early: margin, late: margin }
    }

    /// Whether the window allows no deviation at all.
    pub fn is_zero(&self) -> (b: bool)
        ensures
            b == (duration_nanos(self.early) == 0 && duration_nanos(self.late) == 0),
    {
        self.early.as_nanos() == 0 && self.late.as_nanos() == 0
    }

    /// The width of the whole window, `early + late`, each side counted by
    /// the low 64 bits of its nanoseconds.
    pub fn total(&self) -> (d: Duration)
        requires
            crate::duration::low_nanos(self.early) + crate::duration::low_nanos(self.late)
                <= u64::MAX,
        ensures
            duration_nanos(d) == crate::duration::low_nanos(self.early)
                + crate::duration::low_nanos(self.late),
    {
        let e = crate::duration::low_nanos_of(self.early);
        let l = crate::duration::low_nanos_of(self.late);
        Duration::from_nanos(e + l)
    }
}

/// When a task is due.
#[derive(Debug, Clone, Copy, PartialEq)]
pub enum TaskType {
    /// Every `period`, measured on the monotonic clock from the previous
    /// fire (or from when the task was added).
    Relative { period: Duration, window: Window, schedule: PeriodicSchedule },
    /// On the wall-clock grid `offset + k * period` (offset zero when absent).
    Anchored { period: Duration, offset: Option<Duration>, window: Window },
}

/// How many deadlines a task serves before it is evicted.
#[derive(Debug, Clone, Copy, PartialEq, Eq, Structural)]
pub enum Repeat {
    Forever,
    Times(u32),
}

/// Something to run for a task; the scheduler only carries it for its owner.
pub trait TaskCallback<Ctx> {
    fn call(&self, ctx: &Ctx);
}

/// Text a task can be named with, borrowed or owned.
pub trait TaskName {
    /// The characters of the name.
    spec fn name_text(&self) -> Seq<char>;

    /// The name as an owned string.
    fn into_task_name(self) -> (s: String)
        ensures
            s@ == self.name_text(),
    ;
}

impl<'a> TaskName for &'a str {
    open spec fn name_text(&self) -> Seq<char> {
        (*self)@
    }

    fn into_task_name(self) -> (s: String) {
        self.to_owned()
    }
}

impl TaskName for String {
    open spec fn name_text(&self) -> Seq<char> {
        self@
    }

    fn into_task_name(self) -> (s: String) {
        self
    }
}

impl<'a> TaskName for &'a String {
    open spec fn name_text(&self) -> Seq<char> {
        (*self)@
    }

    fn into_task_name(self) -> (s: String) {
        self.clone()
    }
}

/// A task as the scheduler keeps it.
#[verifier::reject_recursive_types(Ctx)]
pub struct Task<Ctx = ()> {
    pub task_type: TaskType,
    pub repeat: Repeat,
    pub priority: u8,
    pub name: Option<String>,
    pub on_execute: Option<Box<dyn TaskCallback<Ctx>>>,
    pub on_miss: Option<Box<dyn TaskCallback<Ctx>>>,
}

/// Why a builder could not produce a task.
#[derive(Debug)]
pub enum TaskBuildError {
    NoTaskType,
    OffsetExceedsPeriod { period: Duration, offset: Duration },
}

/// Builds a [`Task`] step by step.
#[verifier::reject_recursive_types(Ctx)]
pub struct TaskBuilder<Ctx = ()> {
    task_type: Option<TaskType>,
    repeat: Repeat,
    priority: u8,
    name: Option<String>,
    on_execute: Option<Box<dyn TaskCallback<Ctx>>>,
    on_miss: Option<Box<dyn TaskCallback<Ctx>>>,
    schedule: PeriodicSchedule,
}

/// The task type a builder produces: a relative task takes the builder's schedule.
pub open spec fn with_schedule(tt: TaskType, schedule: PeriodicSchedule) -> TaskType {
    match tt {
        TaskType::Relative { period, window, .. } => TaskType::Relative { period, window, schedule },
        TaskType::Anchored { .. } => tt,
    }
}

/// An anchored task whose offset is not shorter than its period.
pub open spec fn offset_not_below_period(tt: TaskType) -> bool {
    match tt {
        TaskType::Anchored { period, offset: Some(o), .. } => duration_nanos(o) >= duration_nanos(
            period,
        ),
        _ => false,
    }
}

impl<Ctx> TaskBuilder<Ctx> {
    pub closed spec fn spec_task_type(&self) -> Option<TaskType> {
        self.task_type
    }

    pub closed spec fn spec_repeat(&self) -> Repeat {
        self.repeat
    }

    pub closed spec fn spec_priority(&self) -> u8 {
        self.priority
    }

    pub closed spec fn spec_name(&self) -> Option<String> {
        self.name
    }

    pub closed spec fn spec_on_execute(&self) -> Option<Box<dyn TaskCallback<Ctx>>> {
        self.on_execute
    }

    pub closed spec fn spec_on_miss(&self) -> Option<Box<dyn TaskCallback<Ctx>>> {
        self.on_miss
    }

    pub closed spec fn spec_schedule(&self) -> PeriodicSchedule {
        self.schedule
    }

    /// Everything but the task type and the repeat count is as `new` leaves it.
    pub open spec fn is_fresh_except_type(&self) -> bool {
        &&& self.spec_priority() == 0
        &&& self.spec_name() is None
        &&& self.spec_on_execute() is None
        &&& self.spec_on_miss() is None
        &&& self.spec_schedule() == PeriodicSchedule::FixedRate
    }

    pub fn new() -> (b: Self)
        ensures
            b.spec_task_type() is None,
            b.spec_repeat() == Repeat::Forever,
            b.is_fresh_except_type(),
    {
        TaskBuilder {
            task_type: None,
            repeat: Repeat::Forever,
            priority: 0,
            name: None,
            on_execute: None,
            on_miss: None,
            schedule: PeriodicSchedule::FixedRate,
        }
    }

    // -- Relative builders --

    /// A task due every `period`, from when it is added.
    pub fn every(period: Duration, window: Window) -> (b: Self)
        ensures
            b.spec_task_type() == Some(
                TaskType::Relative { period, window, schedule: PeriodicSchedule::FixedRate },
            ),
            b.spec_repeat() == Repeat::Forever,
            b.is_fresh_except_type(),
    {
        Self::new().task_type(
            TaskType::Relative { period, window, schedule: PeriodicSchedule::FixedRate },
        )
    }

    /// A task due once, `delay` after it is added.
    pub fn once_after(delay: Duration, window: Window) -> (b: Self)
        ensures
            b.spec_task_type() == Some(
                TaskType::Relative { period: delay, window, schedule: PeriodicSchedule::FixedRate },
            ),
            b.spec_repeat() == Repeat::Times(1),
            b.is_fresh_except_type(),
    {
        let mut b = Self::new().task_type(
            TaskType::Relative { period: delay, window, schedule: PeriodicSchedule::FixedRate },
        );
        b.repeat = Repeat::Times(1);
        b
    }

    // -- Anchored builders --

    /// A task due at every multiple of `period` on the wall clock.
    pub fn every_at_boundary(period: Duration, window: Window) -> (b: Self)
        ensures
            b.spec_task_type() == Some(TaskType::Anchored { period, offset: None, window }),
            b.spec_repeat() == Repeat::Forever,
            b.is_fresh_except_type(),
    {
        Self::new().task_type(TaskType::Anchored { period, offset: None, window })
    }

    /// A task due at `offset + k * period` on the wall clock.
    pub fn every_with_offset(period: Duration, offset: Duration, window: Window) -> (b: Self)
        ensures
            b.spec_task_type() == Some(TaskType::Anchored { period, offset: Some(offset), window }),
            b.spec_repeat() == Repeat::Forever,
            b.is_fresh_except_type(),
    {
        Self::new().task_type(TaskType::Anchored { period, offset: Some(offset), window })
    }

    /// A task due once, at the next multiple of `period` on the wall clock.
    pub fn at_boundary(period: Duration, window: Window) -> (b: Self)
        ensures
            b.spec_task_type() == Some(TaskType::Anchored { period, offset: None, window }),
            b.spec_repeat() == Repeat::Times(1),
            b.is_fresh_except_type(),
    {
        let mut b = Self::new().task_type(TaskType::Anchored { period, offset: None, window });
        b.repeat = Repeat::Times(1);
        b
    }

    /// A task due once, at the next `offset + k * period` on the wall clock.
    pub fn at_next(period: Duration, offset: Duration, window: Window) -> (b: Self)
        ensures
            b.spec_task_type() == Some(TaskType::Anchored { period, offset: Some(offset), window }),
            b.spec_repeat() == Repeat::Times(1),
            b.is_fresh_except_type(),
    {
        let mut b = Self::new().task_type(
            TaskType::Anchored { period, offset: Some(offset), window },
        );
        b.repeat = Repeat::Times(1);
        b
    }

    /// A task due once, at the wall-clock time `deadline`.
    ///
    /// It is an anchored task whose grid starts at the deadline and whose
    /// period, `u64::MAX` nanoseconds, puts the next grid point past the
    /// wall clock's range. A deadline before the Unix epoch counts as the
    /// epoch; one at the end of the range, one nanosecond before it.
    pub fn once_at(deadline: SystemTime, window: Window) -> (b: Self)
        ensures
            b.spec_task_type() matches Some(TaskType::Anchored { period, offset: Some(o), window: w })
                && duration_nanos(period) == u64::MAX && duration_nanos(o) < u64::MAX && w == window,
            b.spec_repeat() == Repeat::Times(1),
            b.is_fresh_except_type(),
    {
        let at = match since_unix_epoch(deadline) {
            Ok(d) => WallInstant(capped_nanos_of(d)),
            Err(_) => WallInstant(0),
        };
        Self::once_at_wall(at, window)
    }

    /// `once_at` for a deadline given as a wall-clock point.
    pub fn once_at_wall(deadline: WallInstant, window: Window) -> (b: Self)
        ensures
            b.spec_task_type() matches Some(TaskType::Anchored { period, offset: Some(o), window: w })
                && duration_nanos(period) == u64::MAX && duration_nanos(o) == (if deadline.0
                < u64::MAX {
                deadline.0
            } else {
                (u64::MAX - 1) as u64
            }) && w == window,
            b.spec_repeat() == Repeat::Times(1),
            b.is_fresh_except_type(),
    {
        let at = if deadline.0 < u64::MAX {
            deadline.0
        } else {
            u64::MAX - 1
        };
        let mut b = Self::new().task_type(
            TaskType::Anchored {
                period: Duration::from_nanos(u64::MAX),
                offset: Some(Duration::from_nanos(at)),
                window,
            },
        );
        b.repeat = Repeat::Times(1);
        b
    }

    fn task_type(self, task_type: TaskType) -> (b: Self)
        ensures
            b.spec_task_type() == Some(task_type),
            b.spec_repeat() == self.spec_repeat(),
            b.spec_priority() == self.spec_priority(),
            b.spec_name() == self.spec_name(),
            b.spec_on_execute() == self.spec_on_execute(),
            b.spec_on_miss() == self.spec_on_miss(),
            b.spec_schedule() == self.spec_schedule(),
    {
        let mut b = self;
        b.task_type = Some(task_type);
        b
    }

    pub fn repeat(self, repeat: Repeat) -> (b: Self)
        ensures
            b.spec_task_type() == self.spec_task_type(),
            b.spec_repeat() == repeat,
            b.spec_priority() == self.spec_priority(),
            b.spec_name() == self.spec_name(),
            b.spec_on_execute() == self.spec_on_execute(),
            b.spec_on_miss() == self.spec_on_miss(),
            b.spec_schedule() == self.spec_schedule(),
    {
        let mut b = self;
        b.repeat = repeat;
        b
    }

    pub fn priority(self, priority: u8) -> (b: Self)
        ensures
            b.spec_task_type() == self.spec_task_type(),
            b.spec_repeat() == self.spec_repeat(),
            b.spec_priority() == priority,
            b.spec_name() == self.spec_name(),
            b.spec_on_execute() == self.spec_on_execute(),
            b.spec_on_miss() == self.spec_on_miss(),
            b.spec_schedule() == self.spec_schedule(),
    {
        let mut b = self;
        b.priority = priority;
        b
    }

    /// The same builder with the task named `name`.
    pub fn name<N: TaskName>(self, name: N) -> (b: Self)
        ensures
            b.spec_task_type() == self.spec_task_type(),
            b.spec_repeat() == self.spec_repeat(),
            b.spec_priority() == self.spec_priority(),
            b.spec_name() matches Some(n) && n@ == name.name_text(),
            b.spec_on_execute() == self.spec_on_execute(),
            b.spec_on_miss() == self.spec_on_miss(),
            b.spec_schedule() == self.spec_schedule(),
    {
        let mut b = self;
        b.name = Some(name.into_task_name());
        b
    }

    /// The same builder with the task's execution callback set to
    /// `callback` (none with `None`).
    pub fn on_execute(self, callback: Option<Box<dyn TaskCallback<Ctx>>>) -> (b: Self)
        ensures
            b.spec_task_type() == self.spec_task_type(),
            b.spec_repeat() == self.spec_repeat(),
            b.spec_priority() == self.spec_priority(),
            b.spec_name() == self.spec_name(),
            b.spec_on_execute() == callback,
            b.spec_on_miss() == self.spec_on_miss(),
            b.spec_schedule() == self.spec_schedule(),
    {
        let mut b = self;
        b.on_execute = callback;
        b
    }

    /// The same builder with the task's miss callback set to `callback`
    /// (none with `None`).
    pub fn on_miss(self, callback: Option<Box<dyn TaskCallback<Ctx>>>) -> (b: Self)
        ensures
            b.spec_task_type() == self.spec_task_type(),
            b.spec_repeat() == self.spec_repeat(),
            b.spec_priority() == self.spec_priority(),
            b.spec_name() == self.spec_name(),
            b.spec_on_execute() == self.spec_on_execute(),
            b.spec_on_miss() == callback,
            b.spec_schedule() == self.spec_schedule(),
    {
        let mut b = self;
        b.on_miss = callback;
        b
    }

    pub fn schedule(self, schedule: PeriodicSchedule) -> (b: Self)
        ensures
            b.spec_task_type() == self.spec_task_type(),
            b.spec_repeat() == self.spec_repeat(),
            b.spec_priority() == self.spec_priority(),
            b.spec_name() == self.spec_name(),
            b.spec_on_execute() == self.spec_on_execute(),
            b.spec_on_miss() == self.spec_on_miss(),
            b.spec_schedule() == schedule,
    {
        let mut b = self;
        b.schedule = schedule;
        b
    }

    /// The task, once a task type is set and an anchored task's offset is
    /// shorter than its period. A relative task takes the builder's schedule.
    pub fn build(self) -> (r: Result<Task<Ctx>, TaskBuildError>)
        ensures
            self.spec_task_type() matches Some(TaskType::Anchored { period, offset: Some(o), .. })
                ==> (r is Err <==> duration_nanos(o) >= duration_nanos(period)),
            match self.spec_task_type() {
                None => r matches Err(TaskBuildError::NoTaskType),
                Some(tt) => if offset_not_below_period(tt) {
                    &&& r matches Err(TaskBuildError::OffsetExceedsPeriod { period, offset })
                    &&& period == tt->Anchored_period
                    &&& Some(offset) == tt->Anchored_offset
                } else {
                    &&& r matches Ok(task)
                    &&& task.task_type == with_schedule(tt, self.spec_schedule())
                    &&& task.repeat == self.spec_repeat()
                    &&& task.priority == self.spec_priority()
                    &&& task.name == self.spec_name()
                    &&& task.on_execute == self.spec_on_execute()
                    &&& task.on_miss == self.spec_on_miss()
                },
            },
    {
        let TaskBuilder { task_type, repeat, priority, name, on_execute, on_miss, schedule } =
            self;
        let task_type = match task_type {
            None => {
                return Err(TaskBuildError::NoTaskType);
            },
            Some(tt) => tt,
        };
        // Apply the builder's schedule to relative tasks.
        let task_type = match task_type {
            TaskType::Relative { period, window, .. } => TaskType::Relative {
                period,
                window,
                schedule,
            },
            other => other,
        };
        // An anchored task's offset must be shorter than its period.
        if let TaskType::Anchored { period, offset: Some(offset), .. } = &task_type {
            if offset.as_nanos() >= period.as_nanos() {
                return Err(TaskBuildError::OffsetExceedsPeriod { period: *period, offset: *offset });
            }
        }
        Ok(Task { task_type, repeat, priority, name, on_execute, on_miss })
    }
}

/// A builder refuses an anchored task exactly when its offset, in
/// nanoseconds, is not shorter than its period: any shorter offset builds.
pub proof fn lemma_offset_refused_iff_not_shorter(tt: TaskType)
    ensures
        offset_not_below_period(tt) <==> (tt matches TaskType::Anchored { period, offset: Some(o), .. }
            && duration_nanos(o) >= duration_nanos(period)),
{
}

impl<Ctx> Default for TaskBuilder<Ctx> {
    fn default() -> (b: Self)
        ensures
            b.spec_task_type() is None,
            b.spec_repeat() == Repeat::Forever,
            b.is_fresh_except_type(),
    {
        Self::new()
    }
}

/// Nanoseconds in a day.
pub const NANOS_PER_DAY: u64 = 86_400_000_000_000;

/// `h:m:s` as seconds since midnight.
pub open spec fn time_of_day_secs(h: u32, m: u32, s: u32) -> int {
    h * 3600 + m * 60 + s
}

/// The start (midnight UTC) of the day the wall reading `now` falls in.
pub open spec fn day_start(now: u64) -> int {
    now - now % NANOS_PER_DAY
}

/// The wall-clock point (nanoseconds since the Unix epoch) at `h:m:s` UTC,
/// `days` days after the UTC day that `now` falls in.
pub open spec fn day_point(now: u64, days: int, h: u32, m: u32, s: u32) -> int {
    day_start(now) + days * NANOS_PER_DAY + time_of_day_secs(h, m, s) * 1_000_000_000
}

/// `x` as a wall-clock point, when 64 bits of nanoseconds hold it.
pub open spec fn wall_point(x: int) -> Option<WallInstant> {
    if 0 <= x <= u64::MAX {
        Some(WallInstant(x as u64))
    } else {
        None
    }
}

/// Times of day, for tasks anchored to the wall clock: an anchored task of
/// period one day with offset `Time::hm(16, 5)` is due every day at 16:05 UTC.
pub struct Time;

impl Time {
    /// `h:m:s` as a duration since midnight.
    pub fn hms(h: u32, m: u32, s: u32) -> (d: Duration)
        ensures
            duration_nanos(d) == time_of_day_secs(h, m, s) * 1_000_000_000,
    {
        Duration::from_secs((h as u64) * 3600 + (m as u64) * 60 + (s as u64))
    }

    /// `h:m` as a duration since midnight.
    pub fn hm(h: u32, m: u32) -> (d: Duration)
        ensures
            duration_nanos(d) == time_of_day_secs(h, m, 0) * 1_000_000_000,
    {
        Self::hms(h, m, 0)
    }

    /// The point at `h:m:s` UTC, `days` (0 or 1) after the day of `now`, or
    /// `None` past what 64 bits of nanoseconds hold.
    fn point_on_day(now: WallInstant, days: u64, h: u32, m: u32, s: u32) -> (r: Option<WallInstant>)
        requires
            days <= 1,
        ensures
            r == wall_point(day_point(now.0, days as int, h, m, s)),
    {
        let day_start = now.0 - now.0 % NANOS_PER_DAY;
        let secs: u64 = (h as u64) * 3600 + (m as u64) * 60 + (s as u64);
        assert((secs as int) * 1_000_000_000 < 0x1_0000_0000_0000_0000_0000_0000) by (nonlinear_arith)
            requires
                secs <= 0xffff_ffff * 3661,
        ;
        let ahead: u128 = if days == 0 {
            0
        } else {
            NANOS_PER_DAY as u128
        };
        let total: u128 = (day_start as u128) + ahead + (secs as u128) * 1_000_000_000;
        if total > u64::MAX as u128 {
            None
        } else {
            Some(WallInstant(total as u64))
        }
    }

    /// The point at `h:m:s` UTC on the day of the wall reading `now`, or
    /// `None` past what 64 bits of nanoseconds hold.
    pub fn today_at_from(now: WallInstant, h: u32, m: u32, s: u32) -> (r: Option<WallInstant>)
        ensures
            r == wall_point(day_point(now.0, 0, h, m, s)),
    {
        Self::point_on_day(now, 0, h, m, s)
    }

    /// The point at `h:m:s` UTC on the day after the wall reading `now`,
    /// or `None` past what 64 bits of nanoseconds hold.
    pub fn tomorrow_at_from(now: WallInstant, h: u32, m: u32, s: u32) -> (r: Option<WallInstant>)
        ensures
            r == wall_point(day_point(now.0, 1, h, m, s)),
    {
        Self::point_on_day(now, 1, h, m, s)
    }

    /// Today (UTC) at `h:m:s`, by the operating system's wall clock; `None`
    /// when that point is past what the clock can represent.
    pub fn today_at(h: u32, m: u32, s: u32) -> Option<SystemTime> {
        match Self::today_at_from(wall_clock_now(), h, m, s) {
            Some(t) => system_time_after_epoch(Duration::from_nanos(t.0)),
            None => None,
        }
    }

    /// Tomorrow (UTC) at `h:m:s`, by the operating system's wall clock. Should
    /// that point lie past what the clock can represent (centuries ahead),
    /// the current time is given instead.
    pub fn tomorrow_at(h: u32, m: u32, s: u32) -> SystemTime {
        match Self::tomorrow_at_from(wall_clock_now(), h, m, s) {
            Some(t) => match system_time_after_epoch(Duration::from_nanos(t.0)) {
                Some(st) => st,
                None => system_time_now(),
            },
            None => system_time_now(),
        }
    }
}

/// Tomorrow's point at any time of day is after the wall reading it was
/// computed from.
pub proof fn lemma_tomorrow_is_ahead(now: u64, h: u32, m: u32, s: u32)
    ensures
        day_point(now, 1, h, m, s) > now,
{
    assert(now % NANOS_PER_DAY < NANOS_PER_DAY);
}

/// For a valid time of day, today's point lies within the UTC day of the
/// reading, and tomorrow's point is exactly one day after today's.
pub proof fn lemma_today_within_its_day(now: u64, h: u32, m: u32, s: u32)
    requires
        h < 24,
        m < 60,
        s < 60,
    ensures
        day_start(now) <= day_point(now, 0, h, m, s) < day_start(now) + NANOS_PER_DAY,
        day_point(now, 1, h, m, s) == day_point(now, 0, h, m, s) + NANOS_PER_DAY,
{
}

} // verus!
