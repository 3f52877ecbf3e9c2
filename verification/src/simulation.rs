//! Simulated runs of the scheduler: the clocks jump straight to each wake
//! point the scheduler asks for, so a run of seconds takes microseconds.

use vstd::prelude::*;
use std::time::Duration;
use crate::duration::duration_nanos;
use crate::duration_text::{
    decimal, lemma_decimal_parses, parse_u64, parse_u64_at, push_decimal, push_str,
};
use crate::scheduler::{
    fired_indices, initial_state, kept_states, kept_tasks, outcomes, soonest, step, stepped,
    Outcome, Scheduler, TaskState,
};
use crate::system_time::{MonoInstant, SimClock, WallInstant};
use crate::text::chars_of;
use crate::task::{PeriodicSchedule, Repeat, Task, TaskBuilder, TaskType, Window};

verus! {

/// The wall-clock reading at the start of a simulation: one million seconds
/// after the Unix epoch, in nanoseconds.
pub const SIM_EPOCH_NANOS: u64 = 1_000_000_000_000_000;

/// How far the simulation moves the clocks in one step when the scheduler
/// has no wake point in the future: one millisecond.
pub const SIM_MIN_STEP_NANOS: u64 = 1_000_000;

/// The task a simulation builds for one `(period, window)` pair: a
/// fixed-rate relative task that repeats forever.
pub open spec fn sim_task(p: (Duration, Window)) -> Task<()> {
    Task {
        task_type: TaskType::Relative {
            period: p.0,
            window: p.1,
            schedule: PeriodicSchedule::FixedRate,
        },
        repeat: Repeat::Forever,
        priority: 0,
        name: None,
        on_execute: None,
        on_miss: None,
    }
}

/// The tasks of a simulation, in the order given.
pub open spec fn sim_tasks(specs: Seq<(Duration, Window)>) -> Seq<Task<()>> {
    Seq::new(specs.len(), |i: int| sim_task(specs[i]))
}

/// The states of those tasks when they are added at the start.
pub open spec fn sim_start(specs: Seq<(Duration, Window)>) -> Seq<TaskState> {
    Seq::new(
        specs.len(),
        |i: int| initial_state(sim_task(specs[i]).task_type, Repeat::Forever, 0, SIM_EPOCH_NANOS),
    )
}

/// How far one step moves the clocks from `now`: up to the soonest wake
/// point when that lies ahead, else the minimum step.
pub open spec fn sim_advance<Ctx>(tasks: Seq<Task<Ctx>>, states: Seq<TaskState>, now: u64) -> int {
    match soonest(tasks, states, now, (SIM_EPOCH_NANOS + now) as u64, states.len() as int) {
        Some(t) => if t > now {
            t - now
        } else {
            SIM_MIN_STEP_NANOS as int
        },
        None => SIM_MIN_STEP_NANOS as int,
    }
}

/// How many of the ticks from `now` until `end` (monotonic nanoseconds
/// since the start) fire at least one task, when each tick happens where
/// the previous one's `sim_advance` leads.
pub open spec fn sim_wakeups<Ctx>(
    tasks: Seq<Task<Ctx>>,
    states: Seq<TaskState>,
    now: u64,
    end: u64,
) -> nat
    decreases end - now,
{
    let t = now + sim_advance(tasks, states, now);
    if t >= end || sim_advance(tasks, states, now) <= 0 {
        0
    } else {
        let kt = kept_tasks(tasks, states);
        let ks = kept_states(states);
        let wall = (SIM_EPOCH_NANOS + t) as u64;
        let outs = outcomes(kt, ks, t as u64, wall);
        (if fired_indices(outs).len() > 0 {
            1nat
        } else {
            0nat
        }) + sim_wakeups(kt, stepped(kt, ks, t as u64, wall), t as u64, end)
    }
}

/// A count that stops at `usize::MAX`.
pub open spec fn capped_count(n: nat) -> usize {
    if n > usize::MAX {
        usize::MAX
    } else {
        n as usize
    }
}

/// Runs a scheduler over simulated time for `simulation_duration` and
/// counts the wakeups that fired at least one task. Every pair becomes a
/// fixed-rate task added at the start; the clocks then jump from wake point
/// to wake point (at least one millisecond at a time).
pub fn simulate_scheduler(tasks: Vec<(Duration, Window)>, simulation_duration: Duration) -> (wakeups:
    usize)
    requires
        duration_nanos(simulation_duration) <= u64::MAX - SIM_EPOCH_NANOS,
    ensures
        wakeups == capped_count(
            sim_wakeups(
                sim_tasks(tasks@),
                sim_start(tasks@),
                0,
                duration_nanos(simulation_duration) as u64,
            ),
        ),
{
    let mut scheduler: Scheduler<(), SimClock> = Scheduler::new_with_clock(SimClock::new());
    let mut i: usize = 0;
    while i < tasks.len()
        invariant
            0 <= i <= tasks@.len(),
            scheduler.wf(),
            duration_nanos(scheduler.spec_timer_delay()) == 0,
            scheduler.spec_tasks() == sim_tasks(tasks@).take(i as int),
            scheduler.spec_states() == sim_start(tasks@).take(i as int),
        decreases tasks@.len() - i,
    {
        let (period, window) = tasks[i];
        let built = TaskBuilder::every(period, window).build();
        match built {
            Ok(task) => {
                proof {
                    assert(task == sim_task(tasks@[i as int]));
                }
                let _ = scheduler.add_task_at(
                    task,
                    MonoInstant(0),
                    WallInstant(SIM_EPOCH_NANOS),
                );
            },
            Err(_) => {
                proof {
                    assert(false);
                }
            },
        }
        proof {
            assert(sim_tasks(tasks@).take(i + 1) =~= sim_tasks(tasks@).take(i as int).push(
                sim_task(tasks@[i as int]),
            ));
            assert(sim_start(tasks@).take(i + 1) =~= sim_start(tasks@).take(i as int).push(
                sim_start(tasks@)[i as int],
            ));
        }
        i += 1;
    }
    proof {
        assert(sim_tasks(tasks@).take(i as int) =~= sim_tasks(tasks@));
        assert(sim_start(tasks@).take(i as int) =~= sim_start(tasks@));
    }
    let end: u64 = simulation_duration.as_nanos() as u64;
    let ghost total = sim_wakeups(scheduler.spec_tasks(), scheduler.spec_states(), 0, end);
    let ghost mut done: nat = 0;
    let mut now: u64 = 0;
    let mut wakeups: usize = 0;
    while now < end
        invariant
            scheduler.wf(),
            duration_nanos(scheduler.spec_timer_delay()) == 0,
            end <= u64::MAX - SIM_EPOCH_NANOS,
            now <= end,
            done + sim_wakeups(scheduler.spec_tasks(), scheduler.spec_states(), now, end) == total,
            wakeups == capped_count(done),
        ensures
            wakeups == capped_count(total),
        decreases end - now,
    {
        let next = scheduler.next_tick_at(MonoInstant(now), WallInstant(SIM_EPOCH_NANOS + now));
        let step: u64 = match next {
            Some(d) => {
                let n = d.as_nanos();
                if n > 0 {
                    n as u64
                } else {
                    SIM_MIN_STEP_NANOS
                }
            },
            None => SIM_MIN_STEP_NANOS,
        };
        let ghost tasks0 = scheduler.spec_tasks();
        let ghost states0 = scheduler.spec_states();
        assert(step == sim_advance(tasks0, states0, now));
        if step >= end - now {
            break;
        }
        now = now + step;
        let r = scheduler.tick_at(MonoInstant(now), WallInstant(SIM_EPOCH_NANOS + now));
        let fired_any = r.fired.len() > 0;
        proof {
            let kt = kept_tasks(tasks0, states0);
            let ks = kept_states(states0);
            let outs = outcomes(kt, ks, now, (SIM_EPOCH_NANOS + now) as u64);
            assert(fired_any == (fired_indices(outs).len() > 0));
            done = done + if fired_any {
                1nat
            } else {
                0nat
            };
        }
        if fired_any && wakeups < usize::MAX {
            wakeups = wakeups + 1;
        }
    }
    wakeups
}


/// A duration in whole milliseconds, as `as_millis() as i64` gives it.
pub open spec fn millis_i64(d: Duration) -> i64 {
    (duration_nanos(d) / 1_000_000) as i64
}

/// The earliest moment, in milliseconds from the start, at which a task
/// with this period and window may first fire.
pub open spec fn span_earliest(p: (Duration, Window)) -> int {
    millis_i64(p.0) - millis_i64(p.1.early)
}

/// The latest moment, in milliseconds from the start, at which it may first fire.
pub open spec fn span_latest(p: (Duration, Window)) -> int {
    millis_i64(p.0) + millis_i64(p.1.late)
}

/// Both ends of the task's first window fit in an `i64`.
pub open spec fn span_fits(p: (Duration, Window)) -> bool {
    &&& i64::MIN <= span_earliest(p) <= i64::MAX
    &&& i64::MIN <= span_latest(p) <= i64::MAX
}

/// The latest of the earliest moments of the tasks (`i64::MIN` for none).
pub open spec fn max_earliest(tasks: Seq<(Duration, Window)>) -> int
    decreases tasks.len(),
{
    if tasks.len() == 0 {
        i64::MIN as int
    } else {
        let prev = max_earliest(tasks.drop_last());
        let e = span_earliest(tasks.last());
        if e > prev {
            e
        } else {
            prev
        }
    }
}

/// The earliest of the latest moments of the tasks (`i64::MAX` for none).
pub open spec fn min_latest(tasks: Seq<(Duration, Window)>) -> int
    decreases tasks.len(),
{
    if tasks.len() == 0 {
        i64::MAX as int
    } else {
        let prev = min_latest(tasks.drop_last());
        let l = span_latest(tasks.last());
        if l < prev {
            l
        } else {
            prev
        }
    }
}

/// Half of `x`, rounded toward zero as integer division does.
pub open spec fn half_toward_zero(x: int) -> int {
    if x >= 0 {
        x / 2
    } else {
        -((-x) / 2)
    }
}

/// The pairs `(i, j)` with `i < j < n` for one first index `i`, by `j`.
pub open spec fn pair_row(i: int, n: int) -> Seq<(int, int)> {
    Seq::new((n - i - 1) as nat, |k: int| (i, i + 1 + k))
}

/// All pairs `(i, j)` with `i < j < n` and `i` below `rows`, in order.
pub open spec fn pairs_before(rows: int, n: int) -> Seq<(int, int)>
    decreases rows,
{
    if rows <= 0 {
        Seq::empty()
    } else {
        pairs_before(rows - 1, n) + pair_row(rows - 1, n)
    }
}

/// Where the first windows of tasks `i` and `j` overlap, if they do.
pub open spec fn pair_overlap(tasks: Seq<(Duration, Window)>, i: int, j: int) -> Option<(i64, i64)> {
    let start = if span_earliest(tasks[i]) > span_earliest(tasks[j]) {
        span_earliest(tasks[i])
    } else {
        span_earliest(tasks[j])
    };
    let end = if span_latest(tasks[i]) < span_latest(tasks[j]) {
        span_latest(tasks[i])
    } else {
        span_latest(tasks[j])
    };
    if start <= end {
        Some((start as i64, end as i64))
    } else {
        None
    }
}

/// The overlap of two tasks' first windows is their intersection: present
/// exactly when the windows meet, the same whichever task comes first, and
/// running from the later of the two earliest moments to the earlier of the
/// two latest, inside both windows.
pub proof fn lemma_pair_overlap_is_intersection(tasks: Seq<(Duration, Window)>, i: int, j: int)
    requires
        0 <= i < tasks.len(),
        0 <= j < tasks.len(),
        span_fits(tasks[i]),
        span_fits(tasks[j]),
    ensures
        pair_overlap(tasks, i, j) == pair_overlap(tasks, j, i),
        pair_overlap(tasks, i, j) is Some <==> (span_earliest(tasks[i]) <= span_latest(tasks[j])
            && span_earliest(tasks[j]) <= span_latest(tasks[i]) && span_earliest(tasks[i])
            <= span_latest(tasks[i]) && span_earliest(tasks[j]) <= span_latest(tasks[j])),
        pair_overlap(tasks, i, j) matches Some((s, e)) ==> {
            &&& span_earliest(tasks[i]) <= s <= e <= span_latest(tasks[i])
            &&& span_earliest(tasks[j]) <= s <= e <= span_latest(tasks[j])
            &&& (s == span_earliest(tasks[i]) || s == span_earliest(tasks[j]))
            &&& (e == span_latest(tasks[i]) || e == span_latest(tasks[j]))
        },
{
}

/// A task's first window, in milliseconds from the start.
#[derive(Debug, Clone, Copy, PartialEq, Eq, Structural)]
pub struct WindowSpan {
    pub period_ms: i64,
    pub earliest: i64,
    pub latest: i64,
}

/// Whether the first windows of two tasks overlap, and where.
#[derive(Debug, Clone, Copy, PartialEq, Eq)]
pub struct PairOverlap {
    pub first: usize,
    pub second: usize,
    pub overlap: Option<(i64, i64)>,
}

/// What the first windows of a set of tasks have in common.
#[derive(Debug)]
pub enum OverlapAnalysis {
    /// Fewer than two tasks: nothing to compare.
    Single,
    /// Every window contains `[earliest, latest]`; waking at `midpoint`
    /// would serve them all together.
    Common { earliest: i64, latest: i64, midpoint: i64 },
    /// No moment is in every window; how each pair fares instead.
    Disjoint { earliest: i64, latest: i64, pairs: Vec<PairOverlap> },
}

/// The spans of the tasks' first windows and how they overlap.
#[derive(Debug)]
pub struct WindowAnalysis {
    pub spans: Vec<WindowSpan>,
    pub overlap: OverlapAnalysis,
}

/// The first window of a task with this period and window.
pub fn window_span(period: Duration, window: Window) -> (s: WindowSpan)
    requires
        span_fits((period, window)),
    ensures
        s.period_ms == millis_i64(period),
        s.earliest == span_earliest((period, window)),
        s.latest == span_latest((period, window)),
{
    let period_ms = period.as_millis() as i64;
    let earliest = period_ms - window.early.as_millis() as i64;
    let latest = period_ms + window.late.as_millis() as i64;
    WindowSpan { period_ms, earliest, latest }
}

/// Works out, from their first windows, which of the tasks can be served
/// by one wakeup: the window of each task, the part common to all of them
/// with its midpoint when there is one, and otherwise the overlap of every
/// pair `(i, j)` with `i < j`, in order of `i` and then `j`.
pub fn analyze_window_overlaps(tasks: &Vec<(Duration, Window)>) -> (r: WindowAnalysis)
    requires
        forall|i: int| 0 <= i < tasks@.len() ==> span_fits(#[trigger] tasks@[i]),
        tasks@.len() >= 2 && max_earliest(tasks@) <= min_latest(tasks@) ==> i64::MIN <= max_earliest(
            tasks@,
        ) + min_latest(tasks@) <= i64::MAX,
    ensures
        r.spans@.len() == tasks@.len(),
        forall|i: int|
            0 <= i < tasks@.len() ==> {
                &&& (#[trigger] r.spans@[i]).period_ms == millis_i64(tasks@[i].0)
                &&& r.spans@[i].earliest == span_earliest(tasks@[i])
                &&& r.spans@[i].latest == span_latest(tasks@[i])
            },
        tasks@.len() < 2 ==> r.overlap is Single,
        tasks@.len() >= 2 && max_earliest(tasks@) <= min_latest(tasks@) ==> r.overlap == (
        OverlapAnalysis::Common {
            earliest: max_earliest(tasks@) as i64,
            latest: min_latest(tasks@) as i64,
            midpoint: half_toward_zero(max_earliest(tasks@) + min_latest(tasks@)) as i64,
        }),
        tasks@.len() >= 2 && max_earliest(tasks@) > min_latest(tasks@) ==> match r.overlap {
            OverlapAnalysis::Disjoint { earliest, latest, pairs } => {
                &&& earliest == max_earliest(tasks@)
                &&& latest == min_latest(tasks@)
                &&& pairs@.len() == pairs_before(tasks@.len() as int, tasks@.len() as int).len()
                &&& forall|k: int|
                    0 <= k < pairs@.len() ==> {
                        let (i, j) = pairs_before(tasks@.len() as int, tasks@.len() as int)[k];
                        &&& (#[trigger] pairs@[k]).first == i
                        &&& pairs@[k].second == j
                        &&& pairs@[k].overlap == pair_overlap(tasks@, i, j)
                    }
            },
            _ => false,
        },
{
    let n = tasks.len();
    let mut spans: Vec<WindowSpan> = Vec::new();
    let mut max_e: i64 = i64::MIN;
    let mut min_l: i64 = i64::MAX;
    let mut i: usize = 0;
    while i < n
        invariant
            n == tasks@.len(),
            0 <= i <= n,
            forall|t: int| 0 <= t < n ==> span_fits(#[trigger] tasks@[t]),
            spans@.len() == i,
            forall|t: int|
                0 <= t < i ==> {
                    &&& (#[trigger] spans@[t]).period_ms == millis_i64(tasks@[t].0)
                    &&& spans@[t].earliest == span_earliest(tasks@[t])
                    &&& spans@[t].latest == span_latest(tasks@[t])
                },
            max_e == max_earliest(tasks@.take(i as int)),
            min_l == min_latest(tasks@.take(i as int)),
        decreases n - i,
    {
        let (period, window) = tasks[i];
        proof {
            assert(span_fits(tasks@[i as int]));
            assert(tasks@.take(i + 1).drop_last() =~= tasks@.take(i as int));
            assert(tasks@.take(i + 1).last() == tasks@[i as int]);
        }
        let span = window_span(period, window);
        if span.earliest > max_e {
            max_e = span.earliest;
        }
        if span.latest < min_l {
            min_l = span.latest;
        }
        spans.push(span);
        i += 1;
    }
    proof {
        assert(tasks@.take(n as int) =~= tasks@);
    }
    let overlap = if n < 2 {
        OverlapAnalysis::Single
    } else if max_e <= min_l {
        let sum = (max_e + min_l) as i128;
        let half = if sum >= 0 {
            sum / 2
        } else {
            -((-sum) / 2)
        };
        let midpoint = half as i64;
        OverlapAnalysis::Common { earliest: max_e, latest: min_l, midpoint }
    } else {
        let mut pairs: Vec<PairOverlap> = Vec::new();
        let mut a: usize = 0;
        while a < n
            invariant
                n == tasks@.len(),
                0 <= a <= n,
                spans@.len() == n,
                forall|t: int|
                    0 <= t < n ==> {
                        &&& (#[trigger] spans@[t]).earliest == span_earliest(tasks@[t])
                        &&& spans@[t].latest == span_latest(tasks@[t])
                    },
                pairs@.len() == pairs_before(a as int, n as int).len(),
                forall|k: int|
                    0 <= k < pairs@.len() ==> {
                        let (x, y) = pairs_before(a as int, n as int)[k];
                        &&& (#[trigger] pairs@[k]).first == x
                        &&& pairs@[k].second == y
                        &&& pairs@[k].overlap == pair_overlap(tasks@, x, y)
                    },
            decreases n - a,
        {
            let ghost done = pairs@;
            let mut b: usize = a + 1;
            while b < n
                invariant
                    n == tasks@.len(),
                    0 <= a < n,
                    a + 1 <= b <= n,
                    spans@.len() == n,
                    forall|t: int|
                        0 <= t < n ==> {
                            &&& (#[trigger] spans@[t]).earliest == span_earliest(tasks@[t])
                            &&& spans@[t].latest == span_latest(tasks@[t])
                        },
                    done.len() == pairs_before(a as int, n as int).len(),
                    pairs@.len() == done.len() + (b - a - 1),
                    forall|k: int| 0 <= k < done.len() ==> #[trigger] pairs@[k] == done[k],
                    forall|k: int|
                        0 <= k < done.len() ==> {
                            let (x, y) = pairs_before(a as int, n as int)[k];
                            &&& (#[trigger] done[k]).first == x
                            &&& done[k].second == y
                            &&& done[k].overlap == pair_overlap(tasks@, x, y)
                        },
                    forall|k: int|
                        done.len() <= k < pairs@.len() ==> {
                            &&& (#[trigger] pairs@[k]).first == a
                            &&& pairs@[k].second == a + 1 + (k - done.len())
                            &&& pairs@[k].overlap == pair_overlap(
                                tasks@,
                                a as int,
                                a + 1 + (k - done.len()),
                            )
                        },
                decreases n - b,
            {
                let sa = spans[a];
                let sb = spans[b];
                let start = if sa.earliest > sb.earliest {
                    sa.earliest
                } else {
                    sb.earliest
                };
                let end = if sa.latest < sb.latest {
                    sa.latest
                } else {
                    sb.latest
                };
                let overlap = if start <= end {
                    Some((start, end))
                } else {
                    None
                };
                pairs.push(PairOverlap { first: a, second: b, overlap });
                b += 1;
            }
            proof {
                let all = pairs_before(a + 1, n as int);
                assert(all == pairs_before(a as int, n as int) + pair_row(a as int, n as int));
                assert forall|k: int| 0 <= k < pairs@.len() implies {
                    let (x, y) = all[k];
                    &&& (#[trigger] pairs@[k]).first == x
                    &&& pairs@[k].second == y
                    &&& pairs@[k].overlap == pair_overlap(tasks@, x, y)
                } by {
                    if k < done.len() {
                        assert(pairs@[k] == done[k]);
                        assert(all[k] == pairs_before(a as int, n as int)[k]);
                    } else {
                        assert(all[k] == pair_row(a as int, n as int)[k - done.len()]);
                    }
                }
            }
            a += 1;
        }
        OverlapAnalysis::Disjoint { earliest: max_e, latest: min_l, pairs }
    };
    WindowAnalysis { spans, overlap }
}


/// No task's first window starts after `max_earliest` or ends before
/// `min_latest`: the part common to all windows lies inside each of them.
pub proof fn lemma_common_part_in_every_window(tasks: Seq<(Duration, Window)>, i: int)
    requires
        0 <= i < tasks.len(),
    ensures
        span_earliest(tasks[i]) <= max_earliest(tasks),
        min_latest(tasks) <= span_latest(tasks[i]),
    decreases tasks.len(),
{
    if i < tasks.len() - 1 {
        lemma_common_part_in_every_window(tasks.drop_last(), i);
        assert(tasks.drop_last()[i] == tasks[i]);
    }
}

/// With every window's ends in `i64`, some task starts exactly at
/// `max_earliest` and some task ends exactly at `min_latest`.
proof fn lemma_extremes_attained(tasks: Seq<(Duration, Window)>)
    requires
        tasks.len() > 0,
        forall|i: int| 0 <= i < tasks.len() ==> span_fits(#[trigger] tasks[i]),
    ensures
        exists|i: int| 0 <= i < tasks.len() && span_earliest(tasks[i]) == max_earliest(tasks),
        exists|i: int| 0 <= i < tasks.len() && span_latest(tasks[i]) == min_latest(tasks),
    decreases tasks.len(),
{
    let last = tasks.len() - 1;
    assert(span_fits(tasks[last]));
    if tasks.len() > 1 {
        let p = tasks.drop_last();
        assert forall|i: int| 0 <= i < p.len() implies span_fits(#[trigger] p[i]) by {
            assert(p[i] == tasks[i]);
        }
        lemma_extremes_attained(p);
        let a = choose|i: int| 0 <= i < p.len() && span_earliest(p[i]) == max_earliest(p);
        let b = choose|i: int| 0 <= i < p.len() && span_latest(p[i]) == min_latest(p);
        assert(p[a] == tasks[a]);
        assert(p[b] == tasks[b]);
        if span_earliest(tasks[last]) > max_earliest(p) {
            assert(span_earliest(tasks[last]) == max_earliest(tasks));
        } else {
            assert(span_earliest(tasks[a]) == max_earliest(tasks));
        }
        if span_latest(tasks[last]) < min_latest(p) {
            assert(span_latest(tasks[last]) == min_latest(tasks));
        } else {
            assert(span_latest(tasks[b]) == min_latest(tasks));
        }
    } else {
        assert(tasks.drop_last().len() == 0);
        assert(max_earliest(tasks.drop_last()) == i64::MIN as int);
        assert(min_latest(tasks.drop_last()) == i64::MAX as int);
        assert(tasks.last() == tasks[0]);
        assert(span_earliest(tasks[0]) == max_earliest(tasks));
        assert(span_latest(tasks[0]) == min_latest(tasks));
    }
}

/// When the windows have no part in common, every moment falls outside
/// the first window of some task: no single wakeup serves them all.
pub proof fn lemma_no_common_moment(tasks: Seq<(Duration, Window)>, x: int)
    requires
        tasks.len() > 0,
        forall|i: int| 0 <= i < tasks.len() ==> span_fits(#[trigger] tasks[i]),
        max_earliest(tasks) > min_latest(tasks),
    ensures
        exists|i: int|
            0 <= i < tasks.len() && (x < span_earliest(tasks[i]) || x > span_latest(#[trigger] tasks[i])),
{
    lemma_extremes_attained(tasks);
    let a = choose|i: int| 0 <= i < tasks.len() && span_earliest(tasks[i]) == max_earliest(tasks);
    let b = choose|i: int| 0 <= i < tasks.len() && span_latest(tasks[i]) == min_latest(tasks);
    if x < max_earliest(tasks) {
        assert(x < span_earliest(tasks[a]));
    } else {
        assert(x > span_latest(tasks[b]));
    }
}

/// When the windows have a part in common, its midpoint lies in every
/// task's first window: one wakeup there serves them all.
pub proof fn lemma_midpoint_in_every_window(tasks: Seq<(Duration, Window)>, i: int)
    requires
        0 <= i < tasks.len(),
        max_earliest(tasks) <= min_latest(tasks),
    ensures
        span_earliest(tasks[i]) <= half_toward_zero(max_earliest(tasks) + min_latest(tasks))
            <= span_latest(tasks[i]),
{
    lemma_common_part_in_every_window(tasks, i);
}

/// The name a tracking simulation gives the task at position `i`.
pub open spec fn task_label(i: nat) -> Seq<char> {
    "task_"@ + decimal(i)
}

/// The position a task name stands for: `task_` followed by a number that
/// `usize::from_str` accepts.
pub open spec fn label_index(c: Seq<char>) -> Option<usize> {
    if c.len() >= 5 && c.take(5) == "task_"@ {
        match parse_u64(c.skip(5)) {
            Some(v) => if v <= usize::MAX {
                Some(v as usize)
            } else {
                None
            },
            None => None,
        }
    } else {
        None
    }
}

/// The name `task_<i>`.
fn task_label_of(i: usize) -> (s: String)
    ensures
        s@ == task_label(i as nat),
{
    let mut s = String::new();
    push_str(&mut s, "task_");
    push_decimal(&mut s, i as u128);
    s
}

/// The position a task name stands for, as `label_index` reads it.
fn index_of_label(name: &String) -> (r: Option<usize>)
    ensures
        r == label_index(name@),
{
    proof {
        reveal_strlit("task_");
    }
    let c = chars_of(name.as_str());
    let n = c.len();
    if n < 5 {
        return None;
    }
    if !(c[0] == 't' && c[1] == 'a' && c[2] == 's' && c[3] == 'k' && c[4] == '_') {
        proof {
            if c@.take(5) == "task_"@ {
                assert(c@.take(5)[0] == 't' && c@.take(5)[1] == 'a' && c@.take(5)[2] == 's');
                assert(c@.take(5)[3] == 'k' && c@.take(5)[4] == '_');
            }
        }
        return None;
    }
    proof {
        assert(c@.take(5) =~= "task_"@);
        assert(c@.subrange(5, n as int) =~= c@.skip(5));
    }
    match parse_u64_at(&c, 5, n) {
        Some(v) => if (v as u128) <= (usize::MAX as u128) {
            Some(v as usize)
        } else {
            None
        },
        None => None,
    }
}

/// The name of position `i` reads back as `i`.
proof fn lemma_label_index(i: usize)
    ensures
        label_index(task_label(i as nat)) == Some(i),
{
    reveal_strlit("task_");
    let c = task_label(i as nat);
    assert(c.take(5) =~= "task_"@);
    assert(c.skip(5) =~= decimal(i as nat));
    lemma_decimal_parses(i as nat);
}

/// When task `i` fires over the ticks from `now` until `end` of a
/// simulation (monotonic nanoseconds since the start).
pub open spec fn sim_fires<Ctx>(
    tasks: Seq<Task<Ctx>>,
    states: Seq<TaskState>,
    now: u64,
    end: u64,
    i: int,
) -> Seq<u64>
    decreases end - now,
{
    let adv = sim_advance(tasks, states, now);
    let t = now + adv;
    if t >= end || adv <= 0 {
        Seq::empty()
    } else {
        let kt = kept_tasks(tasks, states);
        let ks = kept_states(states);
        let wall = (SIM_EPOCH_NANOS + t) as u64;
        let outs = outcomes(kt, ks, t as u64, wall);
        (if 0 <= i < outs.len() && outs[i] is Fired {
            seq![t as u64]
        } else {
            Seq::empty()
        }) + sim_fires(kt, stepped(kt, ks, t as u64, wall), t as u64, end, i)
    }
}

/// The divergence of each fire from its ideal time, in whole microseconds:
/// the `m`-th fire (from zero) is ideally due `(m + 1) * period` after the start.
pub open spec fn divergences_of(fires: Seq<u64>, period: int) -> Seq<i64> {
    Seq::new(fires.len(), |m: int| (fires[m] / 1000 - ((m + 1) * period) / 1000) as i64)
}

/// The pairs of period and window of named task descriptions.
pub open spec fn pairs_of(tasks: Seq<(String, Duration, Window)>) -> Seq<(Duration, Window)> {
    Seq::new(tasks.len(), |i: int| (tasks[i].1, tasks[i].2))
}

/// The largest sum of period, early window side and simulated time a
/// tracked task may have, in nanoseconds: the ideal times then stay in `u64`.
pub const TRACKING_LIMIT_NANOS: u64 = 0x8000_0000_0000_0000;

/// What a tracking simulation found out about one task.
pub struct TaskStats {
    pub name: String,
    pub period: Duration,
    pub window: Window,
    pub fire_count: usize,
    /// Actual minus ideal fire time of each fire, in microseconds.
    pub divergences: Vec<i64>,
}

/// The outcome of a tracking simulation.
pub struct SimulationResult {
    pub scenario_name: String,
    pub total_wakeups: usize,
    pub simulation_duration: Duration,
    pub task_stats: Vec<TaskStats>,
}

/// The sum of `s`.
pub open spec fn sum_of(s: Seq<i64>) -> int
    decreases s.len(),
{
    if s.len() == 0 {
        0
    } else {
        sum_of(s.drop_last()) + s.last()
    }
}

/// The largest value of `s`, zero when `s` is empty.
pub open spec fn largest(s: Seq<i64>) -> int
    decreases s.len(),
{
    if s.len() == 0 {
        0
    } else if s.len() == 1 {
        s[0] as int
    } else if s.last() > largest(s.drop_last()) {
        s.last() as int
    } else {
        largest(s.drop_last())
    }
}

/// The smallest value of `s`, zero when `s` is empty.
pub open spec fn smallest(s: Seq<i64>) -> int
    decreases s.len(),
{
    if s.len() == 0 {
        0
    } else if s.len() == 1 {
        s[0] as int
    } else if s.last() < smallest(s.drop_last()) {
        s.last() as int
    } else {
        smallest(s.drop_last())
    }
}

/// How many divergences the tasks recorded in all.
pub open spec fn divergence_count(stats: Seq<TaskStats>) -> int
    decreases stats.len(),
{
    if stats.len() == 0 {
        0
    } else {
        divergence_count(stats.drop_last()) + stats.last().divergences@.len()
    }
}

/// The sum of every divergence of every task.
pub open spec fn divergence_total(stats: Seq<TaskStats>) -> int
    decreases stats.len(),
{
    if stats.len() == 0 {
        0
    } else {
        divergence_total(stats.drop_last()) + sum_of(stats.last().divergences@)
    }
}

/// The largest of the tasks' largest divergences (a task without any
/// counting as zero), zero when there is no task.
pub open spec fn largest_over(stats: Seq<TaskStats>) -> int
    decreases stats.len(),
{
    if stats.len() == 0 {
        0
    } else if stats.len() == 1 {
        largest(stats[0].divergences@)
    } else if largest(stats.last().divergences@) > largest_over(stats.drop_last()) {
        largest(stats.last().divergences@)
    } else {
        largest_over(stats.drop_last())
    }
}

/// Every partial sum of `s` stays within `len * 2^63` of zero.
proof fn lemma_sum_bound(s: Seq<i64>)
    ensures
        -(s.len() * 0x8000_0000_0000_0000) <= sum_of(s) <= s.len() * 0x8000_0000_0000_0000,
    decreases s.len(),
{
    if s.len() > 0 {
        lemma_sum_bound(s.drop_last());
    }
}

impl TaskStats {
    /// The sum of the task's divergences, in microseconds; the average
    /// divergence is this over `divergences.len()`.
    pub fn divergence_sum(&self) -> (t: i128)
        requires
            self.divergences@.len() < 0x8000_0000_0000_0000,
        ensures
            t == sum_of(self.divergences@),
    {
        let mut t: i128 = 0;
        let mut i: usize = 0;
        while i < self.divergences.len()
            invariant
                self.divergences@.len() < 0x8000_0000_0000_0000,
                0 <= i <= self.divergences@.len(),
                t == sum_of(self.divergences@.take(i as int)),
            decreases self.divergences@.len() - i,
        {
            proof {
                let prefix = self.divergences@.take(i + 1);
                assert(prefix.drop_last() =~= self.divergences@.take(i as int));
                lemma_sum_bound(prefix);
                assert(prefix.len() * 0x8000_0000_0000_0000 <= 0x4000_0000_0000_0000_0000_0000_0000_0000int) by (nonlinear_arith)
                    requires
                        prefix.len() <= 0x8000_0000_0000_0000int,
                ;
            }
            t = t + self.divergences[i] as i128;
            i += 1;
        }
        proof {
            assert(self.divergences@.take(i as int) =~= self.divergences@);
        }
        t
    }

    /// The task's largest divergence, in microseconds; zero when it never fired.
    pub fn max_divergence_micros(&self) -> (m: i64)
        ensures
            m == largest(self.divergences@),
    {
        let n = self.divergences.len();
        if n == 0 {
            return 0;
        }
        let mut m = self.divergences[0];
        let mut i: usize = 1;
        while i < n
            invariant
                n == self.divergences@.len(),
                1 <= i <= n,
                m == largest(self.divergences@.take(i as int)),
            decreases n - i,
        {
            proof {
                let prefix = self.divergences@.take(i + 1);
                assert(prefix.drop_last() =~= self.divergences@.take(i as int));
            }
            if self.divergences[i] > m {
                m = self.divergences[i];
            }
            i += 1;
        }
        proof {
            assert(self.divergences@.take(i as int) =~= self.divergences@);
        }
        m
    }

    /// The task's smallest divergence, in microseconds; zero when it never fired.
    pub fn min_divergence_micros(&self) -> (m: i64)
        ensures
            m == smallest(self.divergences@),
    {
        let n = self.divergences.len();
        if n == 0 {
            return 0;
        }
        let mut m = self.divergences[0];
        let mut i: usize = 1;
        while i < n
            invariant
                n == self.divergences@.len(),
                1 <= i <= n,
                m == smallest(self.divergences@.take(i as int)),
            decreases n - i,
        {
            proof {
                let prefix = self.divergences@.take(i + 1);
                assert(prefix.drop_last() =~= self.divergences@.take(i as int));
            }
            if self.divergences[i] < m {
                m = self.divergences[i];
            }
            i += 1;
        }
        proof {
            assert(self.divergences@.take(i as int) =~= self.divergences@);
        }
        m
    }
}

impl SimulationResult {
    /// How many divergences the tasks recorded in all.
    pub fn divergence_count(&self) -> (n: u64)
        requires
            divergence_count(self.task_stats@) < 0x8000_0000_0000_0000,
        ensures
            n == divergence_count(self.task_stats@),
    {
        let mut n: u64 = 0;
        let mut i: usize = 0;
        while i < self.task_stats.len()
            invariant
                divergence_count(self.task_stats@) < 0x8000_0000_0000_0000,
                0 <= i <= self.task_stats@.len(),
                n == divergence_count(self.task_stats@.take(i as int)),
            decreases self.task_stats@.len() - i,
        {
            proof {
                let prefix = self.task_stats@.take(i + 1);
                assert(prefix.drop_last() =~= self.task_stats@.take(i as int));
                lemma_count_prefix(self.task_stats@, i + 1);
            }
            n = n + self.task_stats[i].divergences.len() as u64;
            i += 1;
        }
        proof {
            assert(self.task_stats@.take(i as int) =~= self.task_stats@);
        }
        n
    }

    /// The sum of every divergence of every task, in microseconds; the
    /// average divergence is this over `divergence_count`.
    pub fn divergence_total(&self) -> (t: i128)
        requires
            divergence_count(self.task_stats@) < 0x8000_0000_0000_0000,
        ensures
            t == divergence_total(self.task_stats@),
    {
        let mut t: i128 = 0;
        let mut i: usize = 0;
        while i < self.task_stats.len()
            invariant
                divergence_count(self.task_stats@) < 0x8000_0000_0000_0000,
                0 <= i <= self.task_stats@.len(),
                t == divergence_total(self.task_stats@.take(i as int)),
                -(divergence_count(self.task_stats@.take(i as int)) * 0x8000_0000_0000_0000) <= t
                    <= divergence_count(self.task_stats@.take(i as int)) * 0x8000_0000_0000_0000,
            decreases self.task_stats@.len() - i,
        {
            let ghost prefix = self.task_stats@.take(i + 1);
            proof {
                assert(prefix.drop_last() =~= self.task_stats@.take(i as int));
                lemma_count_prefix(self.task_stats@, i + 1);
                lemma_sum_bound(self.task_stats@[i as int].divergences@);
                assert(prefix.last() == self.task_stats@[i as int]);
                let c = divergence_count(prefix);
                let c0 = divergence_count(self.task_stats@.take(i as int));
                let l = self.task_stats@[i as int].divergences@.len();
                assert(c == c0 + l);
                assert(c0 * 0x8000_0000_0000_0000 + l * 0x8000_0000_0000_0000 == c
                    * 0x8000_0000_0000_0000) by (nonlinear_arith)
                    requires
                        c == c0 + l,
                ;
                assert(c * 0x8000_0000_0000_0000 <= 0x4000_0000_0000_0000_0000_0000_0000_0000int) by (nonlinear_arith)
                    requires
                        0 <= c <= 0x8000_0000_0000_0000int,
                ;
            }
            let s = self.task_stats[i].divergence_sum();
            t = t + s;
            i += 1;
        }
        proof {
            assert(self.task_stats@.take(i as int) =~= self.task_stats@);
        }
        t
    }

    /// The largest divergence of any task, in microseconds (a task that
    /// never fired counting as zero); zero when there is no task.
    pub fn max_divergence_micros(&self) -> (m: i64)
        ensures
            m == largest_over(self.task_stats@),
    {
        let n = self.task_stats.len();
        if n == 0 {
            return 0;
        }
        let mut m = self.task_stats[0].max_divergence_micros();
        let mut i: usize = 1;
        while i < n
            invariant
                n == self.task_stats@.len(),
                1 <= i <= n,
                m == largest_over(self.task_stats@.take(i as int)),
            decreases n - i,
        {
            proof {
                let prefix = self.task_stats@.take(i + 1);
                assert(prefix.drop_last() =~= self.task_stats@.take(i as int));
                assert(prefix.last() == self.task_stats@[i as int]);
            }
            let x = self.task_stats[i].max_divergence_micros();
            if x > m {
                m = x;
            }
            i += 1;
        }
        proof {
            assert(self.task_stats@.take(i as int) =~= self.task_stats@);
        }
        m
    }
}

/// The count of a prefix never exceeds the count of the whole.
proof fn lemma_count_prefix(stats: Seq<TaskStats>, k: int)
    requires
        0 <= k <= stats.len(),
    ensures
        0 <= divergence_count(stats.take(k)) <= divergence_count(stats),
    decreases stats.len() - k,
{
    if k < stats.len() {
        lemma_count_prefix(stats, k + 1);
        assert(stats.take(k + 1).drop_last() =~= stats.take(k));
    } else {
        assert(stats.take(k) =~= stats);
    }
    lemma_count_nonneg(stats.take(k));
}

proof fn lemma_count_nonneg(stats: Seq<TaskStats>)
    ensures
        divergence_count(stats) >= 0,
    decreases stats.len(),
{
    if stats.len() > 0 {
        lemma_count_nonneg(stats.drop_last());
    }
}

/// The moment a relative task's period is measured from.
pub open spec fn anchor_of(st: TaskState) -> u64 {
    match st.last_fired {
        Some(m) => m.0,
        None => st.added_at.0,
    }
}

proof fn lemma_next_multiple(c: int, p: int)
    ensures
        (c + 1) * p == c * p + p,
{
    vstd::arithmetic::mul::lemma_mul_is_distributive_add_other_way(p, c, 1);
}

/// Nothing is evicted while every task repeats forever.
proof fn lemma_nothing_evicted<Ctx>(tasks: Seq<Task<Ctx>>, states: Seq<TaskState>)
    requires
        tasks.len() == states.len(),
        forall|i: int| 0 <= i < states.len() ==> (#[trigger] states[i]).remaining == Repeat::Forever,
    ensures
        kept_tasks(tasks, states) == tasks,
        kept_states(states) == states,
    decreases tasks.len(),
{
    if tasks.len() > 0 {
        lemma_nothing_evicted(tasks.drop_last(), states.drop_last());
        assert(tasks.drop_last().push(tasks.last()) =~= tasks);
        assert(states.drop_last().push(states.last()) =~= states);
    }
}

/// The positions `fired_indices` lists: in range, increasing, each a fired
/// outcome, and every fired outcome among them.
proof fn lemma_fired_indices(o: Seq<Outcome>)
    ensures
        forall|k: int|
            0 <= k < fired_indices(o).len() ==> 0 <= #[trigger] fired_indices(o)[k] < o.len()
                && o[fired_indices(o)[k]] is Fired,
        forall|k: int, l: int|
            0 <= k < l < fired_indices(o).len() ==> #[trigger] fired_indices(o)[k]
                < #[trigger] fired_indices(o)[l],
        forall|i: int|
            0 <= i < o.len() && (#[trigger] o[i]) is Fired ==> exists|k: int|
                0 <= k < fired_indices(o).len() && fired_indices(o)[k] == i,
    decreases o.len(),
{
    if o.len() > 0 {
        let p = o.drop_last();
        lemma_fired_indices(p);
        assert forall|i: int| 0 <= i < o.len() && (#[trigger] o[i]) is Fired implies exists|k: int|
            0 <= k < fired_indices(o).len() && fired_indices(o)[k] == i by {
            if i < o.len() - 1 {
                assert(p[i] == o[i]);
                let k = choose|k: int| 0 <= k < fired_indices(p).len() && fired_indices(p)[k] == i;
                assert(fired_indices(o)[k] == i);
            } else {
                assert(fired_indices(o)[fired_indices(o).len() - 1] == i);
            }
        }
        assert forall|k: int|
            0 <= k < fired_indices(o).len() implies 0 <= #[trigger] fired_indices(o)[k] < o.len()
            && o[fired_indices(o)[k]] is Fired by {
            if k < fired_indices(p).len() {
                assert(p[fired_indices(p)[k]] == o[fired_indices(p)[k]]);
            }
        }
    }
}

/// One tick of a tracked fixed-rate task that has fired `c` times: it
/// keeps repeating forever, and the ideal time of its next fire, `(c + 1)`
/// periods from the start, stays at or before its anchor; a fire happens
/// no sooner than `early` before that ideal time.
proof fn lemma_tracked_step(
    p: Duration,
    w: Window,
    st: TaskState,
    c: nat,
    now: u64,
    wall: u64,
    end: u64,
)
    requires
        st.remaining == Repeat::Forever,
        st.added_at.0 == 0,
        c * duration_nanos(p) <= anchor_of(st),
        anchor_of(st) <= end + duration_nanos(w.early),
        duration_nanos(p) + duration_nanos(w.early) + end <= TRACKING_LIMIT_NANOS,
        now < end,
    ensures
        ({
            let tt = TaskType::Relative { period: p, window: w, schedule: PeriodicSchedule::FixedRate };
            let (st2, o) = step(tt, st, now, wall);
            &&& st2.remaining == Repeat::Forever
            &&& st2.added_at.0 == 0
            &&& anchor_of(st2) <= end + duration_nanos(w.early)
            &&& o is Fired ==> (c + 1) * duration_nanos(p) <= now + duration_nanos(w.early)
                && (c + 1) * duration_nanos(p) <= anchor_of(st2)
            &&& !(o is Fired) ==> c * duration_nanos(p) <= anchor_of(st2)
        }),
{
    lemma_next_multiple(c as int, duration_nanos(p) as int);
}

/// Handling the `j`-th fired position does not change whether another
/// position counts as handled: fired positions come in increasing order.
proof fn lemma_handled_unchanged(fi: Seq<int>, outs: Seq<Outcome>, j: int, x: int)
    requires
        0 <= j < fi.len(),
        forall|m: int, l: int| 0 <= m < l < fi.len() ==> #[trigger] fi[m] < #[trigger] fi[l],
        forall|k: int|
            0 <= k < outs.len() && (#[trigger] outs[k]) is Fired ==> exists|m: int|
                0 <= m < fi.len() && fi[m] == k,
        0 <= x < outs.len(),
        x != fi[j],
    ensures
        (outs[x] is Fired && x <= fi[j]) == (outs[x] is Fired && (j > 0 && x <= fi[j - 1])),
{
    if outs[x] is Fired {
        let m = choose|m: int| 0 <= m < fi.len() && fi[m] == x;
        if m < j {
            if m < j - 1 {
                assert(fi[m] < fi[j - 1]);
            }
            assert(fi[m] < fi[j]);
        } else {
            assert(m > j);
            assert(fi[j] < fi[m]);
            if j > 0 {
                assert(fi[j - 1] < fi[j]);
            }
        }
    }
}

/// Runs a scheduler over simulated time as `simulate_scheduler` does,
/// naming task `i` `task_<i>`, and records for every task when it fired
/// against its ideal times (multiples of its period from the start): the
/// number of fires and, for each, actual minus ideal in microseconds.
#[verifier::rlimit(60)]
#[verifier::spinoff_prover]
pub fn simulate_with_tracking(tasks: Vec<(String, Duration, Window)>, simulation_duration: Duration) -> (r:
    SimulationResult)
    requires
        duration_nanos(simulation_duration) <= u64::MAX - SIM_EPOCH_NANOS,
        forall|i: int|
            0 <= i < tasks@.len() ==> duration_nanos((#[trigger] tasks@[i]).1) + duration_nanos(
                tasks@[i].2.early,
            ) + duration_nanos(simulation_duration) <= TRACKING_LIMIT_NANOS,
    ensures
        r.scenario_name@ == "Simulation"@,
        r.simulation_duration == simulation_duration,
        r.task_stats@.len() == tasks@.len(),
        exists|tt: Seq<Task<()>>|
            #![trigger tt.len()]
            {
                let end = duration_nanos(simulation_duration) as u64;
                let start = sim_start(pairs_of(tasks@));
                &&& tt.len() == tasks@.len()
                &&& forall|i: int|
                    0 <= i < tt.len() ==> (#[trigger] tt[i]).task_type == sim_task(
                        pairs_of(tasks@)[i],
                    ).task_type
                &&& r.total_wakeups == capped_count(sim_wakeups(tt, start, 0, end))
                &&& forall|i: int|
                    0 <= i < tasks@.len() ==> {
                        let f = sim_fires(tt, start, 0, end, i);
                        &&& (#[trigger] r.task_stats@[i]).name == tasks@[i].0
                        &&& r.task_stats@[i].period == tasks@[i].1
                        &&& r.task_stats@[i].window == tasks@[i].2
                        &&& r.task_stats@[i].fire_count == f.len()
                        &&& r.task_stats@[i].divergences@ == divergences_of(
                            f,
                            duration_nanos(tasks@[i].1) as int,
                        )
                    }
            },
{
    let n = tasks.len();
    let ghost pairs = pairs_of(tasks@);
    let ghost end_spec = duration_nanos(simulation_duration) as u64;
    let mut scheduler: Scheduler<(), SimClock> = Scheduler::new_with_clock(SimClock::new());
    let mut stats: Vec<TaskStats> = Vec::new();
    let mut ideal: Vec<u64> = Vec::new();
    let mut i: usize = 0;
    while i < n
        invariant
            n == tasks@.len(),
            pairs == pairs_of(tasks@),
            end_spec == duration_nanos(simulation_duration) as u64,
            duration_nanos(simulation_duration) <= u64::MAX - SIM_EPOCH_NANOS,
            forall|k: int|
                0 <= k < n ==> duration_nanos((#[trigger] tasks@[k]).1) + duration_nanos(
                    tasks@[k].2.early,
                ) + duration_nanos(simulation_duration) <= TRACKING_LIMIT_NANOS,
            0 <= i <= n,
            scheduler.wf(),
            duration_nanos(scheduler.spec_timer_delay()) == 0,
            scheduler.spec_tasks().len() == i,
            scheduler.spec_states() == sim_start(pairs).take(i as int),
            forall|k: int|
                0 <= k < i ==> {
                    &&& (#[trigger] scheduler.spec_tasks()[k]).task_type == sim_task(
                        pairs[k],
                    ).task_type
                    &&& scheduler.spec_tasks()[k].name matches Some(s) && s@ == task_label(k as nat)
                },
            stats@.len() == i,
            ideal@.len() == i,
            forall|k: int|
                0 <= k < i ==> {
                    &&& (#[trigger] stats@[k]).name == tasks@[k].0
                    &&& stats@[k].period == tasks@[k].1
                    &&& stats@[k].window == tasks@[k].2
                    &&& stats@[k].fire_count == 0
                    &&& stats@[k].divergences@.len() == 0
                    &&& ideal@[k] == duration_nanos(tasks@[k].1)
                },
        decreases n - i,
    {
        let period = tasks[i].1;
        let window = tasks[i].2;
        let name = tasks[i].0.clone();
        proof {
            assert(duration_nanos(tasks@[i as int].1) <= TRACKING_LIMIT_NANOS);
        }
        let built = TaskBuilder::every(period, window).build();
        let mut task = match built {
            Ok(t) => t,
            Err(_) => {
                proof {
                    assert(false);
                }
                vstd::pervasive::unreached()
            },
        };
        task.name = Some(task_label_of(i));
        let ghost before_tasks = scheduler.spec_tasks();
        let _ = scheduler.add_task_at(task, MonoInstant(0), WallInstant(SIM_EPOCH_NANOS));
        proof {
            assert(sim_start(pairs).take(i + 1) =~= sim_start(pairs).take(i as int).push(
                sim_start(pairs)[i as int],
            ));
            assert forall|k: int| 0 <= k < i + 1 implies {
                &&& (#[trigger] scheduler.spec_tasks()[k]).task_type == sim_task(
                    pairs[k],
                ).task_type
                &&& scheduler.spec_tasks()[k].name matches Some(s) && s@ == task_label(k as nat)
            } by {
                if k < i {
                    assert(scheduler.spec_tasks()[k] == before_tasks[k]);
                }
            }
        }
        stats.push(
            TaskStats { name, period, window, fire_count: 0, divergences: Vec::new() },
        );
        ideal.push(period.as_nanos() as u64);
        i += 1;
    }
    proof {
        assert(sim_start(pairs).take(n as int) =~= sim_start(pairs));
    }
    let ghost tasks0 = scheduler.spec_tasks();
    let ghost states0 = scheduler.spec_states();
    let end: u64 = simulation_duration.as_nanos() as u64;
    let ghost total = sim_wakeups(tasks0, states0, 0, end);
    let ghost total_fires: Seq<Seq<u64>> = Seq::new(
        n as nat,
        |k: int| sim_fires(tasks0, states0, 0, end, k),
    );
    let ghost mut done_wakeups: nat = 0;
    let ghost mut done: Seq<Seq<u64>> = Seq::new(n as nat, |k: int| Seq::<u64>::empty());
    let mut now: u64 = 0;
    let mut wakeups: usize = 0;
    proof {
        assert forall|k: int| 0 <= k < n implies #[trigger] done[k] + sim_fires(
            tasks0,
            states0,
            0,
            end,
            k,
        ) == total_fires[k] by {
            assert(done[k] + sim_fires(tasks0, states0, 0, end, k) =~= sim_fires(
                tasks0,
                states0,
                0,
                end,
                k,
            ));
        }
    }
    proof {
        assert forall|k: int| 0 <= k < n implies {
            &&& (#[trigger] stats@[k]).name == tasks@[k].0
            &&& stats@[k].period == tasks@[k].1
            &&& stats@[k].window == tasks@[k].2
            &&& stats@[k].fire_count == done[k].len()
            &&& stats@[k].divergences@ == divergences_of(
                done[k],
                duration_nanos(tasks@[k].1) as int,
            )
            &&& ideal@[k] == (done[k].len() + 1) * duration_nanos(tasks@[k].1)
            &&& done[k] + sim_fires(tasks0, scheduler.spec_states(), now, end, k)
                == total_fires[k]
        } by {
            assert(stats@[k].divergences@.len() == 0);
            assert(done[k] == Seq::<u64>::empty());
            assert(stats@[k].divergences@ =~= divergences_of(
                done[k],
                duration_nanos(tasks@[k].1) as int,
            ));
            assert(done[k] + sim_fires(tasks0, states0, 0, end, k) == total_fires[k]);
            assert(stats@[k].fire_count == done[k].len());
            assert((done[k].len() + 1) * duration_nanos(tasks@[k].1) == duration_nanos(
                tasks@[k].1,
            )) by (nonlinear_arith)
                requires
                    done[k].len() == 0,
            ;
            assert(done[k] + sim_fires(tasks0, scheduler.spec_states(), now, end, k)
                == total_fires[k]);
        }
    }
    while now < end
        invariant
            n == tasks@.len(),
            pairs == pairs_of(tasks@),
            end == duration_nanos(simulation_duration),
            end <= u64::MAX - SIM_EPOCH_NANOS,
            forall|k: int|
                0 <= k < n ==> duration_nanos((#[trigger] tasks@[k]).1) + duration_nanos(
                    tasks@[k].2.early,
                ) + end <= TRACKING_LIMIT_NANOS,
            now <= end,
            scheduler.wf(),
            duration_nanos(scheduler.spec_timer_delay()) == 0,
            scheduler.spec_tasks() == tasks0,
            scheduler.spec_states().len() == n,
            tasks0.len() == n,
            forall|k: int|
                0 <= k < n ==> {
                    &&& (#[trigger] tasks0[k]).task_type == sim_task(pairs[k]).task_type
                    &&& tasks0[k].name matches Some(s) && s@ == task_label(k as nat)
                },
            forall|k: int|
                0 <= k < n ==> {
                    let st = #[trigger] scheduler.spec_states()[k];
                    &&& st.remaining == Repeat::Forever
                    &&& st.added_at.0 == 0
                    &&& stats@[k].fire_count * duration_nanos(tasks@[k].1) <= anchor_of(st)
                    &&& anchor_of(st) <= end + duration_nanos(tasks@[k].2.early)
                },
            stats@.len() == n,
            ideal@.len() == n,
            done.len() == n,
            total_fires.len() == n,
            forall|k: int|
                0 <= k < n ==> {
                    &&& (#[trigger] stats@[k]).name == tasks@[k].0
                    &&& stats@[k].period == tasks@[k].1
                    &&& stats@[k].window == tasks@[k].2
                    &&& stats@[k].fire_count == done[k].len()
                    &&& stats@[k].divergences@ == divergences_of(
                        done[k],
                        duration_nanos(tasks@[k].1) as int,
                    )
                    &&& ideal@[k] == (done[k].len() + 1) * duration_nanos(tasks@[k].1)
                    &&& done[k] + sim_fires(tasks0, scheduler.spec_states(), now, end, k)
                        == total_fires[k]
                },
            done_wakeups + sim_wakeups(tasks0, scheduler.spec_states(), now, end) == total,
            wakeups == capped_count(done_wakeups),
        ensures
            wakeups == capped_count(total),
            forall|k: int|
                0 <= k < n ==> {
                    &&& (#[trigger] stats@[k]).name == tasks@[k].0
                    &&& stats@[k].period == tasks@[k].1
                    &&& stats@[k].window == tasks@[k].2
                    &&& stats@[k].fire_count == total_fires[k].len()
                    &&& stats@[k].divergences@ == divergences_of(
                        total_fires[k],
                        duration_nanos(tasks@[k].1) as int,
                    )
                },
        decreases end - now,
    {
        let next = scheduler.next_tick_at(MonoInstant(now), WallInstant(SIM_EPOCH_NANOS + now));
        let step_nanos: u64 = match next {
            Some(d) => {
                let x = d.as_nanos();
                if x > 0 {
                    x as u64
                } else {
                    SIM_MIN_STEP_NANOS
                }
            },
            None => SIM_MIN_STEP_NANOS,
        };
        let ghost states_before = scheduler.spec_states();
        assert(step_nanos == sim_advance(tasks0, states_before, now));
        if step_nanos >= end - now {
            proof {
                assert forall|k: int| 0 <= k < n implies done[k] == total_fires[k] by {
                    assert(stats@[k].name == tasks@[k].0);
                    assert(sim_fires(tasks0, states_before, now, end, k) =~= Seq::<u64>::empty());
                    assert(done[k] + Seq::<u64>::empty() =~= done[k]);
                }
            }
            break;
        }
        now = now + step_nanos;
        let wall = SIM_EPOCH_NANOS + now;
        proof {
            lemma_nothing_evicted(tasks0, states_before);
        }
        let r = scheduler.tick_at(MonoInstant(now), WallInstant(wall));
        let ghost outs = outcomes(tasks0, states_before, now, wall);
        let ghost fi = fired_indices(outs);
        proof {
            lemma_fired_indices(outs);
        }
        let fired_any = r.fired.len() > 0;
        let actual_micros: i64 = (now / 1000) as i64;
        let ghost done_before = done;
        let ghost stats_before = stats@;
        proof {
            assert forall|k: int| 0 <= k < n && (#[trigger] outs[k]) is Fired implies (
            done_before[k].len() + 1) * duration_nanos(tasks@[k].1) <= now + duration_nanos(
                tasks@[k].2.early,
            ) by {
                assert(stats@[k].fire_count == done[k].len());
                assert(tasks0[k].task_type == sim_task(pairs[k]).task_type);
                lemma_tracked_step(
                    tasks@[k].1,
                    tasks@[k].2,
                    states_before[k],
                    done_before[k].len(),
                    now,
                    wall,
                    end,
                );
            }
            assert forall|k: int| 0 <= k < n implies (#[trigger] stats_before[k]).period
                == tasks@[k].1 by {
                assert(stats@[k].period == tasks@[k].1);
            }
        }
        let mut j: usize = 0;
        while j < r.fired.len()
            invariant
                n == tasks@.len(),
                0 <= j <= r.fired@.len(),
                r.fired@.len() == fi.len(),
                outs.len() == n,
                actual_micros == now / 1000,
                now < end,
                tasks0.len() == n,
                forall|k: int|
                    0 <= k < n ==> ((#[trigger] tasks0[k]).name matches Some(s) && s@ == task_label(
                        k as nat,
                    )),
                forall|m: int|
                    0 <= m < fi.len() ==> *(#[trigger] r.fired@[m]).task == tasks0[fi[m]],
                forall|m: int|
                    0 <= m < fi.len() ==> 0 <= #[trigger] fi[m] < n && outs[fi[m]] is Fired,
                forall|m: int, l: int|
                    0 <= m < l < fi.len() ==> #[trigger] fi[m] < #[trigger] fi[l],
                forall|k: int| 0 <= k < n && (#[trigger] outs[k]) is Fired ==> exists|m: int|
                    0 <= m < fi.len() && fi[m] == k,
                stats@.len() == n,
                ideal@.len() == n,
                done.len() == n,
                done_before.len() == n,
                stats_before.len() == n,
                forall|k: int|
                    0 <= k < n ==> (#[trigger] stats_before[k]).period == tasks@[k].1,
                forall|k: int|
                    0 <= k < n && (#[trigger] outs[k]) is Fired ==> (done_before[k].len() + 1)
                        * duration_nanos(tasks@[k].1) <= now + duration_nanos(tasks@[k].2.early),
                forall|k: int|
                    0 <= k < n ==> duration_nanos((#[trigger] tasks@[k]).1) + duration_nanos(
                        tasks@[k].2.early,
                    ) + end <= TRACKING_LIMIT_NANOS,
                end == duration_nanos(simulation_duration),
                forall|k: int|
                    0 <= k < n ==> {
                        let updated = outs[k] is Fired && (j > 0 && k <= fi[j - 1]);
                        &&& (#[trigger] stats@[k]).name == stats_before[k].name
                        &&& stats@[k].period == stats_before[k].period
                        &&& stats@[k].window == stats_before[k].window
                        &&& done[k] == if updated {
                            done_before[k].push(now)
                        } else {
                            done_before[k]
                        }
                        &&& stats@[k].fire_count == done[k].len()
                        &&& stats@[k].divergences@ == divergences_of(
                            done[k],
                            duration_nanos(stats_before[k].period) as int,
                        )
                        &&& ideal@[k] == (done[k].len() + 1) * duration_nanos(stats_before[k].period)
                    },
            decreases r.fired@.len() - j,
        {
            let exec = &r.fired[j];
            let ghost k = fi[j as int];
            let ghost stats_iter = stats@;
            let ghost ideal_iter = ideal@;
            let ghost done_iter = done;
            proof {
                lemma_label_index(k as usize);
                assert(*exec.task == tasks0[k]);
                assert(outs[k] is Fired);
                assert(stats@[k].name == stats_before[k].name);
                assert(done[k] == done_before[k]) by {
                    if j > 0 {
                        assert(fi[j - 1] < fi[j as int]);
                    }
                }
                assert(ideal@[k] <= now + duration_nanos(tasks@[k].2.early));
            }
            let name = match &exec.task.name {
                Some(name) => name,
                None => {
                    proof {
                        assert(false);
                    }
                    vstd::pervasive::unreached()
                },
            };
            let idx = match index_of_label(name) {
                Some(idx) => idx,
                None => {
                    proof {
                        assert(false);
                    }
                    vstd::pervasive::unreached()
                },
            };
            if idx < stats.len() {
                let p = stats[idx].period.as_nanos() as u64;
                let ideal_micros = (ideal[idx] / 1000) as i64;
                let divergence = actual_micros - ideal_micros;
                let mut st = stats.remove(idx);
                st.divergences.push(divergence);
                st.fire_count = st.divergences.len();
                stats.insert(idx, st);
                let next_ideal = ideal[idx] + p;
                ideal.set(idx, next_ideal);
                proof {
                    done = done.update(k, done[k].push(now));
                    lemma_next_multiple(
                        (done_iter[k].len() + 1) as int,
                        duration_nanos(stats_before[k].period) as int,
                    );
                    assert(stats@[k].divergences@ =~= divergences_of(
                        done[k],
                        duration_nanos(stats_before[k].period) as int,
                    ));
                    assert(stats@ =~= stats_iter.update(k, stats@[k]));
                    assert(ideal@ =~= ideal_iter.update(k, ideal@[k]));
                    assert forall|x: int| 0 <= x < n implies {
                        let updated = outs[x] is Fired && (j + 1 > 0 && x <= fi[j as int]);
                        &&& (#[trigger] stats@[x]).name == stats_before[x].name
                        &&& stats@[x].period == stats_before[x].period
                        &&& stats@[x].window == stats_before[x].window
                        &&& done[x] == if updated {
                            done_before[x].push(now)
                        } else {
                            done_before[x]
                        }
                        &&& stats@[x].fire_count == done[x].len()
                        &&& stats@[x].divergences@ == divergences_of(
                            done[x],
                            duration_nanos(stats_before[x].period) as int,
                        )
                        &&& ideal@[x] == (done[x].len() + 1) * duration_nanos(
                            stats_before[x].period,
                        )
                    } by {
                        if x != k {
                            assert(stats@[x] == stats_iter[x]);
                            assert(ideal@[x] == ideal_iter[x]);
                            assert(done[x] == done_iter[x]);
                            assert(stats_iter[x].name == stats_before[x].name);
                            lemma_handled_unchanged(fi, outs, j as int, x);
                        }
                    }
                }
            } else {
                proof {
                    assert(false);
                }
            }
            j += 1;
        }
        proof {
            done_wakeups = done_wakeups + if fired_any {
                1nat
            } else {
                0nat
            };
            let new_states = scheduler.spec_states();
            assert(new_states == stepped(tasks0, states_before, now, wall));
            assert forall|k: int|
                #![trigger scheduler.spec_states()[k]]
                #![trigger stats@[k]]
                0 <= k < n implies {
                let st = scheduler.spec_states()[k];
                &&& st.remaining == Repeat::Forever
                &&& st.added_at.0 == 0
                &&& stats@[k].fire_count * duration_nanos(tasks@[k].1) <= anchor_of(st)
                &&& anchor_of(st) <= end + duration_nanos(tasks@[k].2.early)
                &&& stats@[k].name == tasks@[k].0
                &&& stats@[k].period == tasks@[k].1
                &&& stats@[k].window == tasks@[k].2
                &&& stats@[k].fire_count == done[k].len()
                &&& stats@[k].divergences@ == divergences_of(
                    done[k],
                    duration_nanos(tasks@[k].1) as int,
                )
                &&& ideal@[k] == (done[k].len() + 1) * duration_nanos(tasks@[k].1)
                &&& done[k] + sim_fires(tasks0, scheduler.spec_states(), now, end, k)
                    == total_fires[k]
            } by {
                assert(stats_before[k].period == tasks@[k].1);
                assert(stats@[k].name == stats_before[k].name);
                assert(tasks0[k].task_type == sim_task(pairs[k]).task_type);
                assert(new_states[k] == step(tasks0[k].task_type, states_before[k], now, wall).0);
                assert(outs[k] == step(tasks0[k].task_type, states_before[k], now, wall).1);
                lemma_tracked_step(
                    tasks@[k].1,
                    tasks@[k].2,
                    states_before[k],
                    done_before[k].len(),
                    now,
                    wall,
                    end,
                );
                if outs[k] is Fired {
                    let m = choose|m: int| 0 <= m < fi.len() && fi[m] == k;
                    if m < fi.len() - 1 {
                        assert(fi[m] < fi[fi.len() - 1]);
                    }
                    assert(done[k] == done_before[k].push(now));
                } else {
                    assert(done[k] == done_before[k]);
                }
                let rest_before = sim_fires(tasks0, states_before, (now - step_nanos) as u64, end, k);
                assert(done_before[k] + rest_before == total_fires[k]);
                assert(rest_before == (if outs[k] is Fired {
                    seq![now]
                } else {
                    Seq::<u64>::empty()
                }) + sim_fires(tasks0, new_states, now, end, k));
                assert(done[k] + sim_fires(tasks0, new_states, now, end, k) =~= done_before[k]
                    + rest_before);
            }
        }
        if fired_any && wakeups < usize::MAX {
            wakeups = wakeups + 1;
        }
    }
    let result = SimulationResult {
        scenario_name: "Simulation".to_owned(),
        total_wakeups: wakeups,
        simulation_duration,
        task_stats: stats,
    };
    result
}

} // verus!
