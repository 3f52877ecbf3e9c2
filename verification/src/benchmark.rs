//! The benchmark's bookkeeping: how a run is described, and the integer
//! part of its timing summary (which executions were early, on time or
//! late, the baseline offset, and the worst outliers).

use vstd::prelude::*;
use vstd::relations::{sorted_by, total_ordering};
use std::time::Duration;
use crate::duration::{duration_nanos, sat_add};
use crate::system_time::MonoInstant;

verus! {

/// Which side a comparison of two benchmark runs favours.
#[derive(Debug, Clone, Copy, PartialEq, Eq, Structural)]
pub enum Winner {
    Syncopate,
    System,
    Tie,
}

/// How many metrics each side won in a comparison.
#[derive(Debug, Clone, Copy, PartialEq, Eq, Structural)]
pub struct Tally {
    pub wins: usize,
    pub losses: usize,
    pub ties: usize,
}

/// How many of the first `n` comparisons went to `w`.
pub open spec fn count_winner(winners: Seq<Winner>, w: Winner) -> nat
    decreases winners.len(),
{
    if winners.len() == 0 {
        0
    } else {
        count_winner(winners.drop_last(), w) + if winners.last() == w {
            1nat
        } else {
            0nat
        }
    }
}

/// Counts the comparisons syncopate won (`wins`), the system won
/// (`losses`) and neither won (`ties`).
pub fn tally(winners: &Vec<Winner>) -> (t: Tally)
    ensures
        t.wins == count_winner(winners@, Winner::Syncopate),
        t.losses == count_winner(winners@, Winner::System),
        t.ties == count_winner(winners@, Winner::Tie),
        t.wins + t.losses + t.ties == winners@.len(),
{
    let mut t = Tally { wins: 0, losses: 0, ties: 0 };
    let mut i: usize = 0;
    while i < winners.len()
        invariant
            0 <= i <= winners@.len(),
            t.wins == count_winner(winners@.take(i as int), Winner::Syncopate),
            t.losses == count_winner(winners@.take(i as int), Winner::System),
            t.ties == count_winner(winners@.take(i as int), Winner::Tie),
            t.wins + t.losses + t.ties == i,
        decreases winners@.len() - i,
    {
        proof {
            assert(winners@.take(i + 1).drop_last() =~= winners@.take(i as int));
            assert(winners@.take(i + 1).last() == winners@[i as int]);
        }
        match winners[i] {
            Winner::Syncopate => {
                t.wins = t.wins + 1;
            },
            Winner::System => {
                t.losses = t.losses + 1;
            },
            Winner::Tie => {
                t.ties = t.ties + 1;
            },
        }
        i += 1;
    }
    proof {
        assert(winners@.take(i as int) =~= winners@);
    }
    t
}

impl Tally {
    /// Which side is better overall: the one with more wins, or neither.
    pub fn overall(&self) -> (w: Winner)
        ensures
            self.wins > self.losses ==> w == Winner::Syncopate,
            self.wins == self.losses ==> w == Winner::Tie,
            self.wins < self.losses ==> w == Winner::System,
    {
        if self.wins > self.losses {
            Winner::Syncopate
        } else if self.wins == self.losses {
            Winner::Tie
        } else {
            Winner::System
        }
    }
}

/// The parameters a benchmark run was made with.
#[derive(Debug, Clone)]
pub struct BenchmarkConfig {
    pub system: String,
    pub scenario: Option<String>,
    pub duration_secs: u64,
    pub timers: usize,
    pub task_period_us: u64,
}

/// What the benchmark loop does after a poll of the scheduler.
#[derive(Debug, Clone, Copy, PartialEq, Eq)]
pub enum LoopAction {
    /// The run has lasted long enough.
    Stop,
    /// Sleep this long, then poll again.
    Sleep(Duration),
    /// Poll again at once.
    PollAgain,
}

/// After a poll that asked to sleep `idle`, `elapsed` into a run meant to
/// last `duration`: stop once the run is over; otherwise sleep for `idle`,
/// but no longer than what is left of the run, or poll again at once when
/// `idle` is zero.
pub fn after_poll(idle: Duration, elapsed: Duration, duration: Duration) -> (a: LoopAction)
    ensures
        duration_nanos(elapsed) >= duration_nanos(duration) ==> a == LoopAction::Stop,
        duration_nanos(elapsed) < duration_nanos(duration) && duration_nanos(idle) == 0 ==> a
            == LoopAction::PollAgain,
        duration_nanos(elapsed) < duration_nanos(duration) && duration_nanos(idle) > 0 ==> (a matches LoopAction::Sleep(d) && duration_nanos(d) == if duration_nanos(idle)
            <= duration_nanos(duration) - duration_nanos(elapsed) {
            duration_nanos(idle) as int
        } else {
            duration_nanos(duration) - duration_nanos(elapsed)
        }),
{
    if elapsed.as_nanos() >= duration.as_nanos() {
        return LoopAction::Stop;
    }
    if idle.as_nanos() == 0 {
        return LoopAction::PollAgain;
    }
    let remaining = duration.saturating_sub(elapsed);
    if idle.as_nanos() <= remaining.as_nanos() {
        LoopAction::Sleep(idle)
    } else {
        LoopAction::Sleep(remaining)
    }
}

/// How many executions `timers` timers of `period` should have made
/// `elapsed` into a run: whole periods elapsed, times the timers.
pub fn expected_executions(elapsed: Duration, period: Duration, timers: usize) -> (n: usize)
    requires
        duration_nanos(period) > 0,
        ((duration_nanos(elapsed) / duration_nanos(period)) as usize) * timers <= usize::MAX,
    ensures
        n == ((duration_nanos(elapsed) / duration_nanos(period)) as usize) * timers,
{
    let periods = (elapsed.as_nanos() / period.as_nanos()) as usize;
    periods * timers
}

/// `expected_executions`, or `None` when the period is zero or the product
/// exceeds `usize::MAX`.
pub fn checked_expected_executions(elapsed: Duration, period: Duration, timers: usize) -> (r:
    Option<usize>)
    ensures
        r is Some <==> duration_nanos(period) > 0 && ((duration_nanos(elapsed) / duration_nanos(
            period,
        )) as usize) * timers <= usize::MAX,
        r matches Some(n) ==> n == ((duration_nanos(elapsed) / duration_nanos(period)) as usize)
            * timers,
{
    if period.as_nanos() == 0 {
        return None;
    }
    let periods = (elapsed.as_nanos() / period.as_nanos()) as usize;
    periods.checked_mul(timers)
}

/// How many periods a timer skipped between two readings: when `expected`
/// whole periods have elapsed and it had reached `previous` before (and had
/// fired at all), the periods in between.
pub fn missed_since(previous: usize, expected: usize) -> (n: usize)
    ensures
        n == if previous > 0 && expected > previous + 1 {
            expected - previous - 1
        } else {
            0
        },
{
    if previous > 0 && expected > previous && expected - previous > 1 {
        expected - previous - 1
    } else {
        0
    }
}

/// The period (counted from the start) that expiration `j` of `expirations`
/// read together belongs to, when `elapsed_periods` whole periods have
/// elapsed: the last expiration is the current period, each earlier one a
/// period before.
pub fn expiration_period(elapsed_periods: usize, expirations: u64, j: u64) -> (p: usize)
    requires
        j < expirations,
        expirations - j - 1 <= elapsed_periods,
    ensures
        p == elapsed_periods - (expirations - j - 1),
{
    let back = (expirations - j - 1) as usize;
    elapsed_periods - back
}

/// How long a plain sleeping timer sleeps when its next tick is `until_next`
/// away: 50 µs less, to wake a little early, and not at all when the tick
/// is at most 100 µs away.
pub fn timer_sleep(until_next: Duration) -> (r: Option<Duration>)
    ensures
        duration_nanos(until_next) <= 100_000 ==> r is None,
        duration_nanos(until_next) > 100_000 ==> (r matches Some(d) && duration_nanos(d)
            == duration_nanos(until_next) - 50_000),
{
    if until_next.as_nanos() > 100_000 {
        Some(until_next.saturating_sub(Duration::from_micros(50)))
    } else {
        None
    }
}

/// Where an execution landed against its window.
#[derive(Debug, Clone, Copy, PartialEq, Eq, Structural)]
pub enum Category {
    Early,
    OnTime,
    Late,
}

/// The category of an execution `delta` microseconds after its ideal time,
/// for a window reaching `before` microseconds before and `after` after it.
pub open spec fn category_of(delta: int, before: int, after: int) -> Category {
    if delta < -before {
        Category::Early
    } else if delta <= after {
        Category::OnTime
    } else {
        Category::Late
    }
}

/// An execution is early exactly when it came more than `before`
/// microseconds ahead of its ideal time, late exactly when it came more than
/// `after` after it, and on time otherwise; an execution exactly on time is
/// on time for any window.
pub proof fn lemma_category_thresholds(delta: int, before: int, after: int)
    requires
        before >= 0,
        after >= 0,
    ensures
        (category_of(delta, before, after) == Category::Early) <==> delta < -before,
        (category_of(delta, before, after) == Category::Late) <==> delta > after,
        (category_of(delta, before, after) == Category::OnTime) <==> -before <= delta <= after,
        category_of(0, before, after) == Category::OnTime,
{
}

/// The name under which a category is reported.
pub open spec fn category_label(c: Category) -> Seq<char> {
    match c {
        Category::Early => "Early"@,
        Category::OnTime => "On-Time"@,
        Category::Late => "Late"@,
    }
}

/// Places an execution `delta` microseconds off its ideal time in its window.
pub fn categorize(delta: i64, window_before_micros: i64, window_after_micros: i64) -> (c: Category)
    ensures
        c == category_of(delta as int, window_before_micros as int, window_after_micros as int),
{
    if (delta as i128) < -(window_before_micros as i128) {
        Category::Early
    } else if delta <= window_after_micros {
        Category::OnTime
    } else {
        Category::Late
    }
}

impl Category {
    /// The category's report name: "Early", "On-Time" or "Late".
    pub fn label(&self) -> (s: String)
        ensures
            s@ == category_label(*self),
    {
        match self {
            Category::Early => {
                proof {
                    reveal_strlit("Early");
                }
                "Early".to_owned()
            },
            Category::OnTime => {
                proof {
                    reveal_strlit("On-Time");
                }
                "On-Time".to_owned()
            },
            Category::Late => {
                proof {
                    reveal_strlit("Late");
                }
                "Late".to_owned()
            },
        }
    }
}

/// The shade that ends a histogram bar `r` quarter blocks past its last
/// full block: light, medium or dark.
pub open spec fn shade(r: int) -> char {
    if r == 1 {
        '░'
    } else if r == 2 {
        '▒'
    } else {
        '▓'
    }
}

/// A histogram bar `len` quarter blocks long: a full block for every four,
/// then the shade of the rest, which is left out once there are ten full blocks.
pub open spec fn bar_text(len: nat) -> Seq<char> {
    Seq::new(len / 4, |i: int| '█') + if len % 4 > 0 && len / 4 < 10 {
        seq![shade((len % 4) as int)]
    } else {
        Seq::empty()
    }
}

/// The bar of a histogram row whose count scales to `len` quarter blocks.
pub fn histogram_bar(len: usize) -> (s: String)
    ensures
        s@ == bar_text(len as nat),
{
    let full = len / 4;
    let rest = len % 4;
    let mut s = String::new();
    let mut i: usize = 0;
    while i < full
        invariant
            full == len / 4,
            0 <= i <= full,
            s@ == Seq::new(i as nat, |k: int| '█'),
        decreases full - i,
    {
        s.push('█');
        i += 1;
        proof {
            assert(s@ =~= Seq::new(i as nat, |k: int| '█'));
        }
    }
    if rest > 0 && full < 10 {
        let c = if rest == 1 {
            '░'
        } else if rest == 2 {
            '▒'
        } else {
            '▓'
        };
        s.push(c);
    }
    proof {
        assert(s@ =~= bar_text(len as nat));
    }
    s
}

/// `actual - ideal` in whole microseconds, rounded toward zero.
pub open spec fn micros_between(actual: u64, ideal: u64) -> int {
    if actual >= ideal {
        (actual - ideal) / 1000
    } else {
        -((ideal - actual) / 1000)
    }
}

/// Each execution's actual minus ideal time, in whole microseconds rounded
/// toward zero; the executions are `(timer id, actual, ideal)`.
pub fn execution_deltas(executions: &Vec<(usize, MonoInstant, MonoInstant)>) -> (d: Vec<i64>)
    ensures
        d@.len() == executions@.len(),
        forall|i: int|
            0 <= i < d@.len() ==> d@[i] == micros_between(
                (#[trigger] executions@[i]).1.0,
                executions@[i].2.0,
            ),
{
    let mut d: Vec<i64> = Vec::new();
    let mut i: usize = 0;
    while i < executions.len()
        invariant
            0 <= i <= executions@.len(),
            d@.len() == i,
            forall|k: int|
                0 <= k < i ==> d@[k] == micros_between(
                    (#[trigger] executions@[k]).1.0,
                    executions@[k].2.0,
                ),
        decreases executions@.len() - i,
    {
        let (_, actual, ideal) = executions[i];
        let delta: i64 = if actual.0 >= ideal.0 {
            ((actual.0 - ideal.0) / 1000) as i64
        } else {
            -(((ideal.0 - actual.0) / 1000) as i64)
        };
        d.push(delta);
        i += 1;
    }
    d
}

/// The highest timer id among the executions, zero when there are none.
pub open spec fn highest_id(executions: Seq<(usize, MonoInstant, MonoInstant)>) -> int
    decreases executions.len(),
{
    if executions.len() == 0 {
        0
    } else if executions.last().0 > highest_id(executions.drop_last()) {
        executions.last().0 as int
    } else {
        highest_id(executions.drop_last())
    }
}

/// How many timers the executions came from, counting timer ids from zero:
/// one more than the highest id.
pub fn timer_count(executions: &Vec<(usize, MonoInstant, MonoInstant)>) -> (n: usize)
    requires
        forall|i: int| 0 <= i < executions@.len() ==> (#[trigger] executions@[i]).0 < usize::MAX,
    ensures
        n == highest_id(executions@) + 1,
{
    let mut highest: usize = 0;
    let mut i: usize = 0;
    while i < executions.len()
        invariant
            0 <= i <= executions@.len(),
            forall|k: int| 0 <= k < executions@.len() ==> (#[trigger] executions@[k]).0 < usize::MAX,
            highest == highest_id(executions@.take(i as int)),
            highest < usize::MAX,
        decreases executions@.len() - i,
    {
        proof {
            assert(executions@.take(i + 1).drop_last() =~= executions@.take(i as int));
            assert(executions@.take(i + 1).last() == executions@[i as int]);
        }
        if executions[i].0 > highest {
            highest = executions[i].0;
        }
        i += 1;
    }
    proof {
        assert(executions@.take(i as int) =~= executions@);
    }
    highest + 1
}

/// The time from the first execution to the last (zero should the last
/// come first), when there are at least two.
pub fn execution_span(executions: &Vec<(usize, MonoInstant, MonoInstant)>) -> (r: Option<Duration>)
    ensures
        r is Some <==> executions@.len() >= 2,
        r matches Some(d) ==> duration_nanos(d) == sat_add(
            executions@.last().1.0 as int,
            -executions@[0].1.0,
        ),
{
    let n = executions.len();
    if n >= 2 {
        Some(executions[n - 1].1.saturating_duration_since(executions[0].1))
    } else {
        None
    }
}

/// Ascending order on `i64`.
pub open spec fn ascending() -> spec_fn(i64, i64) -> bool {
    |a: i64, b: i64| a <= b
}

/// The values of `d` in ascending order.
pub open spec fn sorted_values(d: Seq<i64>) -> Seq<i64> {
    d.sort_by(ascending())
}

/// The baseline offset of a run: its median delta, the one at position
/// `len / 2` once the deltas are sorted (zero for an empty run).
pub open spec fn median_delta(d: Seq<i64>) -> int {
    if d.len() == 0 {
        0
    } else {
        sorted_values(d)[(d.len() / 2) as int] as int
    }
}

proof fn lemma_ascending_is_total()
    ensures
        total_ordering(ascending()),
{
}

/// `slice::sort` on `i64` values: afterwards the values are in ascending
/// order and are the same values, each as often as before.
#[verifier::external_body]
fn sort_values(v: &mut Vec<i64>)
    ensures
        sorted_by(final(v)@, ascending()),
        final(v)@.to_multiset() == old(v)@.to_multiset(),
{
    v.sort();
}

/// The median delta, as `median_delta` defines it.
fn median_of(deltas: &Vec<i64>) -> (m: i64)
    ensures
        m as int == median_delta(deltas@),
        deltas@.len() > 0 ==> deltas@.contains(m),
{
    if deltas.len() == 0 {
        return 0;
    }
    let mut sorted = deltas.clone();
    sort_values(&mut sorted);
    proof {
        broadcast use vstd::seq_lib::group_to_multiset_ensures;
        lemma_ascending_is_total();
        deltas@.lemma_sort_by_ensures(ascending());
        vstd::seq_lib::lemma_sorted_unique(sorted@, sorted_values(deltas@), ascending());
        assert(sorted@.len() == sorted@.to_multiset().len());
        let m = sorted@[(deltas@.len() / 2) as int];
        assert(sorted@.contains(m));
        assert(sorted@.to_multiset().count(m) > 0);
        assert(deltas@.to_multiset().count(m) > 0);
    }
    sorted[deltas.len() / 2]
}


/// The largest deviation from the baseline the summary handles: the
/// deviations are reported through `f64`, exact up to this size.
pub const MAX_DEVIATION_MICROS: i64 = 0x10_0000_0000_0000;

/// How many executions are shown at the start and at the end of a run,
/// and how many outliers are kept.
pub const SHOWN_EXECUTIONS: usize = 10;

/// A deviation from the baseline above this many microseconds makes an outlier.
pub const OUTLIER_MICROS: i64 = 10;

/// How many executions of the first `d.len()` land in category `c`.
pub open spec fn count_in(d: Seq<i64>, before: int, after: int, c: Category) -> nat
    decreases d.len(),
{
    if d.len() == 0 {
        0
    } else {
        count_in(d.drop_last(), before, after, c) + if category_of(d.last() as int, before, after)
            == c {
            1nat
        } else {
            0nat
        }
    }
}

pub open spec fn abs(x: int) -> int {
    if x < 0 {
        -x
    } else {
        x
    }
}

/// Every execution lands in exactly one category: the three counts add up
/// to the number of executions.
pub proof fn lemma_categories_partition(d: Seq<i64>, before: int, after: int)
    ensures
        count_in(d, before, after, Category::Early) + count_in(d, before, after, Category::OnTime)
            + count_in(d, before, after, Category::Late) == d.len(),
    decreases d.len(),
{
    if d.len() > 0 {
        lemma_categories_partition(d.drop_last(), before, after);
    }
}

/// The baseline of a non-empty run is the delta of one of its executions.
pub proof fn lemma_baseline_is_a_delta(d: Seq<i64>)
    requires
        d.len() > 0,
    ensures
        exists|i: int| 0 <= i < d.len() && d[i] == median_delta(d),
{
    broadcast use vstd::seq_lib::group_to_multiset_ensures;

    lemma_ascending_is_total();
    d.lemma_sort_by_ensures(ascending());
    let s = sorted_values(d);
    assert(s.len() == s.to_multiset().len());
    let m = s[(d.len() / 2) as int];
    assert(s.contains(m));
    assert(d.to_multiset().count(m) > 0);
    assert(d.contains(m));
}

/// The deviation of execution `i` from the run's baseline.
pub open spec fn deviation(d: Seq<i64>, i: int) -> int {
    d[i] - median_delta(d)
}

/// Execution `i` ranks before execution `j` as an outlier: it deviates
/// further from the baseline, or as far and came first.
pub open spec fn outranks(d: Seq<i64>, i: int, j: int) -> bool {
    ||| abs(deviation(d, i)) > abs(deviation(d, j))
    ||| abs(deviation(d, i)) == abs(deviation(d, j)) && i < j
}

/// Execution `i` deviates more than `OUTLIER_MICROS` from the baseline.
pub open spec fn is_outlier(d: Seq<i64>, i: int) -> bool {
    0 <= i < d.len() && abs(deviation(d, i)) > OUTLIER_MICROS
}

/// `picked` holds the positions of the worst outliers of the run, at most
/// `limit` of them, worst first: every outlier left out ranks behind them all.
pub open spec fn worst_outliers(d: Seq<i64>, picked: Seq<int>, limit: int) -> bool {
    &&& picked.len() <= limit
    &&& forall|k: int| 0 <= k < picked.len() ==> is_outlier(d, #[trigger] picked[k])
    &&& forall|k: int, l: int|
        0 <= k < l < picked.len() ==> outranks(d, #[trigger] picked[k], #[trigger] picked[l])
    &&& forall|i: int|
        is_outlier(d, i) && !(#[trigger] picked.contains(i)) ==> picked.len() == limit && outranks(
            d,
            picked.last(),
            i,
        )
}

/// How many executions at the start of a run of `n` count as warm-up: five
/// percent of them, rounded up.
pub open spec fn warm_up_count(n: int) -> int {
    (n + 19) / 20
}

/// The note on an outlier at position `i` of a run of `n`.
pub open spec fn note_label(i: int, n: int) -> Seq<char> {
    if i < warm_up_count(n) {
        "warm-up"@
    } else {
        "anomaly"@
    }
}

/// An entry `(position + 1, delta, category)` for execution `i`.
pub open spec fn shows_execution(
    e: (usize, i64, String),
    d: Seq<i64>,
    i: int,
    before: int,
    after: int,
) -> bool {
    &&& e.0 == i + 1
    &&& e.1 == d[i]
    &&& e.2@ == category_label(category_of(d[i] as int, before, after))
}

/// An entry `(position + 1, deviation, category, note)` for outlier `i`.
pub open spec fn shows_outlier(
    e: (usize, i64, String, String),
    d: Seq<i64>,
    i: int,
    before: int,
    after: int,
) -> bool {
    &&& e.0 == i + 1
    &&& e.1 == deviation(d, i)
    &&& e.2@ == category_label(category_of(d[i] as int, before, after))
    &&& e.3@ == note_label(i, d.len() as int)
}

/// Execution `i` may be the next outlier after `prev`.
pub open spec fn candidate(d: Seq<i64>, prev: Option<usize>, i: int) -> bool {
    &&& is_outlier(d, i)
    &&& match prev {
        None => true,
        Some(p) => outranks(d, p as int, i),
    }
}

/// What the deltas of a run come to, apart from the floating-point statistics.
pub struct DeltaSummary {
    pub early_count: usize,
    pub on_time_count: usize,
    pub late_count: usize,
    /// The median delta, which the deviations are measured from.
    pub baseline_delta: i64,
    /// The first executions of the run, at most `SHOWN_EXECUTIONS`.
    pub first_executions: Vec<(usize, i64, String)>,
    /// The last executions of the run, at most `SHOWN_EXECUTIONS`.
    pub last_executions: Vec<(usize, i64, String)>,
    /// The worst outliers, at most `SHOWN_EXECUTIONS`, worst first.
    pub top_outliers: Vec<(usize, i64, String, String)>,
}

proof fn lemma_outranks_transitive(d: Seq<i64>, i: int, j: int, k: int)
    requires
        outranks(d, i, j),
        outranks(d, j, k),
    ensures
        outranks(d, i, k),
{
}

/// The outlier that ranks first among those ranking behind `prev` (among
/// all, when `prev` is `None`), if there is one.
fn best_outlier_after(deltas: &Vec<i64>, baseline: i64, prev: Option<usize>) -> (r: Option<usize>)
    requires
        deltas@.len() > 0,
        baseline == median_delta(deltas@),
        forall|i: int|
            0 <= i < deltas@.len() ==> -MAX_DEVIATION_MICROS <= #[trigger] deltas@[i]
                <= MAX_DEVIATION_MICROS,
        -MAX_DEVIATION_MICROS <= baseline <= MAX_DEVIATION_MICROS,
        prev matches Some(p) ==> p < deltas@.len(),
    ensures
        match r {
            None => forall|i: int| !candidate(deltas@, prev, i),
            Some(b) => {
                &&& candidate(deltas@, prev, b as int)
                &&& forall|i: int|
                    candidate(deltas@, prev, i) && i != b ==> outranks(deltas@, b as int, i)
            },
        },
{
    let ghost d = deltas@;
    let prev_dev: i64 = match prev {
        Some(p) => {
            let x = deltas[p] - baseline;
            if x < 0 {
                -x
            } else {
                x
            }
        },
        None => 0,
    };
    let mut best: Option<usize> = None;
    let mut best_dev: i64 = 0;
    let mut i: usize = 0;
    while i < deltas.len()
        invariant
            d == deltas@,
            0 <= i <= d.len(),
            baseline == median_delta(d),
            forall|j: int|
                0 <= j < d.len() ==> -MAX_DEVIATION_MICROS <= #[trigger] d[j] <= MAX_DEVIATION_MICROS,
            -MAX_DEVIATION_MICROS <= baseline <= MAX_DEVIATION_MICROS,
            prev matches Some(p) ==> p < d.len() && prev_dev == abs(deviation(d, p as int)),
            match best {
                None => forall|j: int| 0 <= j < i ==> !candidate(d, prev, j),
                Some(b) => {
                    &&& b < i
                    &&& best_dev == abs(deviation(d, b as int))
                    &&& candidate(d, prev, b as int)
                    &&& forall|j: int|
                        0 <= j < i && candidate(d, prev, j) && j != b ==> outranks(d, b as int, j)
                },
            },
        decreases d.len() - i,
    {
        let x = deltas[i] - baseline;
        let dev = if x < 0 {
            -x
        } else {
            x
        };
        let behind_prev = match prev {
            Some(p) => prev_dev > dev || (prev_dev == dev && p < i),
            None => true,
        };
        if dev > OUTLIER_MICROS && behind_prev {
            let better = match best {
                None => true,
                Some(b) => dev > best_dev,
            };
            if better {
                best = Some(i);
                best_dev = dev;
            }
        }
        i += 1;
    }
    best
}

impl DeltaSummary {
    /// Summarises a run from the delta of each execution to its ideal time,
    /// in microseconds, in execution order: how many landed early, on time
    /// and late for the window, the baseline (median) delta, the first and
    /// last executions, and the worst outliers against the baseline.
    pub fn from_deltas(deltas: &Vec<i64>, window_before_micros: i64, window_after_micros: i64) -> (s:
        DeltaSummary)
        requires
            window_before_micros > i64::MIN,
            deltas@.len() < 0x4_0000_0000_0000,
            forall|i: int|
                0 <= i < deltas@.len() ==> -MAX_DEVIATION_MICROS / 2 <= #[trigger] deltas@[i]
                    <= MAX_DEVIATION_MICROS / 2,
        ensures
            s.early_count == count_in(
                deltas@,
                window_before_micros as int,
                window_after_micros as int,
                Category::Early,
            ),
            s.on_time_count == count_in(
                deltas@,
                window_before_micros as int,
                window_after_micros as int,
                Category::OnTime,
            ),
            s.late_count == count_in(
                deltas@,
                window_before_micros as int,
                window_after_micros as int,
                Category::Late,
            ),
            s.early_count + s.on_time_count + s.late_count == deltas@.len(),
            s.baseline_delta == median_delta(deltas@),
            s.first_executions@.len() == if deltas@.len() < SHOWN_EXECUTIONS {
                deltas@.len()
            } else {
                SHOWN_EXECUTIONS as nat
            },
            forall|k: int|
                0 <= k < s.first_executions@.len() ==> shows_execution(
                    #[trigger] s.first_executions@[k],
                    deltas@,
                    k,
                    window_before_micros as int,
                    window_after_micros as int,
                ),
            s.last_executions@.len() == s.first_executions@.len(),
            forall|k: int|
                0 <= k < s.last_executions@.len() ==> shows_execution(
                    #[trigger] s.last_executions@[k],
                    deltas@,
                    deltas@.len() - s.last_executions@.len() + k,
                    window_before_micros as int,
                    window_after_micros as int,
                ),
            exists|picked: Seq<int>|
                {
                    &&& worst_outliers(deltas@, picked, SHOWN_EXECUTIONS as int)
                    &&& s.top_outliers@.len() == picked.len()
                    &&& forall|k: int|
                        0 <= k < picked.len() ==> shows_outlier(
                            #[trigger] s.top_outliers@[k],
                            deltas@,
                            picked[k],
                            window_before_micros as int,
                            window_after_micros as int,
                        )
                },
    {
        let ghost d = deltas@;
        let ghost before = window_before_micros as int;
        let ghost after = window_after_micros as int;
        let n = deltas.len();
        let mut early_count: usize = 0;
        let mut on_time_count: usize = 0;
        let mut late_count: usize = 0;
        let mut first_executions: Vec<(usize, i64, String)> = Vec::new();
        let mut i: usize = 0;
        while i < n
            invariant
                d == deltas@,
                n == d.len(),
                before == window_before_micros as int,
                after == window_after_micros as int,
                0 <= i <= n,
                early_count == count_in(d.take(i as int), before, after, Category::Early),
                on_time_count == count_in(d.take(i as int), before, after, Category::OnTime),
                late_count == count_in(d.take(i as int), before, after, Category::Late),
                early_count + on_time_count + late_count == i,
                first_executions@.len() == if i < SHOWN_EXECUTIONS {
                    i as nat
                } else {
                    SHOWN_EXECUTIONS as nat
                },
                forall|k: int|
                    0 <= k < first_executions@.len() ==> shows_execution(
                        #[trigger] first_executions@[k],
                        d,
                        k,
                        before,
                        after,
                    ),
            decreases n - i,
        {
            let c = categorize(deltas[i], window_before_micros, window_after_micros);
            proof {
                let t = d.take(i + 1);
                assert(t.drop_last() =~= d.take(i as int));
                assert(t.last() == d[i as int]);
                assert(count_in(t, before, after, Category::Early) == count_in(
                    d.take(i as int),
                    before,
                    after,
                    Category::Early,
                ) + if c == Category::Early {
                    1nat
                } else {
                    0nat
                });
                assert(count_in(t, before, after, Category::OnTime) == count_in(
                    d.take(i as int),
                    before,
                    after,
                    Category::OnTime,
                ) + if c == Category::OnTime {
                    1nat
                } else {
                    0nat
                });
                assert(count_in(t, before, after, Category::Late) == count_in(
                    d.take(i as int),
                    before,
                    after,
                    Category::Late,
                ) + if c == Category::Late {
                    1nat
                } else {
                    0nat
                });
            }
            match c {
                Category::Early => {
                    early_count += 1;
                },
                Category::OnTime => {
                    on_time_count += 1;
                },
                Category::Late => {
                    late_count += 1;
                },
            }
            if i < SHOWN_EXECUTIONS {
                let label = c.label();
                let ghost before_push = first_executions@;
                first_executions.push((i + 1, deltas[i], label));
                proof {
                    assert forall|k: int| 0 <= k < first_executions@.len() implies shows_execution(
                        #[trigger] first_executions@[k],
                        d,
                        k,
                        before,
                        after,
                    ) by {
                        if k < before_push.len() {
                            assert(first_executions@[k] == before_push[k]);
                        }
                    }
                }
            }
            i += 1;
        }
        proof {
            assert(d.take(n as int) =~= d);
        }
        let start: usize = if n > SHOWN_EXECUTIONS {
            n - SHOWN_EXECUTIONS
        } else {
            0
        };
        let mut last_executions: Vec<(usize, i64, String)> = Vec::new();
        let mut j: usize = start;
        while j < n
            invariant
                d == deltas@,
                n == d.len(),
                before == window_before_micros as int,
                after == window_after_micros as int,
                start <= j <= n,
                start == if n > SHOWN_EXECUTIONS {
                    n - SHOWN_EXECUTIONS
                } else {
                    0
                },
                last_executions@.len() == j - start,
                forall|k: int|
                    0 <= k < last_executions@.len() ==> shows_execution(
                        #[trigger] last_executions@[k],
                        d,
                        start + k,
                        before,
                        after,
                    ),
            decreases n - j,
        {
            let c = categorize(deltas[j], window_before_micros, window_after_micros);
            let label = c.label();
            let ghost before_push = last_executions@;
            last_executions.push((j + 1, deltas[j], label));
            proof {
                assert forall|k: int| 0 <= k < last_executions@.len() implies shows_execution(
                    #[trigger] last_executions@[k],
                    d,
                    start + k,
                    before,
                    after,
                ) by {
                    if k < before_push.len() {
                        assert(last_executions@[k] == before_push[k]);
                    }
                }
            }
            j += 1;
        }
        let baseline_delta = median_of(deltas);
        let mut top_outliers: Vec<(usize, i64, String, String)> = Vec::new();
        if n == 0 {
            proof {
                assert(worst_outliers(d, Seq::<int>::empty(), SHOWN_EXECUTIONS as int));
            }
            return DeltaSummary {
                early_count,
                on_time_count,
                late_count,
                baseline_delta,
                first_executions,
                last_executions,
                top_outliers,
            };
        }
        proof {
            let m = baseline_delta;
            let w = choose|w: int| 0 <= w < d.len() && d[w] == m;
            assert(d[w] == m);
        }
        let warm_up: usize = n / 20 + if n % 20 == 0 {
            0
        } else {
            1
        };
        let ghost mut picked: Seq<int> = Seq::empty();
        let mut prev: Option<usize> = None;
        while top_outliers.len() < SHOWN_EXECUTIONS
            invariant
                d == deltas@,
                n == d.len(),
                before == window_before_micros as int,
                after == window_after_micros as int,
                n > 0,
                warm_up == warm_up_count(n as int),
                baseline_delta == median_delta(d),
                forall|i: int|
                    0 <= i < d.len() ==> -MAX_DEVIATION_MICROS / 2 <= #[trigger] d[i]
                        <= MAX_DEVIATION_MICROS / 2,
                -MAX_DEVIATION_MICROS / 2 <= baseline_delta <= MAX_DEVIATION_MICROS / 2,
                top_outliers@.len() == picked.len(),
                picked.len() <= SHOWN_EXECUTIONS,
                prev == if picked.len() == 0 {
                    None::<usize>
                } else {
                    Some(picked.last() as usize)
                },
                forall|k: int| 0 <= k < picked.len() ==> is_outlier(d, #[trigger] picked[k]),
                forall|k: int, l: int|
                    0 <= k < l < picked.len() ==> outranks(d, #[trigger] picked[k], #[trigger] picked[l]),
                forall|i: int|
                    is_outlier(d, i) ==> #[trigger] picked.contains(i) || (forall|k: int|
                        0 <= k < picked.len() ==> outranks(d, #[trigger] picked[k], i)),
                forall|k: int|
                    0 <= k < picked.len() ==> shows_outlier(
                        #[trigger] top_outliers@[k],
                        d,
                        picked[k],
                        before,
                        after,
                    ),
            ensures
                worst_outliers(d, picked, SHOWN_EXECUTIONS as int),
                top_outliers@.len() == picked.len(),
                forall|k: int|
                    0 <= k < picked.len() ==> shows_outlier(
                        #[trigger] top_outliers@[k],
                        d,
                        picked[k],
                        before,
                        after,
                    ),
            decreases SHOWN_EXECUTIONS - top_outliers@.len(),
        {
            let next = best_outlier_after(deltas, baseline_delta, prev);
            match next {
                None => {
                    proof {
                        assert forall|i: int|
                            is_outlier(d, i) && !(#[trigger] picked.contains(i)) implies picked.len()
                            == SHOWN_EXECUTIONS && outranks(d, picked.last(), i) by {
                            if picked.len() > 0 {
                                assert(outranks(d, picked[picked.len() - 1], i));
                            }
                            assert(candidate(d, prev, i));
                        }
                    }
                    break;
                },
                Some(b) => {
                    let c = categorize(deltas[b], window_before_micros, window_after_micros);
                    let note = if b < warm_up {
                        proof {
                            reveal_strlit("warm-up");
                        }
                        "warm-up".to_owned()
                    } else {
                        proof {
                            reveal_strlit("anomaly");
                        }
                        "anomaly".to_owned()
                    };
                    let deviation = deltas[b] - baseline_delta;
                    let label = c.label();
                    let ghost before_push = top_outliers@;
                    top_outliers.push((b + 1, deviation, label, note));
                    proof {
                        let old_picked = picked;
                        picked = picked.push(b as int);
                        assert(picked[old_picked.len() as int] == b as int);
                        assert forall|k: int| 0 <= k < picked.len() implies shows_outlier(
                            #[trigger] top_outliers@[k],
                            d,
                            picked[k],
                            before,
                            after,
                        ) by {
                            if k < old_picked.len() {
                                assert(top_outliers@[k] == before_push[k]);
                                assert(picked[k] == old_picked[k]);
                            }
                        }
                        assert forall|k: int, l: int|
                            0 <= k < l < picked.len() implies outranks(
                                d,
                                #[trigger] picked[k],
                                #[trigger] picked[l],
                            ) by {
                            if l == picked.len() - 1 && k < l - 1 {
                                assert(old_picked[k] == picked[k]);
                                lemma_outranks_transitive(d, picked[k], old_picked.last(), b as int);
                            }
                        }
                        assert forall|i: int| is_outlier(d, i) implies #[trigger] picked.contains(i)
                            || (forall|k: int|
                            0 <= k < picked.len() ==> outranks(d, #[trigger] picked[k], i)) by {
                            if !picked.contains(i) {
                                assert(!old_picked.contains(i)) by {
                                    if old_picked.contains(i) {
                                        let w = choose|w: int|
                                            0 <= w < old_picked.len() && old_picked[w] == i;
                                        assert(picked[w] == i);
                                    }
                                }
                                assert(i != b);
                                if old_picked.len() > 0 {
                                    assert(outranks(d, old_picked[old_picked.len() - 1], i));
                                }
                                assert(candidate(d, prev, i));
                                assert(outranks(d, b as int, i));
                                assert forall|k: int| 0 <= k < picked.len() implies outranks(
                                    d,
                                    #[trigger] picked[k],
                                    i,
                                ) by {
                                    if k < old_picked.len() {
                                        assert(old_picked[k] == picked[k]);
                                    }
                                }
                            }
                        }
                    }
                    prev = Some(b);
                },
            }
        }
        proof {
            lemma_categories_partition(d, before, after);
        }
        DeltaSummary {
            early_count,
            on_time_count,
            late_count,
            baseline_delta,
            first_executions,
            last_executions,
            top_outliers,
        }
    }
}

} // verus!
