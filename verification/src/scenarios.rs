//! The predefined benchmark scenarios: sets of timers with their periods
//! and execution windows.

use vstd::prelude::*;
use std::time::Duration;
use crate::duration::duration_nanos;
use crate::text::same_text;

verus! {

/// Configuration for a single timer in a benchmark scenario
#[derive(Debug, Clone, Copy)]
pub struct TimerConfig {
    /// Timer period (interval between executions)
    pub period: Duration,
    /// Number of timers with this configuration
    pub count: usize,
    /// Acceptable window before ideal execution time
    pub window_before: Duration,
    /// Acceptable window after ideal execution time
    pub window_after: Duration,
}

impl TimerConfig {
    pub fn new(period: Duration, count: usize, window_before: Duration, window_after: Duration) -> (t:
        Self)
        ensures
            t.period == period,
            t.count == count,
            t.window_before == window_before,
            t.window_after == window_after,
    {
        TimerConfig { period, count, window_before, window_after }
    }
}

/// `t` is `count` timers of period `period` with a symmetric window of
/// `window` on each side, all in nanoseconds.
pub open spec fn timers_are(t: TimerConfig, period: int, count: int, window: int) -> bool {
    &&& duration_nanos(t.period) == period
    &&& t.count == count
    &&& duration_nanos(t.window_before) == window
    &&& duration_nanos(t.window_after) == window
}

/// The number of timers over all configurations.
pub open spec fn timer_total(timers: Seq<TimerConfig>) -> int
    decreases timers.len(),
{
    if timers.len() == 0 {
        0
    } else {
        timer_total(timers.drop_last()) + timers.last().count
    }
}

pub open spec fn ms(n: int) -> int {
    n * 1_000_000
}

pub open spec fn secs(n: int) -> int {
    n * 1_000_000_000
}

/// A pre-defined benchmark scenario with multiple timers
#[derive(Debug)]
pub struct BenchmarkScenario {
    /// Scenario name
    pub name: &'static str,
    /// Description of what this scenario tests
    pub description: &'static str,
    /// Total duration to run the benchmark
    pub duration: Duration,
    /// Timer configurations for this scenario
    pub timers: Vec<TimerConfig>,
}

pub open spec fn is_light(s: BenchmarkScenario) -> bool {
    &&& s.name@ == "light"@
    &&& s.description@ == "Single device coordination (5 timers @ 1s)"@
    &&& duration_nanos(s.duration) == secs(30)
    &&& s.timers@.len() == 1
    &&& timers_are(s.timers@[0], secs(1), 5, ms(50))
}

pub open spec fn is_medium(s: BenchmarkScenario) -> bool {
    &&& s.name@ == "medium"@
    &&& s.description@ == "Mixed load (10@1s, 10@500ms, 5@100ms)"@
    &&& duration_nanos(s.duration) == secs(60)
    &&& s.timers@.len() == 3
    &&& timers_are(s.timers@[0], secs(1), 10, ms(50))
    &&& timers_are(s.timers@[1], ms(500), 10, ms(25))
    &&& timers_are(s.timers@[2], ms(100), 5, ms(10))
}

pub open spec fn is_heavy(s: BenchmarkScenario) -> bool {
    &&& s.name@ == "heavy"@
    &&& s.description@ == "High-frequency load (50@100ms, 30@50ms, 20@10ms)"@
    &&& duration_nanos(s.duration) == secs(120)
    &&& s.timers@.len() == 3
    &&& timers_are(s.timers@[0], ms(100), 50, ms(10))
    &&& timers_are(s.timers@[1], ms(50), 30, ms(5))
    &&& timers_are(s.timers@[2], ms(10), 20, ms(2))
}

pub open spec fn is_extreme(s: BenchmarkScenario) -> bool {
    &&& s.name@ == "extreme"@
    &&& s.description@ == "Ramp-up stress test (10 @ 1ms, designed for gradual increase)"@
    &&& duration_nanos(s.duration) == secs(180)
    &&& s.timers@.len() == 1
    &&& timers_are(s.timers@[0], ms(1), 10, 500_000)
}

pub open spec fn is_mixed_frequency(s: BenchmarkScenario) -> bool {
    &&& s.name@ == "mixed-frequency"@
    &&& s.description@ == "Wide variety of periods (5s down to 10ms)"@
    &&& duration_nanos(s.duration) == secs(90)
    &&& s.timers@.len() == 8
    &&& timers_are(s.timers@[0], secs(5), 3, ms(100))
    &&& timers_are(s.timers@[1], secs(2), 5, ms(50))
    &&& timers_are(s.timers@[2], secs(1), 10, ms(50))
    &&& timers_are(s.timers@[3], ms(500), 15, ms(25))
    &&& timers_are(s.timers@[4], ms(200), 10, ms(10))
    &&& timers_are(s.timers@[5], ms(100), 8, ms(10))
    &&& timers_are(s.timers@[6], ms(50), 5, ms(5))
    &&& timers_are(s.timers@[7], ms(10), 4, ms(2))
}

pub open spec fn is_burst(s: BenchmarkScenario) -> bool {
    &&& s.name@ == "burst"@
    &&& s.description@ == "Short bursts (100 timers @ 50ms)"@
    &&& duration_nanos(s.duration) == secs(45)
    &&& s.timers@.len() == 1
    &&& timers_are(s.timers@[0], ms(50), 100, ms(5))
}

pub open spec fn is_coalescing_test(s: BenchmarkScenario) -> bool {
    &&& s.name@ == "coalescing-test"@
    &&& s.description@ == "Timer coalescing test (many aligned timers)"@
    &&& duration_nanos(s.duration) == secs(60)
    &&& s.timers@.len() == 3
    &&& timers_are(s.timers@[0], ms(100), 20, ms(10))
    &&& timers_are(s.timers@[1], ms(200), 20, ms(10))
    &&& timers_are(s.timers@[2], ms(50), 10, ms(5))
}

impl Clone for BenchmarkScenario {
    fn clone(&self) -> (c: Self)
        ensures
            c.name == self.name,
            c.description == self.description,
            c.duration == self.duration,
            c.timers@ == self.timers@,
    {
        let mut timers: Vec<TimerConfig> = Vec::new();
        let mut i: usize = 0;
        while i < self.timers.len()
            invariant
                0 <= i <= self.timers@.len(),
                timers@ == self.timers@.take(i as int),
            decreases self.timers@.len() - i,
        {
            timers.push(self.timers[i]);
            i += 1;
            proof {
                assert(timers@ =~= self.timers@.take(i as int));
            }
        }
        proof {
            assert(self.timers@.take(i as int) =~= self.timers@);
        }
        BenchmarkScenario {
            name: self.name,
            description: self.description,
            duration: self.duration,
            timers,
        }
    }
}

impl BenchmarkScenario {
    /// Retrieve a pre-defined scenario by name
    pub fn get(name: &str) -> (r: Option<Self>)
        ensures
            name@ == "light"@ ==> (r matches Some(s) && is_light(s)),
            name@ == "medium"@ ==> (r matches Some(s) && is_medium(s)),
            name@ == "heavy"@ ==> (r matches Some(s) && is_heavy(s)),
            name@ == "extreme"@ ==> (r matches Some(s) && is_extreme(s)),
            name@ == "mixed-frequency"@ ==> (r matches Some(s) && is_mixed_frequency(s)),
            name@ == "burst"@ ==> (r matches Some(s) && is_burst(s)),
            name@ == "coalescing-test"@ ==> (r matches Some(s) && is_coalescing_test(s)),
            r is None <==> !(name@ == "light"@ || name@ == "medium"@ || name@ == "heavy"@ || name@
                == "extreme"@ || name@ == "mixed-frequency"@ || name@ == "burst"@ || name@
                == "coalescing-test"@),
    {
        proof {
            reveal_strlit("light");
            reveal_strlit("medium");
            reveal_strlit("heavy");
            reveal_strlit("extreme");
            reveal_strlit("mixed-frequency");
            reveal_strlit("burst");
            reveal_strlit("coalescing-test");
            assert("light"@.len() == 5 && "light"@[0] == 'l');
            assert("medium"@.len() == 6 && "medium"@[0] == 'm');
            assert("heavy"@.len() == 5 && "heavy"@[0] == 'h');
            assert("extreme"@.len() == 7 && "extreme"@[0] == 'e');
            assert("mixed-frequency"@.len() == 15 && "mixed-frequency"@[0] == 'm');
            assert("burst"@.len() == 5 && "burst"@[0] == 'b');
            assert("coalescing-test"@.len() == 15 && "coalescing-test"@[0] == 'c');
        }
        if same_text(name, "light") {
            Some(Self::light())
        } else if same_text(name, "medium") {
            Some(Self::medium())
        } else if same_text(name, "heavy") {
            Some(Self::heavy())
        } else if same_text(name, "extreme") {
            Some(Self::extreme())
        } else if same_text(name, "mixed-frequency") {
            Some(Self::mixed_frequency())
        } else if same_text(name, "burst") {
            Some(Self::burst())
        } else if same_text(name, "coalescing-test") {
            Some(Self::coalescing_test())
        } else {
            None
        }
    }

    /// Light load: Single device coordination scenario with 5 timers @ 1s
    pub fn light() -> (s: Self)
        ensures
            is_light(s),
    {
        Self {
            name: "light",
            description: "Single device coordination (5 timers @ 1s)",
            duration: Duration::from_secs(30),
            timers: vec![
                TimerConfig::new(
                    Duration::from_secs(1),
                    5,
                    Duration::from_millis(50),
                    Duration::from_millis(50),
                ),
            ],
        }
    }

    /// Medium load: Mixed timer frequencies
    pub fn medium() -> (s: Self)
        ensures
            is_medium(s),
    {
        Self {
            name: "medium",
            description: "Mixed load (10@1s, 10@500ms, 5@100ms)",
            duration: Duration::from_secs(60),
            timers: vec![
                TimerConfig::new(
                    Duration::from_secs(1),
                    10,
                    Duration::from_millis(50),
                    Duration::from_millis(50),
                ),
                TimerConfig::new(
                    Duration::from_millis(500),
                    10,
                    Duration::from_millis(25),
                    Duration::from_millis(25),
                ),
                TimerConfig::new(
                    Duration::from_millis(100),
                    5,
                    Duration::from_millis(10),
                    Duration::from_millis(10),
                ),
            ],
        }
    }

    /// Heavy load: High-frequency timers
    pub fn heavy() -> (s: Self)
        ensures
            is_heavy(s),
    {
        Self {
            name: "heavy",
            description: "High-frequency load (50@100ms, 30@50ms, 20@10ms)",
            duration: Duration::from_secs(120),
            timers: vec![
                TimerConfig::new(
                    Duration::from_millis(100),
                    50,
                    Duration::from_millis(10),
                    Duration::from_millis(10),
                ),
                TimerConfig::new(
                    Duration::from_millis(50),
                    30,
                    Duration::from_millis(5),
                    Duration::from_millis(5),
                ),
                TimerConfig::new(
                    Duration::from_millis(10),
                    20,
                    Duration::from_millis(2),
                    Duration::from_millis(2),
                ),
            ],
        }
    }

    /// Extreme load: Ramp-up stress test with very high-frequency timers
    pub fn extreme() -> (s: Self)
        ensures
            is_extreme(s),
    {
        Self {
            name: "extreme",
            description: "Ramp-up stress test (10 @ 1ms, designed for gradual increase)",
            duration: Duration::from_secs(180),
            timers: vec![
                TimerConfig::new(
                    Duration::from_millis(1),
                    10,
                    Duration::from_micros(500),
                    Duration::from_micros(500),
                ),
            ],
        }
    }

    /// Mixed frequency: Wide variety of timer periods
    pub fn mixed_frequency() -> (s: Self)
        ensures
            is_mixed_frequency(s),
    {
        Self {
            name: "mixed-frequency",
            description: "Wide variety of periods (5s down to 10ms)",
            duration: Duration::from_secs(90),
            timers: vec![
                TimerConfig::new(
                    Duration::from_secs(5),
                    3,
                    Duration::from_millis(100),
                    Duration::from_millis(100),
                ),
                TimerConfig::new(
                    Duration::from_secs(2),
                    5,
                    Duration::from_millis(50),
                    Duration::from_millis(50),
                ),
                TimerConfig::new(
                    Duration::from_secs(1),
                    10,
                    Duration::from_millis(50),
                    Duration::from_millis(50),
                ),
                TimerConfig::new(
                    Duration::from_millis(500),
                    15,
                    Duration::from_millis(25),
                    Duration::from_millis(25),
                ),
                TimerConfig::new(
                    Duration::from_millis(200),
                    10,
                    Duration::from_millis(10),
                    Duration::from_millis(10),
                ),
                TimerConfig::new(
                    Duration::from_millis(100),
                    8,
                    Duration::from_millis(10),
                    Duration::from_millis(10),
                ),
                TimerConfig::new(
                    Duration::from_millis(50),
                    5,
                    Duration::from_millis(5),
                    Duration::from_millis(5),
                ),
                TimerConfig::new(
                    Duration::from_millis(10),
                    4,
                    Duration::from_millis(2),
                    Duration::from_millis(2),
                ),
            ],
        }
    }

    /// Burst scenario: Short bursts of many timers
    pub fn burst() -> (s: Self)
        ensures
            is_burst(s),
    {
        Self {
            name: "burst",
            description: "Short bursts (100 timers @ 50ms)",
            duration: Duration::from_secs(45),
            timers: vec![
                TimerConfig::new(
                    Duration::from_millis(50),
                    100,
                    Duration::from_millis(5),
                    Duration::from_millis(5),
                ),
            ],
        }
    }

    /// Coalescing test: Many timers with aligned periods to test coalescing
    pub fn coalescing_test() -> (s: Self)
        ensures
            is_coalescing_test(s),
    {
        Self {
            name: "coalescing-test",
            description: "Timer coalescing test (many aligned timers)",
            duration: Duration::from_secs(60),
            timers: vec![
                // 20 timers at exactly 100ms - should coalesce well
                TimerConfig::new(
                    Duration::from_millis(100),
                    20,
                    Duration::from_millis(10),
                    Duration::from_millis(10),
                ),
                // 20 timers at exactly 200ms - should coalesce with each other
                TimerConfig::new(
                    Duration::from_millis(200),
                    20,
                    Duration::from_millis(10),
                    Duration::from_millis(10),
                ),
                // 10 timers at exactly 50ms - highest frequency
                TimerConfig::new(
                    Duration::from_millis(50),
                    10,
                    Duration::from_millis(5),
                    Duration::from_millis(5),
                ),
            ],
        }
    }

    /// Get the total number of timers in this scenario
    pub fn total_timers(&self) -> (n: usize)
        requires
            timer_total(self.timers@) <= usize::MAX,
        ensures
            n == timer_total(self.timers@),
    {
        let mut total: usize = 0;
        let mut i: usize = 0;
        while i < self.timers.len()
            invariant
                0 <= i <= self.timers@.len(),
                total == timer_total(self.timers@.take(i as int)),
                timer_total(self.timers@) <= usize::MAX,
            decreases self.timers@.len() - i,
        {
            proof {
                assert(self.timers@.take(i + 1).drop_last() =~= self.timers@.take(i as int));
                lemma_timer_total_prefix(self.timers@, i + 1);
            }
            total = total + self.timers[i].count;
            i += 1;
        }
        proof {
            assert(self.timers@.take(i as int) =~= self.timers@);
        }
        total
    }

    /// The total number of timers, or `None` when it exceeds `usize::MAX`.
    pub fn checked_total_timers(&self) -> (r: Option<usize>)
        ensures
            r is Some <==> timer_total(self.timers@) <= usize::MAX,
            r matches Some(n) ==> n == timer_total(self.timers@),
    {
        let mut total: usize = 0;
        let mut i: usize = 0;
        while i < self.timers.len()
            invariant
                0 <= i <= self.timers@.len(),
                total == timer_total(self.timers@.take(i as int)),
            decreases self.timers@.len() - i,
        {
            proof {
                assert(self.timers@.take(i + 1).drop_last() =~= self.timers@.take(i as int));
            }
            if total > usize::MAX - self.timers[i].count {
                proof {
                    lemma_timer_total_prefix(self.timers@, i + 1);
                }
                return None;
            }
            total = total + self.timers[i].count;
            i += 1;
        }
        proof {
            assert(self.timers@.take(i as int) =~= self.timers@);
        }
        Some(total)
    }
}

/// A prefix never holds more timers than the whole list.
pub proof fn lemma_timer_total_prefix(timers: Seq<TimerConfig>, k: int)
    requires
        0 <= k <= timers.len(),
    ensures
        timer_total(timers.take(k)) <= timer_total(timers),
    decreases timers.len() - k,
{
    if k < timers.len() {
        lemma_timer_total_prefix(timers, k + 1);
        assert(timers.take(k + 1).drop_last() =~= timers.take(k));
        assert(timers.take(k + 1).last().count >= 0);
    } else {
        assert(timers.take(k) =~= timers);
    }
}

/// The scenarios hold 5, 25, 100, 10, 60, 100 and 50 timers.
pub proof fn lemma_scenario_totals(s: BenchmarkScenario)
    ensures
        is_light(s) ==> timer_total(s.timers@) == 5,
        is_medium(s) ==> timer_total(s.timers@) == 25,
        is_heavy(s) ==> timer_total(s.timers@) == 100,
        is_extreme(s) ==> timer_total(s.timers@) == 10,
        is_mixed_frequency(s) ==> timer_total(s.timers@) == 60,
        is_burst(s) ==> timer_total(s.timers@) == 100,
        is_coalescing_test(s) ==> timer_total(s.timers@) == 50,
{
    reveal_with_fuel(timer_total, 9);
}

} // verus!
