use std::time::Duration;
use syncopate::benchmark::{
    after_poll, categorize, checked_expected_executions, execution_deltas, execution_span, expected_executions,
    expiration_period, histogram_bar, missed_since, tally, timer_count, timer_sleep,
    BenchmarkConfig, Category, DeltaSummary, LoopAction, Winner,
};
use syncopate::system_time::MonoInstant;

fn labels(v: &[(usize, i64, String)]) -> Vec<(usize, i64, &str)> {
    v.iter().map(|(n, d, c)| (*n, *d, c.as_str())).collect()
}

#[test]
fn categorize_at_the_window_edges() {
    assert_eq!(categorize(-51, 50, 50), Category::Early);
    assert_eq!(categorize(-50, 50, 50), Category::OnTime);
    assert_eq!(categorize(0, 50, 50), Category::OnTime);
    assert_eq!(categorize(50, 50, 50), Category::OnTime);
    assert_eq!(categorize(51, 50, 50), Category::Late);
    assert_eq!(categorize(i64::MIN, i64::MAX, 0), Category::Early);
}

#[test]
fn category_labels() {
    assert_eq!(Category::Early.label(), "Early");
    assert_eq!(Category::OnTime.label(), "On-Time");
    assert_eq!(Category::Late.label(), "Late");
}

#[test]
fn summary_of_an_empty_run() {
    let s = DeltaSummary::from_deltas(&vec![], 50, 50);
    assert_eq!((s.early_count, s.on_time_count, s.late_count), (0, 0, 0));
    assert_eq!(s.baseline_delta, 0);
    assert!(s.first_executions.is_empty());
    assert!(s.last_executions.is_empty());
    assert!(s.top_outliers.is_empty());
}

#[test]
fn summary_counts_baseline_and_outliers() {
    let deltas = vec![5, -3, 100, 0, 2, -60, 7, 1, 4, 3, 2, 9];
    let s = DeltaSummary::from_deltas(&deltas, 50, 50);
    assert_eq!((s.early_count, s.on_time_count, s.late_count), (1, 10, 1));
    // sorted: -60 -3 0 1 2 2 3 4 5 7 9 100; the median is at position 6
    assert_eq!(s.baseline_delta, 3);
    assert_eq!(
        labels(&s.first_executions),
        vec![
            (1, 5, "On-Time"),
            (2, -3, "On-Time"),
            (3, 100, "Late"),
            (4, 0, "On-Time"),
            (5, 2, "On-Time"),
            (6, -60, "Early"),
            (7, 7, "On-Time"),
            (8, 1, "On-Time"),
            (9, 4, "On-Time"),
            (10, 3, "On-Time"),
        ]
    );
    assert_eq!(
        labels(&s.last_executions),
        vec![
            (3, 100, "Late"),
            (4, 0, "On-Time"),
            (5, 2, "On-Time"),
            (6, -60, "Early"),
            (7, 7, "On-Time"),
            (8, 1, "On-Time"),
            (9, 4, "On-Time"),
            (10, 3, "On-Time"),
            (11, 2, "On-Time"),
            (12, 9, "On-Time"),
        ]
    );
    assert_eq!(
        s.top_outliers,
        vec![
            (3, 97, "Late".to_string(), "anomaly".to_string()),
            (6, -63, "Early".to_string(), "anomaly".to_string()),
        ]
    );
}

#[test]
fn summary_marks_early_outliers_as_warm_up() {
    let s = DeltaSummary::from_deltas(&vec![50, 0, 0, 0], 50, 50);
    assert_eq!(s.baseline_delta, 0);
    assert_eq!(
        s.top_outliers,
        vec![(1, 50, "On-Time".to_string(), "warm-up".to_string())]
    );
    assert_eq!(labels(&s.last_executions), labels(&s.first_executions));
}

#[test]
fn summary_breaks_outlier_ties_by_position() {
    let s = DeltaSummary::from_deltas(&vec![20, -20, 0], 5, 5);
    assert_eq!(s.baseline_delta, 0);
    assert_eq!(
        s.top_outliers,
        vec![
            (1, 20, "Late".to_string(), "warm-up".to_string()),
            (2, -20, "Early".to_string(), "anomaly".to_string()),
        ]
    );
}

#[test]
fn summary_keeps_the_ten_worst_outliers() {
    // 40 executions: one warm-up outlier first, then 12 growing outliers
    // among on-time ones; the baseline stays 0.
    let mut deltas = vec![0i64; 40];
    deltas[0] = 15;
    for k in 0..12 {
        deltas[10 + 2 * k] = 20 + k as i64;
    }
    let s = DeltaSummary::from_deltas(&deltas, 1000, 1000);
    assert_eq!(s.baseline_delta, 0);
    assert_eq!(s.top_outliers.len(), 10);
    let got: Vec<(usize, i64)> = s.top_outliers.iter().map(|o| (o.0, o.1)).collect();
    let want: Vec<(usize, i64)> = (0..10)
        .map(|j| {
            let k = 11 - j;
            (10 + 2 * k + 1, 20 + k as i64)
        })
        .collect();
    assert_eq!(got, want);
    assert!(s.top_outliers.iter().all(|o| o.3 == "anomaly"));
}

#[test]
fn winner_and_config_values() {
    assert_eq!(Winner::Syncopate, Winner::Syncopate);
    assert_ne!(Winner::System, Winner::Tie);
    let config = BenchmarkConfig {
        system: "syncopate".to_string(),
        scenario: Some("steady-state".to_string()),
        duration_secs: 10,
        timers: 1,
        task_period_us: 10000,
    };
    let copy = config.clone();
    assert_eq!(copy.system, "syncopate");
    assert_eq!(copy.scenario.as_deref(), Some("steady-state"));
    assert_eq!((copy.duration_secs, copy.timers, copy.task_period_us), (10, 1, 10000));
}

#[test]
fn categories_partition_the_run() {
    let deltas = vec![-100, -50, 0, 49, 50, 51, 1000, -51];
    let s = DeltaSummary::from_deltas(&deltas, 50, 50);
    assert_eq!((s.early_count, s.on_time_count, s.late_count), (2, 4, 2));
    assert_eq!(s.early_count + s.on_time_count + s.late_count, deltas.len());
    assert!(deltas.contains(&s.baseline_delta));
}

#[test]
fn after_poll_stops_when_the_run_is_over() {
    let d = Duration::from_secs(10);
    assert_eq!(after_poll(Duration::from_millis(5), d, d), LoopAction::Stop);
    assert_eq!(after_poll(Duration::ZERO, Duration::from_secs(11), d), LoopAction::Stop);
}

#[test]
fn after_poll_sleeps_no_longer_than_the_run() {
    let d = Duration::from_secs(10);
    assert_eq!(
        after_poll(Duration::from_millis(5), Duration::from_secs(1), d),
        LoopAction::Sleep(Duration::from_millis(5))
    );
    assert_eq!(
        after_poll(Duration::from_secs(3), Duration::from_millis(9_500), d),
        LoopAction::Sleep(Duration::from_millis(500))
    );
    assert_eq!(after_poll(Duration::ZERO, Duration::from_secs(1), d), LoopAction::PollAgain);
}

#[test]
fn expected_executions_counts_whole_periods() {
    assert_eq!(expected_executions(Duration::from_millis(2_500), Duration::from_secs(1), 4), 8);
    assert_eq!(expected_executions(Duration::from_millis(999), Duration::from_secs(1), 4), 0);
}

#[test]
fn missed_periods_between_readings() {
    assert_eq!(missed_since(0, 5), 0);
    assert_eq!(missed_since(3, 4), 0);
    assert_eq!(missed_since(3, 3), 0);
    assert_eq!(missed_since(3, 7), 3);
}

#[test]
fn expirations_map_back_to_their_periods() {
    assert_eq!(expiration_period(10, 3, 0), 8);
    assert_eq!(expiration_period(10, 3, 1), 9);
    assert_eq!(expiration_period(10, 3, 2), 10);
    assert_eq!(expiration_period(0, 1, 0), 0);
}

#[test]
fn timer_sleep_wakes_a_little_early() {
    assert_eq!(timer_sleep(Duration::from_micros(100)), None);
    assert_eq!(timer_sleep(Duration::from_micros(101)), Some(Duration::from_micros(51)));
    assert_eq!(timer_sleep(Duration::from_millis(10)), Some(Duration::from_micros(9_950)));
}

#[test]
fn tally_counts_each_side() {
    let t = tally(&vec![Winner::Syncopate, Winner::Tie, Winner::System, Winner::Syncopate]);
    assert_eq!((t.wins, t.losses, t.ties), (2, 1, 1));
    assert_eq!(t.overall(), Winner::Syncopate);
    let t = tally(&vec![Winner::System, Winner::Syncopate]);
    assert_eq!(t.overall(), Winner::Tie);
    let t = tally(&vec![Winner::System, Winner::Tie]);
    assert_eq!(t.overall(), Winner::System);
    assert_eq!(tally(&vec![]).overall(), Winner::Tie);
}

#[test]
fn execution_deltas_round_toward_zero() {
    let executions = vec![
        (0, MonoInstant(10_001_999), MonoInstant(10_000_000)),
        (2, MonoInstant(19_998_001), MonoInstant(20_000_000)),
        (1, MonoInstant(30_000_000), MonoInstant(30_000_000)),
        (0, MonoInstant(40_000_999), MonoInstant(40_000_000)),
    ];
    assert_eq!(execution_deltas(&executions), vec![1, -1, 0, 0]);
    // Timer ids 0, 2, 1: three timers.
    assert_eq!(timer_count(&executions), 3);
    // From the first actual time to the last.
    assert_eq!(execution_span(&executions), Some(Duration::from_nanos(29_999_000)));
}

#[test]
fn execution_summary_edges() {
    let none: Vec<(usize, MonoInstant, MonoInstant)> = vec![];
    assert!(execution_deltas(&none).is_empty());
    assert_eq!(timer_count(&none), 1);
    assert_eq!(execution_span(&none), None);
    let one = vec![(4, MonoInstant(5_000), MonoInstant(0))];
    assert_eq!(execution_deltas(&one), vec![5]);
    assert_eq!(timer_count(&one), 5);
    assert_eq!(execution_span(&one), None);
    // A last execution that comes before the first spans nothing.
    let reversed = vec![(0, MonoInstant(9), MonoInstant(9)), (0, MonoInstant(3), MonoInstant(3))];
    assert_eq!(execution_span(&reversed), Some(Duration::ZERO));
}

#[test]
fn histogram_bars_in_quarter_blocks() {
    assert_eq!(histogram_bar(0), "");
    assert_eq!(histogram_bar(1), "░");
    assert_eq!(histogram_bar(2), "▒");
    assert_eq!(histogram_bar(3), "▓");
    assert_eq!(histogram_bar(4), "█");
    assert_eq!(histogram_bar(11), "██▓");
    assert_eq!(histogram_bar(40), "██████████");
    // Past ten full blocks the shade is left out.
    assert_eq!(histogram_bar(41), "██████████");
    assert_eq!(histogram_bar(39), "█████████▓");
}

#[test]
fn checked_expected_executions_refuses_what_would_panic() {
    let ms = Duration::from_millis(1);
    assert_eq!(checked_expected_executions(Duration::from_millis(25), Duration::from_millis(10), 3), Some(6));
    assert_eq!(checked_expected_executions(ms, Duration::ZERO, 3), None);
    assert_eq!(checked_expected_executions(Duration::from_secs(2), ms, usize::MAX), None);
    assert_eq!(checked_expected_executions(Duration::ZERO, ms, usize::MAX), Some(0));
}
