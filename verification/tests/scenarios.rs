use std::time::Duration;
use syncopate::scenarios::{BenchmarkScenario, TimerConfig};

#[test]
fn test_scenario_lookup() {
    assert!(BenchmarkScenario::get("light").is_some());
    assert!(BenchmarkScenario::get("medium").is_some());
    assert!(BenchmarkScenario::get("heavy").is_some());
    assert!(BenchmarkScenario::get("extreme").is_some());
    assert!(BenchmarkScenario::get("mixed-frequency").is_some());
    assert!(BenchmarkScenario::get("burst").is_some());
    assert!(BenchmarkScenario::get("coalescing-test").is_some());
    assert!(BenchmarkScenario::get("nonexistent").is_none());
}

#[test]
fn test_light_scenario() {
    let scenario = BenchmarkScenario::light();
    assert_eq!(scenario.name, "light");
    assert_eq!(scenario.duration, Duration::from_secs(30));
    assert_eq!(scenario.total_timers(), 5);
}

#[test]
fn test_medium_scenario() {
    let scenario = BenchmarkScenario::medium();
    assert_eq!(scenario.name, "medium");
    assert_eq!(scenario.duration, Duration::from_secs(60));
    assert_eq!(scenario.total_timers(), 25); // 10 + 10 + 5
}

#[test]
fn test_heavy_scenario() {
    let scenario = BenchmarkScenario::heavy();
    assert_eq!(scenario.name, "heavy");
    assert_eq!(scenario.duration, Duration::from_secs(120));
    assert_eq!(scenario.total_timers(), 100); // 50 + 30 + 20
}

#[test]
fn test_extreme_scenario() {
    let scenario = BenchmarkScenario::extreme();
    assert_eq!(scenario.name, "extreme");
    assert_eq!(scenario.duration, Duration::from_secs(180));
    assert_eq!(scenario.total_timers(), 10);
}

#[test]
fn test_mixed_frequency_scenario() {
    let scenario = BenchmarkScenario::mixed_frequency();
    assert_eq!(scenario.name, "mixed-frequency");
    assert_eq!(scenario.total_timers(), 60); // 3+5+10+15+10+8+5+4
}

#[test]
fn test_burst_scenario() {
    let scenario = BenchmarkScenario::burst();
    assert_eq!(scenario.name, "burst");
    assert_eq!(scenario.total_timers(), 100);
}

#[test]
fn test_coalescing_scenario() {
    let scenario = BenchmarkScenario::coalescing_test();
    assert_eq!(scenario.name, "coalescing-test");
    assert_eq!(scenario.total_timers(), 50); // 20 + 20 + 10
}

#[test]
fn checked_total_timers_reports_overflow() {
    assert_eq!(BenchmarkScenario::mixed_frequency().checked_total_timers(), Some(60));
    let d = Duration::from_millis(1);
    let huge = BenchmarkScenario {
        name: "huge",
        description: "more timers than a usize counts",
        duration: d,
        timers: vec![TimerConfig::new(d, usize::MAX, d, d), TimerConfig::new(d, 1, d, d)],
    };
    assert_eq!(huge.checked_total_timers(), None);
    let empty = BenchmarkScenario { name: "empty", description: "", duration: d, timers: vec![] };
    assert_eq!(empty.checked_total_timers(), Some(0));
}
