use std::sync::{Arc, Mutex};
use std::time::Duration;
use syncopate::event_loop::{
    Command, CommandAction, ExecuteCallback, Executor, MissCallback, MissHandler, SchedulerBuilder,
    SchedulerError, TaskConfig, TaskExecution, TaskId, TaskMiss, TaskType,
};
use syncopate::system_time::MonoInstant;

const MS: u64 = 1_000_000;

struct Executions(Arc<Mutex<Vec<(u32, u64, u64, Duration, bool)>>>);

impl ExecuteCallback<()> for Executions {
    fn call(&self, e: TaskExecution, _ctx: &()) {
        self.0.lock().unwrap().push((
            e.task_id.index(),
            e.ideal_time.0,
            e.actual_time.0,
            e.drift,
            e.was_late,
        ));
    }
}

struct Misses(Arc<Mutex<Vec<(u32, u64, u64, usize)>>>);

impl MissCallback<()> for Misses {
    fn call(&self, m: TaskMiss, _ctx: &()) {
        self.0
            .lock()
            .unwrap()
            .push((m.task_id.index(), m.ideal_time.0, m.window_end.0, m.miss_count));
    }
}

fn periodic(period_ms: u64, window_ms: u64, anchored: bool) -> TaskConfig {
    TaskConfig {
        task_type: TaskType::Periodic {
            period: Duration::from_millis(period_ms),
            window_before: Duration::from_millis(window_ms),
            window_after: Duration::from_millis(window_ms),
            anchored,
        },
        priority: 0,
        name: None,
        on_execute: None,
        on_miss: None,
    }
}

#[test]
fn task_id_round_trip() {
    let id = TaskId::new(7, 3);
    assert_eq!(id.index(), 7);
    assert_eq!(id.generation(), 3);
    let id = TaskId::new(u32::MAX, u32::MAX);
    assert_eq!((id.index(), id.generation()), (u32::MAX, u32::MAX));
    assert_ne!(TaskId::new(1, 0), TaskId::new(0, 1));
}

#[test]
fn add_task_at_assigns_identifiers_in_order() {
    let mut l = SchedulerBuilder::new().build_local();
    let a = l.add_task_at(periodic(10, 1, true), MonoInstant(0)).unwrap();
    let b = l.add_task_at(periodic(20, 1, true), MonoInstant(0)).unwrap();
    assert_eq!((a.index(), a.generation()), (0, 1));
    assert_eq!((b.index(), b.generation()), (1, 1));
}

#[test]
fn add_task_at_refuses_a_period_out_of_bounds() {
    let mut l = SchedulerBuilder::new()
        .min_period(Duration::from_millis(5))
        .max_period(Duration::from_secs(1))
        .build_local();
    match l.add_task_at(periodic(1, 0, true), MonoInstant(0)) {
        Err(SchedulerError::PeriodOutOfBounds(p, lo, hi)) => {
            assert_eq!(p, Duration::from_millis(1));
            assert_eq!(lo, Duration::from_millis(5));
            assert_eq!(hi, Duration::from_secs(1));
        }
        other => panic!("expected PeriodOutOfBounds, got {:?}", other),
    }
    assert!(matches!(
        l.add_task_at(periodic(2000, 0, true), MonoInstant(0)),
        Err(SchedulerError::PeriodOutOfBounds(..))
    ));
    // The refused requests used up their identifiers.
    let id = l.add_task_at(periodic(10, 0, true), MonoInstant(0)).unwrap();
    assert_eq!(id.index(), 2);
}

#[test]
fn poll_at_with_no_task_sleeps_max_period() {
    let mut l = SchedulerBuilder::new().max_period(Duration::from_secs(7)).build_local();
    assert_eq!(l.poll_at(MonoInstant(123)), Duration::from_secs(7));
}

#[test]
fn poll_at_executes_within_the_window() {
    let log = Arc::new(Mutex::new(Vec::new()));
    let mut l = SchedulerBuilder::new().build_local();
    let config = periodic(10, 1, true).with_executor(Executor::new(Box::new(Executions(Arc::clone(&log)))));
    l.add_task_at(config, MonoInstant(0)).unwrap();

    // Before the window opens (9 ms): nothing runs; sleep until the deadline.
    assert_eq!(l.poll_at(MonoInstant(5 * MS)), Duration::from_millis(5));
    assert!(log.lock().unwrap().is_empty());

    // Early inside the window: runs, no drift; the next deadline is 20 ms.
    assert_eq!(l.poll_at(MonoInstant(9 * MS + MS / 2)), Duration::from_micros(10_500));
    // Late inside the window of the 20 ms deadline.
    assert_eq!(l.poll_at(MonoInstant(20 * MS + MS / 2)), Duration::from_micros(9_500));
    assert_eq!(
        *log.lock().unwrap(),
        vec![
            (0, 10 * MS, 9 * MS + MS / 2, Duration::ZERO, false),
            (0, 20 * MS, 20 * MS + MS / 2, Duration::from_micros(500), true),
        ]
    );
}

#[test]
fn poll_at_reports_a_miss_after_the_window() {
    let executions = Arc::new(Mutex::new(Vec::new()));
    let misses = Arc::new(Mutex::new(Vec::new()));
    let mut l = SchedulerBuilder::new().build_local();
    let config = periodic(10, 1, true)
        .with_executor(Executor::new(Box::new(Executions(Arc::clone(&executions)))))
        .with_miss_handler(MissHandler::new(Box::new(Misses(Arc::clone(&misses)))));
    l.add_task_at(config, MonoInstant(0)).unwrap();

    // 15 ms is past the window end (11 ms): a miss; the grid continues at 20 ms.
    assert_eq!(l.poll_at(MonoInstant(15 * MS)), Duration::from_millis(5));
    // 35 ms misses the 20 ms deadline too: two misses in a row.
    assert_eq!(l.poll_at(MonoInstant(35 * MS)), Duration::ZERO);
    assert!(executions.lock().unwrap().is_empty());
    assert_eq!(
        *misses.lock().unwrap(),
        vec![(0, 10 * MS, 11 * MS, 1), (0, 20 * MS, 21 * MS, 2)]
    );
}

#[test]
fn poll_at_interval_mode_restarts_from_now() {
    let mut l = SchedulerBuilder::new().build_local();
    l.add_task_at(periodic(10, 1, false), MonoInstant(0)).unwrap();
    // Executed late at 10.5 ms: the next deadline is 20.5 ms.
    assert_eq!(l.poll_at(MonoInstant(10 * MS + MS / 2)), Duration::from_millis(10));
}

#[test]
fn sleep_compensation_wakes_earlier_but_not_before_the_window() {
    let mut l = SchedulerBuilder::new()
        .sleep_compensation(Duration::from_micros(300))
        .build_local();
    l.add_task_at(periodic(10, 1, true), MonoInstant(0)).unwrap();
    assert_eq!(l.poll_at(MonoInstant(0)), Duration::from_micros(9_700));

    let mut l = SchedulerBuilder::new()
        .sleep_compensation(Duration::from_millis(5))
        .build_local();
    l.add_task_at(periodic(10, 1, true), MonoInstant(0)).unwrap();
    // 5 ms early would be before the window opens at 9 ms.
    assert_eq!(l.poll_at(MonoInstant(0)), Duration::from_millis(9));
}

#[test]
fn lower_priority_value_runs_first_on_equal_deadlines() {
    let log = Arc::new(Mutex::new(Vec::new()));
    let mut l = SchedulerBuilder::new().build_local();
    let mut low = periodic(10, 1, true).with_executor(Executor::new(Box::new(Executions(Arc::clone(&log)))));
    low.priority = 9;
    let mut high = periodic(10, 1, true).with_executor(Executor::new(Box::new(Executions(Arc::clone(&log)))));
    high.priority = 1;
    l.add_task_at(low, MonoInstant(0)).unwrap();
    l.add_task_at(high, MonoInstant(0)).unwrap();
    l.poll_at(MonoInstant(10 * MS));
    let order: Vec<u32> = log.lock().unwrap().iter().map(|e| e.0).collect();
    assert_eq!(order, vec![1, 0]);
}

#[test]
fn early_window_reaching_before_the_loop_started_is_kept() {
    // A 2 ms task whose window opens 10 ms early is due as soon as it is
    // added: the loop's clock starts far from zero, so the early window is
    // not cut short.
    let log = Arc::new(Mutex::new(Vec::new()));
    let mut l = SchedulerBuilder::new().build_local();
    let mut config = periodic(2, 10, true).with_executor(Executor::new(Box::new(Executions(Arc::clone(&log)))));
    config.task_type = TaskType::Periodic {
        period: Duration::from_millis(2),
        window_before: Duration::from_millis(10),
        window_after: Duration::from_secs(60),
        anchored: true,
    };
    l.add_task_local(config).unwrap();
    l.poll();
    assert_eq!(log.lock().unwrap().len(), 1);
}

#[test]
fn handle_command_adds_the_task_and_gives_back_its_answer() {
    let mut l = SchedulerBuilder::new().build_local();
    let (tx, rx) = crossbeam::channel::bounded(1);
    match l.handle_command(Command::add_task(periodic(10, 1, true), tx), MonoInstant(0)) {
        CommandAction::Reply { to, result } => {
            let id = result.unwrap();
            assert_eq!((id.index(), id.generation()), (0, 1));
            to.send(Ok(id)).unwrap();
        }
        CommandAction::Stop => panic!("expected a reply"),
    }
    assert_eq!(rx.recv().unwrap().unwrap().index(), 0);
    // The task was added: due at 10 ms, so the loop sleeps until then.
    assert_eq!(l.poll_at(MonoInstant(0)), Duration::from_millis(10));
    // A refused period still uses up an identifier.
    let (tx, _rx) = crossbeam::channel::bounded(1);
    match l.handle_command(Command::add_task(periodic(0, 0, true), tx), MonoInstant(0)) {
        CommandAction::Reply { result, .. } => {
            assert!(matches!(result, Err(SchedulerError::PeriodOutOfBounds(..))))
        }
        CommandAction::Stop => panic!("expected a reply"),
    }
    let id = l.add_task_at(periodic(10, 1, true), MonoInstant(0)).unwrap();
    assert_eq!(id.index(), 2);
    assert!(matches!(l.handle_command(Command::Shutdown, MonoInstant(0)), CommandAction::Stop));
}

#[test]
fn with_executor_replaces_the_callback() {
    let first = Arc::new(Mutex::new(Vec::new()));
    let second = Arc::new(Mutex::new(Vec::new()));
    let mut l = SchedulerBuilder::new().build_local();
    let config = periodic(10, 1, true)
        .with_executor(Executor::new(Box::new(Executions(Arc::clone(&first)))))
        .with_executor(Executor::new(Box::new(Executions(Arc::clone(&second)))));
    l.add_task_at(config, MonoInstant(0)).unwrap();
    l.poll_at(MonoInstant(10 * MS));
    assert!(first.lock().unwrap().is_empty());
    assert_eq!(second.lock().unwrap().len(), 1);
}

#[test]
fn local_loop_without_tasks_sleeps_max_period() {
    let mut l = SchedulerBuilder::new().build_local();
    assert_eq!(l.poll(), Duration::from_secs(3600));
}
