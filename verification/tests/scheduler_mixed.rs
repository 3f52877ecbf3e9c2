use std::rc::Rc;
use std::time::Duration;
use syncopate::scheduler::{AddTaskError, Scheduler};
use syncopate::system_time::{Clock, SimClock};
use syncopate::task::{Task, TaskBuilder};
use syncopate::Window;

const NANOS_PER_MS: u64 = 1_000_000;
const NANOS_PER_SEC: u64 = 1_000_000_000;

/// A scheduler over a simulated clock whose wall reading starts `start`
/// after the epoch of the test; `tick(d)` moves both clocks by `d`, and a
/// preceding `advance_time(w)` sets where the wall clock stands at that tick.
struct TestScheduler {
    clock: Rc<SimClock>,
    scheduler: Scheduler<(), Rc<SimClock>>,
    wall_target: Option<Duration>,
}

impl TestScheduler {
    fn with_test_time(start: Duration) -> TestScheduler {
        let clock = Rc::new(SimClock::new());
        clock.jump_wall_clock(start.as_nanos() as i64);
        let scheduler = Scheduler::new_with_clock(Rc::clone(&clock));
        TestScheduler { clock, scheduler, wall_target: None }
    }

    fn add_task(&mut self, task: Task) -> Result<(), AddTaskError> {
        self.scheduler.add_task(task)
    }

    fn calculate_next_tick(&self) -> Option<Duration> {
        self.scheduler.calculate_next_tick()
    }

    fn advance_time(&mut self, wall: Duration) {
        self.wall_target = Some(wall);
    }

    fn tick(&mut self, d: Duration) -> Vec<String> {
        self.clock.advance(d);
        if let Some(target) = self.wall_target.take() {
            let delta = target.as_nanos() as i64 - self.clock.wall_now().as_nanos() as i64;
            self.clock.jump_wall_clock(delta);
        }
        let result = self.scheduler.tick();
        result
            .fired
            .iter()
            .map(|e| e.task.name.clone().unwrap_or_default())
            .collect()
    }
}

fn zero() -> Window {
    Window::new(Duration::ZERO, Duration::ZERO)
}

#[test]
fn test_one_anchored_one_relative() {
    // Scenario: Clock at 300ms into the second
    let mut scheduler = TestScheduler::with_test_time(Duration::from_nanos(300 * NANOS_PER_MS));

    // Add anchored task (fires at 1s boundaries)
    let anchored_task = TaskBuilder::every_at_boundary(Duration::from_nanos(1 * NANOS_PER_SEC), zero())
        .name("anchored")
        .build()
        .unwrap();
    scheduler.add_task(anchored_task).unwrap();

    // Add relative task at same time (fires 1s from now)
    let relative_task = TaskBuilder::every(Duration::from_nanos(1 * NANOS_PER_SEC), zero())
        .name("relative")
        .build()
        .unwrap();
    scheduler.add_task(relative_task).unwrap();

    // Next tick: anchored fires at 700ms (next 1s boundary)
    let next_tick = scheduler.calculate_next_tick();
    assert_eq!(next_tick, Some(Duration::from_nanos(700 * NANOS_PER_MS)));

    scheduler.advance_time(Duration::from_nanos(1000 * NANOS_PER_MS));
    let ready = scheduler.tick(Duration::from_nanos(700 * NANOS_PER_MS));
    assert_eq!(ready.len(), 1);
    assert_eq!(ready[0], "anchored");

    // Next tick: relative fires at 1000ms (300ms later)
    let next_tick = scheduler.calculate_next_tick();
    assert_eq!(next_tick, Some(Duration::from_nanos(300 * NANOS_PER_MS)));

    scheduler.advance_time(Duration::from_nanos(1300 * NANOS_PER_MS));
    let ready = scheduler.tick(Duration::from_nanos(300 * NANOS_PER_MS));
    assert_eq!(ready.len(), 1);
    assert_eq!(ready[0], "relative");

    // Next tick: anchored fires at 1700ms (700ms later)
    let next_tick = scheduler.calculate_next_tick();
    assert_eq!(next_tick, Some(Duration::from_nanos(700 * NANOS_PER_MS)));

    scheduler.advance_time(Duration::from_nanos(2000 * NANOS_PER_MS));
    let ready = scheduler.tick(Duration::from_nanos(700 * NANOS_PER_MS));
    assert_eq!(ready.len(), 1); // Only anchored fires at 1700ms
    assert_eq!(ready[0], "anchored");

    // Next tick: relative fires at 2000ms (300ms later)
    let next_tick = scheduler.calculate_next_tick();
    assert_eq!(next_tick, Some(Duration::from_nanos(300 * NANOS_PER_MS)));

    scheduler.advance_time(Duration::from_nanos(2300 * NANOS_PER_MS));
    let ready = scheduler.tick(Duration::from_nanos(300 * NANOS_PER_MS));
    assert_eq!(ready.len(), 1);
    assert_eq!(ready[0], "relative");
}

#[test]
fn test_two_anchored_one_relative() {
    // Clock starts at 200ms
    let mut scheduler = TestScheduler::with_test_time(Duration::from_nanos(200 * NANOS_PER_MS));

    // Anchored task 1: fires at 1s boundaries
    let anchored1 = TaskBuilder::every_at_boundary(Duration::from_nanos(1 * NANOS_PER_SEC), zero())
        .name("anchored1")
        .build()
        .unwrap();
    scheduler.add_task(anchored1).unwrap();

    // Relative task: fires every 500ms from scheduler start
    let relative = TaskBuilder::every(Duration::from_nanos(500 * NANOS_PER_MS), zero())
        .name("relative")
        .build()
        .unwrap();
    scheduler.add_task(relative).unwrap();

    // Advance 300ms (clock at 500ms)
    scheduler.advance_time(Duration::from_nanos(500 * NANOS_PER_MS));
    let ready = scheduler.tick(Duration::from_nanos(300 * NANOS_PER_MS));
    assert_eq!(ready.len(), 0);

    // Anchored task 2: fires at 1s boundaries
    let anchored2 = TaskBuilder::every_at_boundary(Duration::from_nanos(1 * NANOS_PER_SEC), zero())
        .name("anchored2")
        .build()
        .unwrap();
    scheduler.add_task(anchored2).unwrap();

    // t=500ms: relative fires (200ms from now)
    let next_tick = scheduler.calculate_next_tick();
    assert_eq!(next_tick, Some(Duration::from_nanos(200 * NANOS_PER_MS)));

    scheduler.advance_time(Duration::from_nanos(700 * NANOS_PER_MS));
    let ready = scheduler.tick(Duration::from_nanos(200 * NANOS_PER_MS));
    assert_eq!(ready.len(), 1);
    assert_eq!(ready[0], "relative");

    // t=800ms: both anchored fire at 1000ms boundary (300ms from now)
    let next_tick = scheduler.calculate_next_tick();
    assert_eq!(next_tick, Some(Duration::from_nanos(300 * NANOS_PER_MS)));

    scheduler.advance_time(Duration::from_nanos(1000 * NANOS_PER_MS));
    let ready = scheduler.tick(Duration::from_nanos(300 * NANOS_PER_MS));
    assert_eq!(ready.len(), 2); // anchored1 and anchored2 at 1s boundary
}

#[test]
fn test_one_anchored_two_relative_different_periods() {
    // Clock at 100ms
    let mut scheduler = TestScheduler::with_test_time(Duration::from_nanos(100 * NANOS_PER_MS));

    // Anchored: 1s period, fires at boundaries
    let anchored = TaskBuilder::every_at_boundary(Duration::from_nanos(1 * NANOS_PER_SEC), zero())
        .name("anchored")
        .build()
        .unwrap();
    scheduler.add_task(anchored).unwrap();

    // Relative 1: 400ms period
    let relative1 = TaskBuilder::every(Duration::from_nanos(400 * NANOS_PER_MS), zero())
        .name("rel1")
        .build()
        .unwrap();
    scheduler.add_task(relative1).unwrap();

    // Relative 2: 600ms period
    let relative2 = TaskBuilder::every(Duration::from_nanos(600 * NANOS_PER_MS), zero())
        .name("rel2")
        .build()
        .unwrap();
    scheduler.add_task(relative2).unwrap();

    // Verify first few ticks
    // t=400ms: rel1 fires
    assert_eq!(
        scheduler.calculate_next_tick(),
        Some(Duration::from_nanos(400 * NANOS_PER_MS))
    );
    scheduler.advance_time(Duration::from_nanos(500 * NANOS_PER_MS));
    let ready = scheduler.tick(Duration::from_nanos(400 * NANOS_PER_MS));
    assert_eq!(ready.len(), 1);
    assert_eq!(ready[0], "rel1");

    // t=600ms: rel2 fires
    assert_eq!(
        scheduler.calculate_next_tick(),
        Some(Duration::from_nanos(200 * NANOS_PER_MS))
    );
    scheduler.advance_time(Duration::from_nanos(700 * NANOS_PER_MS));
    let ready = scheduler.tick(Duration::from_nanos(200 * NANOS_PER_MS));
    assert_eq!(ready.len(), 1);
    assert_eq!(ready[0], "rel2");

    // t=800ms: rel1 fires
    assert_eq!(
        scheduler.calculate_next_tick(),
        Some(Duration::from_nanos(200 * NANOS_PER_MS))
    );
    scheduler.advance_time(Duration::from_nanos(900 * NANOS_PER_MS));
    let ready = scheduler.tick(Duration::from_nanos(200 * NANOS_PER_MS));
    assert_eq!(ready.len(), 1);
    assert_eq!(ready[0], "rel1");

    // t=900ms: anchored fires (at 1s boundary, 100ms later)
    assert_eq!(
        scheduler.calculate_next_tick(),
        Some(Duration::from_nanos(100 * NANOS_PER_MS))
    );
    scheduler.advance_time(Duration::from_nanos(1000 * NANOS_PER_MS));
    let ready = scheduler.tick(Duration::from_nanos(100 * NANOS_PER_MS));
    assert_eq!(ready.len(), 1);
    assert_eq!(ready[0], "anchored");
}
