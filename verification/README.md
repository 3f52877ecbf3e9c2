# syncopate

A scheduler of periodic tasks with execution windows, written in Verus:
the library states what each operation does in `requires`/`ensures`
contracts over mathematical models and proves that the code meets them.

## Layout

- `src/` — the verified library.
  - `task.rs`: task descriptions (`Window`, `TaskType`, `Repeat`), the
    validating `TaskBuilder`, and `Time`, times of day on the UTC grid.
  - `scheduler.rs`: the clock-driven `Scheduler` (`add_task`, `tick`,
    `calculate_next_tick`), specified by the pure step function `step`
    and the wake-point model `wake_point`/`soonest`, with the laws of
    fixed-rate and fixed-delay periods, anchored (wall-clock) grids,
    repeat counts and wakeups.
  - `system_time.rs`: monotonic and wall instants, the `Clock` trait, the
    simulated `SimClock` and the operating system's `RealClock`, and
    `TimeReference` for translating between the two clocks.
  - `event_loop.rs`: the single-owner `SchedulerLoop` driven by `poll`, its
    builder and the thread-safe handle that sends it commands.
  - `simulation.rs`: runs of the scheduler over simulated time, and the
    analysis of how tasks' first windows overlap.
  - `benchmark.rs`, `scenarios.rs`, `usage.rs`, `duration_text.rs`: the
    benchmark's integer bookkeeping (categories, baseline, outliers, loop
    decisions), its predefined scenarios, the resident-memory reading from
    the status text, and durations as text (formatting and parsing).
- `tests/` — tests of the library on concrete values.
- `app/` — the benchmark program around the library: command line, timers
  of the operating system, floating-point statistics, tables and export.
