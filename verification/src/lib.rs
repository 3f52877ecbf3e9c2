pub mod benchmark;
pub mod duration;
pub mod duration_text;
pub mod event_loop;
pub mod scenarios;
pub mod scheduler;
pub mod simulation;
pub mod system_time;
pub mod task;
pub mod text;
pub mod usage;

pub use scheduler::{TaskExecution, TickResult};
pub use task::{PeriodicSchedule, Window};
