//! Scheduler subsystem.

pub mod balance;
pub mod clock;
pub mod cpus;
pub mod dispatch;
pub mod eevdf;
pub mod laws;
pub mod perf;
pub mod preempt;
pub mod process;
pub mod run;
pub mod runqueue;
pub mod scheduler;
pub mod stack;
pub mod task;
pub mod time;
pub mod user;
pub mod weights;
