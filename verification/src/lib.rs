//! A fixed-size worker pool.
//!
//! A [`scheduler::Scheduler`] publishes [`signal::Signal`]s on one shared
//! queue; each [`worker::Worker`] claims one signal at a time and either hands
//! the carried task to its thread or stops for good. The thread that drives a
//! worker, and the task's invocation, belong to the program around the pool.
pub mod model;
pub mod queue;
pub mod scheduler;
pub mod signal;
pub mod worker;
