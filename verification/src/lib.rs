//! The rules of a Redis-backed job queue that speaks the BullMQ wire format.
//!
//! Everything here is computed from plain values: which scripts and commands are sent, what
//! their replies mean, and what a worker does next. Connections, clocks and threads are the
//! caller's.

pub mod commands;
pub mod kernel;
pub mod msgpack;
pub mod processor;
pub mod queue;
pub mod queue_keys;
pub mod reply;
pub mod scripts;
pub mod stall_checker;
pub mod text;
pub mod worker;
pub mod worker_macro;

pub use kernel::backoff::BackoffStrategy;
pub use kernel::job;
pub use kernel::job::Job;
pub use queue::Queue;
pub use worker::Worker;
