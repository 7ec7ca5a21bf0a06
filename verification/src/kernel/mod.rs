//! The rules of the queue that need neither a connection nor a clock.

pub mod backoff;
pub mod events;
pub mod job;
pub mod retry;
pub mod stall;
