//! A bounded worker pool, verified as a sequential state machine.
//!
//! The pool owns a FIFO queue of messages and a fixed set of workers. Callers
//! submit jobs, workers ask for their next action, and shutdown queues one
//! termination message per worker. Every operation is a total function on the
//! pool's state whose effect is stated over a mathematical model of that
//! state, so the threads that drive the pool only have to lock it, call one
//! operation, and do what the returned action says.

pub mod http;
pub mod laws;
pub mod log;
pub mod message;
pub mod pool;
pub mod queue;
pub mod state;
pub mod text;
pub mod worker;

pub use http::{response, route, starts_with, Route};
pub use log::{format_line, join_notice, log, worker_notice};
pub use message::{Action, Message};
pub use pool::{PoolCreationError, ThreadPool};
pub use queue::TaskQueue;
pub use state::PoolState;
pub use worker::{Worker, WorkerState};
