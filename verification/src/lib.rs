//! A bounded worker pool and the connection handler that its workers run.
//!
//! The crate holds the decisions of a small server and none of its
//! effects. It starts no thread and touches no socket: the program around
//! it owns the threads and the streams, and asks the library what to do.
//!
//! - [`thread`] is the pool: a fixed set of workers and the queue of jobs
//!   that feeds them, first in, first out.
//! - [`model`] is what a pool is, mathematically, and [`laws`] is what
//!   holds of every pool: no job is lost, none runs twice, a worker runs
//!   one job at a time, and a fault costs the pool no worker.
//! - [`handler`] is the job that a worker runs for one connection: one
//!   request in, one response out.
//! - [`request`] reads the text of a request: its route and its body.

pub mod handler;
pub mod laws;
pub mod model;
pub mod request;
pub mod thread;
