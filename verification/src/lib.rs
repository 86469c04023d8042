//! A small notes server, in two parts that are verified.
//!
//! The first is a fixed-size worker pool with a single FIFO job queue,
//! written as a sequential core. The core owns the queue and the life cycle
//! of each worker. It never runs a job and never blocks: a worker thread asks
//! it for the next job, runs the job with the core released, and reports
//! back. What the core promises (first-in first-out delivery, every job run
//! once, a drained queue before the last worker leaves, a shutdown that
//! cannot stall) is proved for every order in which submitters and workers
//! may reach it.
//!
//! - [`queue`]: the job queue.
//! - [`worker`]: a worker and its life cycle.
//! - [`pool`]: the pool itself.
//! - [`model`]: the pool as a state machine, and its invariant.
//! - [`laws`]: what the invariant guarantees.
//!
//! The second is what the server says on the wire: how it reads the head of
//! a request, which service a request names, and how an answer is written.
//!
//! - [`request`]: the request line and the header lines.
//! - [`route`]: the services.
//! - [`body`]: the note in the body of a request.
//! - [`response`]: the answer.
//! - [`note`]: a stored note.
//! - [`text`]: characters, white space and decimal numbers.

pub mod body;
pub mod laws;
pub mod model;
pub mod note;
pub mod pool;
pub mod queue;
pub mod request;
pub mod response;
pub mod route;
pub mod text;
pub mod worker;
