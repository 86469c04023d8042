//! A worker as the pool sees it: an id and a place in its life cycle.

use crate::model::Phase;
use crate::text::{decimal, to_decimal};
use vstd::prelude::*;

verus! {

/// The life cycle of a worker.
///
/// A worker is `Starting` when the pool is made and `Idle` once its thread
/// has begun to work. Receiving a job makes it `Running`, the job's return
/// makes it `Idle` again. An idle worker that finds the queue closed and
/// empty is `Terminating`, and `Joined` once the pool has joined it.
#[derive(Clone, Copy, Debug, PartialEq, Eq, Structural)]
pub enum WorkerState {
    Starting,
    Idle,
    Running,
    Terminating,
    Joined,
}

impl Phase {
    /// The state that a worker in this phase shows.
    pub open spec fn state(self) -> WorkerState {
        match self {
            Phase::Starting => WorkerState::Starting,
            Phase::Idle => WorkerState::Idle,
            Phase::Running(_) => WorkerState::Running,
            Phase::Terminating => WorkerState::Terminating,
            Phase::Joined => WorkerState::Joined,
        }
    }
}

/// What the owner of a pool logs before it joins worker `id`.
pub open spec fn shutdown_notice(id: nat) -> Seq<char> {
    "Shutting down worker "@ + decimal(id)
}

/// What worker `id` logs when it takes a job.
pub open spec fn job_notice(id: nat) -> Seq<char> {
    "Worker "@ + decimal(id) + " got a job, executing: "@
}

/// What worker `id` logs when it finds the queue closed and leaves.
pub open spec fn exit_notice(id: nat) -> Seq<char> {
    "Worker "@ + decimal(id) + " disconnected, shutting down..."@
}

/// One worker of a pool.
pub struct Worker {
    id: usize,
    state: WorkerState,
}

impl Worker {
    pub closed spec fn spec_id(&self) -> usize {
        self.id
    }

    pub closed spec fn spec_state(&self) -> WorkerState {
        self.state
    }

    /// A worker with the given id, about to start.
    pub fn new(id: usize) -> (w: Worker)
        ensures
            w.id() == id,
            w.state() == WorkerState::Starting,
    {
        Worker { id, state: WorkerState::Starting }
    }

    /// The worker's id, fixed for its life.
    #[verifier::when_used_as_spec(spec_id)]
    pub fn id(&self) -> (id: usize)
        ensures
            id == self.id(),
    {
        self.id
    }

    /// Where the worker stands in its life cycle.
    #[verifier::when_used_as_spec(spec_state)]
    pub fn state(&self) -> (state: WorkerState)
        ensures
            state == self.state(),
    {
        self.state
    }

    /// The line to log before this worker is joined.
    pub fn shutdown_notice(&self) -> (line: String)
        ensures
            line@ == shutdown_notice(self.id() as nat),
    {
        let mut line = String::from_str("Shutting down worker ");
        line.append(to_decimal(self.id).as_str());
        line
    }

    /// The line to log when this worker takes a job.
    pub fn job_notice(&self) -> (line: String)
        ensures
            line@ == job_notice(self.id() as nat),
    {
        let mut line = String::from_str("Worker ");
        line.append(to_decimal(self.id).as_str());
        line.append(" got a job, executing: ");
        line
    }

    /// The line to log when this worker leaves its loop.
    pub fn exit_notice(&self) -> (line: String)
        ensures
            line@ == exit_notice(self.id() as nat),
    {
        let mut line = String::from_str("Worker ");
        line.append(to_decimal(self.id).as_str());
        line.append(" disconnected, shutting down...");
        line
    }

    /// The same worker in another state.
    pub(crate) fn moved_to(&self, state: WorkerState) -> (w: Worker)
        ensures
            w.id() == self.id(),
            w.state() == state,
    {
        Worker { id: self.id, state }
    }
}

} // verus!
