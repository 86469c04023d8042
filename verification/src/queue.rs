//! The job queue: an unbounded FIFO of opaque jobs that can be closed once.

use std::collections::VecDeque;
use vstd::prelude::*;

verus! {

/// What a worker learns when it asks the queue for a job.
pub enum Received<T> {
    /// The job that was at the head of the queue; it has been removed.
    Job(T),
    /// The queue is open and holds nothing: the worker has to wait.
    Empty,
    /// The queue is closed and holds nothing: no job will ever arrive.
    Closed,
}

/// The mathematical content of a queue.
pub struct QueueView<T> {
    /// The jobs that wait, the next one to leave first.
    pub jobs: Seq<T>,
    /// Whether new jobs are still accepted.
    pub open: bool,
}

/// An unbounded first-in first-out queue of jobs with a permanent closed
/// state.
pub struct JobQueue<T> {
    jobs: VecDeque<T>,
    open: bool,
}

impl<T> View for JobQueue<T> {
    type V = QueueView<T>;

    closed spec fn view(&self) -> QueueView<T> {
        QueueView { jobs: self.jobs@, open: self.open }
    }
}

impl<T> JobQueue<T> {
    /// An open queue that holds no job.
    pub fn new() -> (q: Self)
        ensures
            q@.jobs == Seq::<T>::empty(),
            q@.open,
    {
        JobQueue { jobs: VecDeque::new(), open: true }
    }

    /// Appends `job` at the tail of an open queue. A closed queue hands the
    /// job back and stays as it was.
    pub fn send(&mut self, job: T) -> (r: Result<(), T>)
        ensures
            old(self)@.open ==> r == Ok::<(), T>(()) && final(self)@ == (QueueView {
                jobs: old(self)@.jobs.push(job),
                open: true,
            }),
            !old(self)@.open ==> r == Err::<(), T>(job) && final(self)@ == old(self)@,
    {
        if self.open {
            self.jobs.push_back(job);
            Ok(())
        } else {
            Err(job)
        }
    }

    /// Removes and returns the job at the head. With nothing queued it
    /// reports `Empty` while the queue is open and `Closed` once it is not,
    /// so a closed queue is drained before `Closed` is ever seen.
    pub fn recv(&mut self) -> (r: Received<T>)
        ensures
            old(self)@.jobs.len() > 0 ==> r == Received::Job(old(self)@.jobs[0]) && final(self)@
                == (QueueView { jobs: old(self)@.jobs.skip(1), open: old(self)@.open }),
            old(self)@.jobs.len() == 0 ==> final(self)@ == old(self)@ && r == (if old(self)@.open {
                Received::<T>::Empty
            } else {
                Received::<T>::Closed
            }),
    {
        match self.jobs.pop_front() {
            Some(job) => Received::Job(job),
            None => if self.open {
                Received::Empty
            } else {
                Received::Closed
            },
        }
    }

    /// Closes the queue for good. The jobs already queued stay.
    pub fn close(&mut self)
        ensures
            final(self)@ == (QueueView { jobs: old(self)@.jobs, open: false }),
    {
        self.open = false;
    }

    /// The number of jobs that wait.
    pub fn len(&self) -> (n: usize)
        ensures
            n == self@.jobs.len(),
    {
        self.jobs.len()
    }

    /// Whether new jobs are still accepted.
    pub fn is_open(&self) -> (b: bool)
        ensures
            b == self@.open,
    {
        self.open
    }
}

} // verus!
