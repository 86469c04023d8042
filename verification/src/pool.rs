//! The pool: a fixed set of workers around one job queue.

use crate::model::{running_count, PoolView};
use crate::queue::{JobQueue, Received};
use crate::worker::{Worker, WorkerState};
use vstd::prelude::*;

verus! {

/// A fixed-size pool of workers that share one FIFO queue of jobs.
///
/// The pool is the sequential heart of a thread pool. Each worker thread
/// announces itself with [`ThreadPool::start`]. From then on it calls
/// [`ThreadPool::recv`] under mutual exclusion, runs the job it got with
/// the pool released, and calls [`ThreadPool::finish`] when the job has
/// returned. To shut down, the owner calls [`ThreadPool::close`] and
/// then joins the workers in the order that [`ThreadPool::next_to_join`]
/// gives, reporting each join with [`ThreadPool::join`].
pub struct ThreadPool<T> {
    workers: Vec<Worker>,
    queue: JobQueue<T>,
    model: Ghost<PoolView<T>>,
}

impl<T> View for ThreadPool<T> {
    type V = PoolView<T>;

    closed spec fn view(&self) -> PoolView<T> {
        self.model@
    }
}

impl<T> ThreadPool<T> {
    /// Whether the queue and the workers held are those of the view.
    pub closed spec fn represents(&self) -> bool {
        &&& self.queue@.jobs == self.model@.pending()
        &&& self.queue@.open == self.model@.open
        &&& self.workers@.len() == self.model@.workers.len()
        &&& forall|i: int|
            0 <= i < self.workers@.len() ==> (#[trigger] self.workers@[i]).id() == i
                && self.workers@[i].state() == self.model@.workers[i].state()
    }

    /// Well-formedness: the view meets the pool invariant and the pool holds
    /// what the view says.
    pub open spec fn wf(&self) -> bool {
        self@.inv() && self.represents()
    }

    /// A pool of `size` workers, none started yet, with an open, empty queue.
    pub fn new(size: usize) -> (pool: ThreadPool<T>)
        requires
            size > 0,
        ensures
            pool.wf(),
            pool@ == PoolView::<T>::init(size as nat),
    {
        let mut workers: Vec<Worker> = Vec::new();
        let mut id: usize = 0;
        while id < size
            invariant
                id <= size,
                workers@.len() == id,
                forall|i: int|
                    0 <= i < workers@.len() ==> (#[trigger] workers@[i]).id() == i
                        && workers@[i].state() == WorkerState::Starting,
            decreases size - id,
        {
            workers.push(Worker::new(id));
            id += 1;
        }
        let pool = ThreadPool {
            workers,
            queue: JobQueue::new(),
            model: Ghost(PoolView::<T>::init(size as nat)),
        };
        proof {
            PoolView::<T>::lemma_init_inv(size as nat);
            assert(pool.queue@.jobs =~= pool.model@.pending());
        }
        pool
    }

    /// Worker `id` reports that its thread has begun to work: it is idle.
    pub fn start(&mut self, id: usize)
        requires
            old(self).wf(),
            old(self)@.is_starting(id as int),
        ensures
            final(self).wf(),
            final(self)@ == old(self)@.start(id as int),
    {
        let w = self.workers[id].moved_to(WorkerState::Idle);
        self.workers.set(id, w);
        proof {
            self.model@.lemma_start_inv(id as int);
        }
        self.model = Ghost(self.model@.start(id as int));
    }

    /// Submits `job`: it joins the queue behind every job submitted before.
    /// Nothing else changes, and no worker's state is asked for.
    pub fn execute(&mut self, job: T)
        requires
            old(self).wf(),
            old(self)@.open,
        ensures
            final(self).wf(),
            final(self)@ == old(self)@.submit(job),
    {
        let ghost submitted = job;
        let _ = self.queue.send(job);
        proof {
            self.model@.lemma_submit_inv(submitted);
            assert(self.model@.pending().push(submitted) =~= self.model@.submit(
                submitted,
            ).pending());
        }
        self.model = Ghost(self.model@.submit(submitted));
    }

    /// Worker `id`, idle, asks for the next job.
    ///
    /// With a job queued it gets the one submitted first among those that
    /// wait and becomes `Running`, whatever the other workers do. With
    /// nothing queued it is told `Empty` while the pool is open, and stays
    /// idle; once the pool is closed it is told `Closed` and becomes
    /// `Terminating`.
    pub fn recv(&mut self, id: usize) -> (r: Received<T>)
        requires
            old(self).wf(),
            old(self)@.is_idle(id as int),
        ensures
            final(self).wf(),
            old(self)@.pending().len() > 0 ==> r == Received::Job(
                old(self)@.submitted[old(self)@.started as int],
            ) && final(self)@ == old(self)@.dispatch(id as int),
            old(self)@.pending().len() == 0 && old(self)@.open ==> r == Received::<T>::Empty
                && final(self)@ == old(self)@,
            old(self)@.pending().len() == 0 && !old(self)@.open ==> r == Received::<T>::Closed
                && final(self)@ == old(self)@.exit(id as int),
    {
        let r = self.queue.recv();
        match &r {
            Received::Job(_) => {
                let w = self.workers[id].moved_to(WorkerState::Running);
                self.workers.set(id, w);
                proof {
                    self.model@.lemma_dispatch_inv(id as int);
                    assert(self.model@.pending().skip(1) =~= self.model@.dispatch(
                        id as int,
                    ).pending());
                }
                self.model = Ghost(self.model@.dispatch(id as int));
            },
            Received::Empty => {},
            Received::Closed => {
                let w = self.workers[id].moved_to(WorkerState::Terminating);
                self.workers.set(id, w);
                proof {
                    self.model@.lemma_exit_inv(id as int);
                }
                self.model = Ghost(self.model@.exit(id as int));
            },
        }
        r
    }

    /// Worker `id` reports that its job has returned: it is idle again and
    /// the job counts as completed.
    pub fn finish(&mut self, id: usize)
        requires
            old(self).wf(),
            old(self)@.is_running(id as int),
        ensures
            final(self).wf(),
            final(self)@ == old(self)@.finish(id as int),
    {
        let w = self.workers[id].moved_to(WorkerState::Idle);
        self.workers.set(id, w);
        proof {
            self.model@.lemma_finish_inv(id as int);
        }
        self.model = Ghost(self.model@.finish(id as int));
    }

    /// Gives up the sending end: no job is accepted from now on. The jobs
    /// already queued stay, and closing twice is closing once.
    pub fn close(&mut self)
        requires
            old(self).wf(),
        ensures
            final(self).wf(),
            final(self)@ == old(self)@.close(),
    {
        self.queue.close();
        proof {
            self.model@.lemma_close_inv();
        }
        self.model = Ghost(self.model@.close());
    }

    /// The worker to join next: the first, in order of construction, that
    /// has not been joined. `None` when every worker has been.
    pub fn next_to_join(&self) -> (next: Option<usize>)
        requires
            self.wf(),
        ensures
            match next {
                Some(id) => id < self@.size() && !(self@.workers[id as int] is Joined)
                    && forall|v: int| 0 <= v < id ==> #[trigger] self@.workers[v] is Joined,
                None => self@.all_joined(),
            },
    {
        let mut id: usize = 0;
        while id < self.workers.len()
            invariant
                self.wf(),
                id <= self.workers@.len(),
                forall|v: int| 0 <= v < id ==> #[trigger] self@.workers[v] is Joined,
            decreases self.workers@.len() - id,
        {
            match self.workers[id].state() {
                WorkerState::Joined => {},
                _ => {
                    return Some(id);
                },
            }
            id += 1;
        }
        None
    }

    /// Records that worker `id`, which has left its loop, has been joined.
    pub fn join(&mut self, id: usize)
        requires
            old(self).wf(),
            old(self)@.may_join(id as int),
        ensures
            final(self).wf(),
            final(self)@ == old(self)@.join(id as int),
    {
        let w = self.workers[id].moved_to(WorkerState::Joined);
        self.workers.set(id, w);
        proof {
            self.model@.lemma_join_inv(id as int);
        }
        self.model = Ghost(self.model@.join(id as int));
    }

    /// The number of workers, fixed when the pool was made.
    pub fn size(&self) -> (n: usize)
        requires
            self.wf(),
        ensures
            n == self@.size(),
    {
        self.workers.len()
    }

    /// Whether the pool still accepts jobs.
    pub fn is_open(&self) -> (b: bool)
        requires
            self.wf(),
        ensures
            b == self@.open,
    {
        self.queue.is_open()
    }

    /// The number of jobs that wait in the queue.
    pub fn pending(&self) -> (n: usize)
        requires
            self.wf(),
        ensures
            n == self@.pending().len(),
    {
        self.queue.len()
    }

    /// The number of workers that run a job at this moment.
    pub fn running(&self) -> (n: usize)
        requires
            self.wf(),
        ensures
            n == self@.running(),
    {
        let ghost phases = self@.workers;
        let mut n: usize = 0;
        let mut id: usize = 0;
        while id < self.workers.len()
            invariant
                self.wf(),
                phases == self@.workers,
                id <= self.workers@.len(),
                n <= id,
                n == running_count(phases.take(id as int)),
            decreases self.workers@.len() - id,
        {
            assert(phases.take(id + 1).drop_last() =~= phases.take(id as int));
            match self.workers[id].state() {
                WorkerState::Running => {
                    n += 1;
                },
                _ => {},
            }
            id += 1;
        }
        assert(phases.take(id as int) =~= phases);
        n
    }

    /// Worker `id`.
    pub fn worker(&self, id: usize) -> (worker: &Worker)
        requires
            self.wf(),
            id < self@.size(),
        ensures
            worker.id() == id,
            worker.state() == self@.workers[id as int].state(),
    {
        &self.workers[id]
    }

    /// The state of worker `id`.
    pub fn state(&self, id: usize) -> (state: WorkerState)
        requires
            self.wf(),
            id < self@.size(),
        ensures
            state == self@.workers[id as int].state(),
    {
        self.workers[id].state()
    }
}

} // verus!
