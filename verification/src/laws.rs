//! What follows from the pool invariant: the guarantees that a user of the
//! pool relies on, each proved for every state a pool can be in.

use crate::model::{
    lemma_rank_sum_update, lemma_rank_sum_zero, lemma_running_count_bound,
    lemma_running_count_zero, Phase, PoolView, Step,
};
use vstd::prelude::*;

verus! {

/// A sequence of distinct positions in which none stands later than its own
/// value holds each position at its own place.
proof fn lemma_in_place(s: Seq<nat>, i: int)
    requires
        s.no_duplicates(),
        forall|j: int| 0 <= j < s.len() ==> #[trigger] s[j] <= j,
        0 <= i < s.len(),
    ensures
        s[i] == i,
    decreases i,
{
    if s[i] < i {
        lemma_in_place(s, s[i] as int);
    }
}

impl<T> PoolView<T> {
    /// The pool with the jobs at the head of the queue handed to the workers
    /// `0` to `n - 1`, one each, in that order.
    pub open spec fn dispatch_first(self, n: nat) -> Self
        decreases n,
    {
        if n == 0 {
            self
        } else {
            self.dispatch_first((n - 1) as nat).dispatch(n - 1)
        }
    }

    /// The invariant holds of every state that a fresh pool can reach,
    /// whatever the submitters, the workers and the owner do and in whatever
    /// order.
    pub proof fn law_invariant_always(size: nat, steps: Seq<Step<T>>)
        requires
            size > 0,
            Self::init(size).allows(steps),
        ensures
            Self::init(size).run(steps).inv(),
            Self::init(size).run(steps).size() == size,
        decreases steps.len(),
    {
        if steps.len() == 0 {
            Self::lemma_init_inv(size);
        } else {
            Self::law_invariant_always(size, steps.drop_last());
            let before = Self::init(size).run(steps.drop_last());
            before.lemma_step_inv(steps.last());
            before.law_size_is_fixed(steps.last());
        }
    }

    /// A pool is never without a worker.
    pub proof fn law_never_empty(self)
        requires
            self.inv(),
        ensures
            self.size() >= 1,
    {
    }

    /// The number of workers never changes.
    pub proof fn law_size_is_fixed(self, step: Step<T>)
        requires
            self.enabled(step),
        ensures
            self.step(step).size() == self.size(),
    {
    }

    /// Accounting: every submitted job waits in the queue, runs, or has
    /// returned, and is counted once.
    pub proof fn law_accounting(self)
        requires
            self.inv(),
        ensures
            self.pending().len() + self.running() + self.completed.len() == self.submitted.len(),
    {
    }

    /// At most as many jobs run at once as there are workers; a pool of one
    /// worker runs one job at a time.
    pub proof fn law_running_bounded(self)
        requires
            self.inv(),
        ensures
            self.running() <= self.size(),
    {
        lemma_running_count_bound(self.workers);
    }

    /// First in, first out: the job that leaves the queue is the one that was
    /// submitted first among those that wait, so the n-th job handed to a
    /// worker is the n-th job submitted.
    pub proof fn law_fifo(self, id: int)
        requires
            self.inv(),
            self.is_idle(id),
            self.pending().len() > 0,
        ensures
            self.pending()[0] == self.submitted[self.started as int],
            self.dispatch(id).workers[id] == Phase::Running(self.started),
            self.dispatch(id).pending() == self.pending().skip(1),
    {
        assert(self.dispatch(id).pending() =~= self.pending().skip(1));
    }

    /// No job runs twice: a job that was handed out either runs on exactly
    /// one worker or has returned exactly once, and a job still queued has
    /// done neither.
    pub proof fn law_at_most_once(self, k: nat)
        requires
            self.inv(),
            k < self.submitted.len(),
        ensures
            k < self.started ==> (self.completed.contains(k) != self.workers.contains(
                Phase::Running(k),
            )),
            k >= self.started ==> !self.completed.contains(k) && !self.workers.contains(
                Phase::Running(k),
            ),
            forall|i: int, j: int|
                0 <= i < j < self.completed.len() && self.completed[i] == k ==> self.completed[j]
                    != k,
            forall|v: int, w: int|
                0 <= v < w < self.workers.len() && self.workers[v] == Phase::Running(k)
                    ==> self.workers[w] != Phase::Running(k),
    {
        if k < self.started {
            assert(self.accounted(k));
        }
        if self.workers.contains(Phase::Running(k)) {
            let w = choose|w: int|
                0 <= w < self.workers.len() && self.workers[w] == Phase::Running(k);
            assert(self.workers[w] is Running);
        }
        assert forall|v: int, w: int|
            0 <= v < w < self.workers.len() && self.workers[v] == Phase::Running(
                k,
            ) implies self.workers[w] != Phase::Running(k) by {
            if self.workers[w] == Phase::Running(k) {
                assert(self.workers[v] is Running && self.workers[w] is Running);
            }
        }
    }

    /// Drain on shutdown: once every worker has been joined, the pool is
    /// closed, nothing waits, nothing runs, and every job ever submitted has
    /// returned exactly once.
    pub proof fn law_drained_when_joined(self)
        requires
            self.inv(),
            self.all_joined(),
        ensures
            !self.open,
            self.pending().len() == 0,
            self.running() == 0,
            self.completed.len() == self.submitted.len(),
            self.completed.no_duplicates(),
            forall|k: nat| k < self.submitted.len() ==> self.completed.contains(k),
    {
        assert(self.workers[0] is Joined);
        lemma_running_count_zero(self.workers);
        assert forall|k: nat| k < self.submitted.len() implies self.completed.contains(k) by {
            assert(self.accounted(k));
            if self.workers.contains(Phase::Running(k)) {
                let w = choose|w: int|
                    0 <= w < self.workers.len() && self.workers[w] == Phase::Running(k);
                assert(self.workers[w] is Joined);
            }
        }
    }

    /// No worker leaves while work is left: a worker that has left its loop
    /// proves the pool closed and the queue empty.
    pub proof fn law_exit_after_drain(self, id: int)
        requires
            self.inv(),
            0 <= id < self.size(),
            self.workers[id] is Terminating || self.workers[id] is Joined,
        ensures
            !self.open,
            self.pending().len() == 0,
    {
    }

    /// Bounded overtaking: the job that returns as the i-th was among the
    /// first `i + size` submitted.
    pub proof fn law_bounded_overtaking(self, i: int)
        requires
            self.inv(),
            0 <= i < self.completed.len(),
        ensures
            self.completed[i] < i + self.size(),
            self.completed[i] < self.started,
    {
    }

    /// With a single worker the jobs return in the order of their
    /// submission.
    pub proof fn law_single_worker_order(self, i: int)
        requires
            self.inv(),
            self.size() == 1,
            0 <= i < self.completed.len(),
        ensures
            self.completed[i] == i,
    {
        lemma_in_place(self.completed, i);
    }

    /// Workers do not wait for each other: an idle worker gets the job at the
    /// head of the queue however many other workers run, and those go on
    /// undisturbed.
    pub proof fn law_idle_worker_unhindered(self, id: int)
        requires
            self.inv(),
            self.is_idle(id),
            self.pending().len() > 0,
        ensures
            self.dispatch(id).inv(),
            self.dispatch(id).running() == self.running() + 1,
            forall|w: int|
                0 <= w < self.size() && w != id ==> self.dispatch(id).workers[w]
                    == self.workers[w],
    {
        self.lemma_dispatch_inv(id);
    }

    /// Full parallelism: with `n` idle workers and `n` jobs queued, all `n`
    /// jobs come to run at the same time, the job submitted as the w-th of
    /// them on worker `w`.
    pub proof fn law_parallel_dispatch(self, n: nat)
        requires
            self.inv(),
            n <= self.size(),
            n <= self.pending().len(),
            forall|w: int| 0 <= w < n ==> self.is_idle(w),
        ensures
            self.dispatch_first(n).inv(),
            self.dispatch_first(n).running() == self.running() + n,
            self.dispatch_first(n).started == self.started + n,
            self.dispatch_first(n).submitted == self.submitted,
            self.dispatch_first(n).workers.len() == self.workers.len(),
            forall|w: int|
                0 <= w < n ==> self.dispatch_first(n).workers[w] == Phase::Running(
                    (self.started + w) as nat,
                ),
            forall|w: int|
                n <= w < self.size() ==> self.dispatch_first(n).workers[w] == self.workers[w],
        decreases n,
    {
        if n > 0 {
            let m = (n - 1) as nat;
            self.law_parallel_dispatch(m);
            let before = self.dispatch_first(m);
            assert(before.workers[m as int] == self.workers[m as int]);
            assert(self.is_idle(m as int));
            before.lemma_dispatch_inv(m as int);
        }
    }

    /// Submitting never waits for a worker: an open pool takes a job
    /// whatever its workers do, and no worker's phase changes by it.
    pub proof fn law_submit_unhindered(self, job: T)
        requires
            self.inv(),
            self.open,
        ensures
            self.submit(job).inv(),
            self.submit(job).pending() == self.pending().push(job),
            self.submit(job).workers == self.workers,
            self.submit(job).completed == self.completed,
    {
        self.lemma_submit_inv(job);
        assert(self.submit(job).pending() =~= self.pending().push(job));
    }

    /// An open pool is fully staffed: each of its workers is starting, idle
    /// or running.
    pub proof fn law_open_pool_is_staffed(self, id: int)
        requires
            self.inv(),
            self.open,
            0 <= id < self.size(),
        ensures
            self.workers[id] is Starting || self.workers[id] is Idle || self.workers[id] is Running,
    {
    }

    /// Closing is for good: no step of a worker or of the owner opens a
    /// closed pool again.
    pub proof fn law_close_is_permanent(self, id: int)
        requires
            !self.open,
        ensures
            !self.close().open,
            !self.start(id).open,
            !self.dispatch(id).open,
            !self.finish(id).open,
            !self.exit(id).open,
            !self.join(id).open,
    {
    }

    /// Shutdown never stalls: in a closed pool with a worker left to join,
    /// the first such worker can always take a step. If it has not started
    /// it can start, if it is idle it takes a job or leaves, if it runs its
    /// job can return, and if it is leaving it can be joined.
    pub proof fn law_shutdown_never_stalls(self) -> (id: int)
        requires
            self.inv(),
            !self.open,
            !self.all_joined(),
        ensures
            0 <= id < self.size(),
            forall|v: int| 0 <= v < id ==> #[trigger] self.workers[v] is Joined,
            !(self.workers[id] is Joined),
            self.enabled(Step::Start(id)) || self.enabled(Step::Dispatch(id)) || self.enabled(
                Step::Exit(id),
            ) || self.enabled(Step::Finish(id)) || self.enabled(Step::Join(id)),
    {
        let w = choose|w: int| 0 <= w < self.workers.len() && !(#[trigger] self.workers[w] is Joined);
        self.lemma_first_unjoined(w)
    }

    /// Among the workers up to `w`, which is not joined, the first that is
    /// not joined.
    proof fn lemma_first_unjoined(self, w: int) -> (id: int)
        requires
            0 <= w < self.workers.len(),
            !(self.workers[w] is Joined),
        ensures
            0 <= id <= w,
            !(self.workers[id] is Joined),
            forall|v: int| 0 <= v < id ==> #[trigger] self.workers[v] is Joined,
        decreases w,
    {
        if exists|v: int| 0 <= v < w && !(#[trigger] self.workers[v] is Joined) {
            let v = choose|v: int| 0 <= v < w && !(#[trigger] self.workers[v] is Joined);
            self.lemma_first_unjoined(v)
        } else {
            w
        }
    }

    /// Shutdown ends: each step that a closed pool takes, other than being
    /// closed again, leaves strictly less work, and no work is left exactly
    /// when every worker has been joined. So if every job returns, the
    /// owner's last join comes after at most `work_left` steps.
    pub proof fn law_shutdown_makes_progress(self, step: Step<T>)
        requires
            self.inv(),
            !self.open,
            self.enabled(step),
        ensures
            step is Close ==> self.step(step).work_left() == self.work_left(),
            !(step is Close) ==> self.step(step).work_left() < self.work_left(),
            self.work_left() == 0 <==> self.all_joined(),
    {
        lemma_rank_sum_zero(self.workers);
        lemma_running_count_zero(self.workers);
        if self.all_joined() {
            self.law_drained_when_joined();
        }
        match step {
            Step::Start(id) => {
                self.lemma_start_inv(id);
                lemma_rank_sum_update(self.workers, id, Phase::Idle);
                assert(self.start(id).pending() == self.pending());
            },
            Step::Submit(_) => {},
            Step::Close => {},
            Step::Dispatch(id) => {
                self.lemma_dispatch_inv(id);
                lemma_rank_sum_update(self.workers, id, Phase::Running(self.started));
            },
            Step::Finish(id) => {
                self.lemma_finish_inv(id);
                lemma_rank_sum_update(self.workers, id, Phase::Idle);
                assert(self.finish(id).pending() == self.pending());
            },
            Step::Exit(id) => {
                self.lemma_exit_inv(id);
                lemma_rank_sum_update(self.workers, id, Phase::Terminating);
                assert(self.exit(id).pending() == self.pending());
            },
            Step::Join(id) => {
                self.lemma_join_inv(id);
                lemma_rank_sum_update(self.workers, id, Phase::Joined);
                assert(self.join(id).pending() == self.pending());
            },
        }
    }

    /// A worker that runs a job cannot be joined: shutdown waits for every
    /// job that was handed out, however long it takes.
    pub proof fn law_join_waits_for_job(self, id: int)
        requires
            self.inv(),
            self.is_running(id),
        ensures
            !self.may_join(id),
            !self.all_joined(),
    {
    }
}

} // verus!
