//! The pool as a state machine over mathematical values: what a pool is at
//! any moment, the steps that change it, and the invariant that every step
//! keeps.

use vstd::prelude::*;

verus! {

/// Where a worker stands in its life. A running worker carries the position,
/// in order of submission, of the job it runs.
pub enum Phase {
    /// Made, but its thread has not begun to work.
    Starting,
    /// Waiting for a job.
    Idle,
    /// Running the job that was submitted at this position.
    Running(nat),
    /// Has seen the closed, empty queue and is leaving its loop.
    Terminating,
    /// Has been joined by the pool.
    Joined,
}

/// How many of the workers run a job.
pub open spec fn running_count(ws: Seq<Phase>) -> nat
    decreases ws.len(),
{
    if ws.len() == 0 {
        0
    } else {
        running_count(ws.drop_last()) + if ws.last() is Running {
            1nat
        } else {
            0nat
        }
    }
}

/// How far a worker is from having been joined.
pub open spec fn rank(p: Phase) -> nat {
    match p {
        Phase::Starting => 3,
        Phase::Idle => 2,
        Phase::Running(_) => 2,
        Phase::Terminating => 1,
        Phase::Joined => 0,
    }
}

/// The ranks of all workers together.
pub open spec fn rank_sum(ws: Seq<Phase>) -> nat
    decreases ws.len(),
{
    if ws.len() == 0 {
        0
    } else {
        rank_sum(ws.drop_last()) + rank(ws.last())
    }
}

/// One step of a pool: something a submitter, a worker or the owner does.
pub enum Step<T> {
    /// The worker's thread begins to work.
    Start(int),
    /// A submitter hands in a job.
    Submit(T),
    /// The worker takes the job at the head of the queue.
    Dispatch(int),
    /// The worker's job returns.
    Finish(int),
    /// The owner gives up the sending end.
    Close,
    /// The worker finds the queue closed and empty and leaves.
    Exit(int),
    /// The owner joins the worker.
    Join(int),
}

/// The whole state of a pool, with its history.
pub struct PoolView<T> {
    /// Whether the pool still accepts jobs.
    pub open: bool,
    /// Every job ever submitted, in order of submission.
    pub submitted: Seq<T>,
    /// How many jobs have been handed to a worker.
    pub started: nat,
    /// The positions of the jobs that have returned, in order of return.
    pub completed: Seq<nat>,
    /// The phase of each worker, by id.
    pub workers: Seq<Phase>,
}

impl<T> PoolView<T> {
    /// A fresh pool of `size` workers.
    pub open spec fn init(size: nat) -> Self {
        PoolView {
            open: true,
            submitted: Seq::empty(),
            started: 0,
            completed: Seq::empty(),
            workers: Seq::new(size, |i: int| Phase::Starting),
        }
    }

    /// The number of workers.
    pub open spec fn size(self) -> nat {
        self.workers.len()
    }

    /// The jobs that wait in the queue, the next one to leave first.
    pub open spec fn pending(self) -> Seq<T> {
        self.submitted.skip(self.started as int)
    }

    /// How many jobs run at this moment.
    pub open spec fn running(self) -> nat {
        running_count(self.workers)
    }

    /// Whether `id` names a worker whose thread has not begun to work.
    pub open spec fn is_starting(self, id: int) -> bool {
        0 <= id < self.workers.len() && self.workers[id] is Starting
    }

    /// Whether `id` names a worker in phase `Idle`.
    pub open spec fn is_idle(self, id: int) -> bool {
        0 <= id < self.workers.len() && self.workers[id] is Idle
    }

    /// Whether `id` names a worker that runs a job.
    pub open spec fn is_running(self, id: int) -> bool {
        0 <= id < self.workers.len() && self.workers[id] is Running
    }

    /// Whether `id` names a worker that has left its loop and awaits its join.
    pub open spec fn is_terminating(self, id: int) -> bool {
        0 <= id < self.workers.len() && self.workers[id] is Terminating
    }

    /// Whether every worker has been joined.
    pub open spec fn all_joined(self) -> bool {
        forall|w: int| 0 <= w < self.workers.len() ==> #[trigger] self.workers[w] is Joined
    }

    /// Whether the job at position `k` has returned or is running.
    pub open spec fn accounted(self, k: nat) -> bool {
        self.completed.contains(k) || self.workers.contains(Phase::Running(k))
    }

    /// The thread of worker `id` begins to work.
    pub open spec fn start(self, id: int) -> Self {
        PoolView { workers: self.workers.update(id, Phase::Idle), ..self }
    }

    /// A job is appended to the queue.
    pub open spec fn submit(self, job: T) -> Self {
        PoolView { submitted: self.submitted.push(job), ..self }
    }

    /// Worker `id` takes the job at the head of the queue.
    pub open spec fn dispatch(self, id: int) -> Self {
        PoolView {
            started: self.started + 1,
            workers: self.workers.update(id, Phase::Running(self.started)),
            ..self
        }
    }

    /// The job of worker `id` returns.
    pub open spec fn finish(self, id: int) -> Self {
        PoolView {
            completed: self.completed.push(self.workers[id]->Running_0),
            workers: self.workers.update(id, Phase::Idle),
            ..self
        }
    }

    /// The pool gives up its sending end.
    pub open spec fn close(self) -> Self {
        PoolView { open: false, ..self }
    }

    /// Worker `id` finds the queue closed and empty and leaves its loop.
    pub open spec fn exit(self, id: int) -> Self {
        PoolView { workers: self.workers.update(id, Phase::Terminating), ..self }
    }

    /// The pool joins worker `id`.
    pub open spec fn join(self, id: int) -> Self {
        PoolView { workers: self.workers.update(id, Phase::Joined), ..self }
    }

    /// Whether worker `id` may be joined now: it has left its loop and every
    /// worker before it has been joined.
    pub open spec fn may_join(self, id: int) -> bool {
        &&& self.is_terminating(id)
        &&& forall|v: int| 0 <= v < id ==> #[trigger] self.workers[v] is Joined
    }

    /// Whether the step can be taken in this state.
    pub open spec fn enabled(self, step: Step<T>) -> bool {
        match step {
            Step::Start(id) => self.is_starting(id),
            Step::Submit(_) => self.open,
            Step::Dispatch(id) => self.is_idle(id) && self.pending().len() > 0,
            Step::Finish(id) => self.is_running(id),
            Step::Close => true,
            Step::Exit(id) => self.is_idle(id) && !self.open && self.pending().len() == 0,
            Step::Join(id) => self.may_join(id),
        }
    }

    /// The state after the step.
    pub open spec fn step(self, step: Step<T>) -> Self {
        match step {
            Step::Start(id) => self.start(id),
            Step::Submit(job) => self.submit(job),
            Step::Dispatch(id) => self.dispatch(id),
            Step::Finish(id) => self.finish(id),
            Step::Close => self.close(),
            Step::Exit(id) => self.exit(id),
            Step::Join(id) => self.join(id),
        }
    }

    /// The state after the steps, taken one after the other.
    pub open spec fn run(self, steps: Seq<Step<T>>) -> Self
        decreases steps.len(),
    {
        if steps.len() == 0 {
            self
        } else {
            self.run(steps.drop_last()).step(steps.last())
        }
    }

    /// Whether each of the steps can be taken when its turn comes.
    pub open spec fn allows(self, steps: Seq<Step<T>>) -> bool
        decreases steps.len(),
    {
        steps.len() == 0 || (self.allows(steps.drop_last()) && self.run(
            steps.drop_last(),
        ).enabled(steps.last()))
    }

    /// The work that is left before the last worker is joined: a bound on
    /// the steps that a closed pool can still take.
    pub open spec fn work_left(self) -> nat {
        2 * self.pending().len() + self.running() + rank_sum(self.workers)
    }

    /// What holds of every pool that `init` made and the steps changed.
    pub open spec fn inv(self) -> bool {
        &&& self.workers.len() > 0
        &&& self.started <= self.submitted.len()
        &&& self.completed.len() + running_count(self.workers) == self.started
        &&& self.completed.no_duplicates()
        &&& forall|i: int|
            0 <= i < self.completed.len() ==> #[trigger] self.completed[i] < self.started
                && self.completed[i] < i + self.workers.len()
        &&& forall|w: int|
            0 <= w < self.workers.len() ==> (#[trigger] self.workers[w] matches Phase::Running(k)
                ==> k < self.started && !self.completed.contains(k))
        &&& forall|v: int, w: int|
            0 <= v < w < self.workers.len() && #[trigger] self.workers[v] is Running
                && #[trigger] self.workers[w] is Running ==> self.workers[v] != self.workers[w]
        &&& forall|k: nat| k < self.started ==> #[trigger] self.accounted(k)
        &&& forall|w: int|
            0 <= w < self.workers.len() && (#[trigger] self.workers[w] is Terminating
                || self.workers[w] is Joined) ==> !self.open && self.started
                == self.submitted.len()
        &&& forall|v: int, w: int|
            0 <= v < w < self.workers.len() && #[trigger] self.workers[w] is Joined
                ==> #[trigger] self.workers[v] is Joined
    }
}

/// Replacing one worker's phase changes the count of running workers by what
/// that worker adds or takes away.
pub proof fn lemma_running_count_update(ws: Seq<Phase>, id: int, p: Phase)
    requires
        0 <= id < ws.len(),
    ensures
        running_count(ws.update(id, p)) + (if ws[id] is Running {
            1nat
        } else {
            0nat
        }) == running_count(ws) + (if p is Running {
            1nat
        } else {
            0nat
        }),
    decreases ws.len(),
{
    let us = ws.update(id, p);
    if id == ws.len() - 1 {
        assert(us.drop_last() =~= ws.drop_last());
    } else {
        assert(us.drop_last() =~= ws.drop_last().update(id, p));
        lemma_running_count_update(ws.drop_last(), id, p);
    }
}

/// Replacing one worker's phase changes the sum of ranks by the difference
/// of the two ranks.
pub proof fn lemma_rank_sum_update(ws: Seq<Phase>, id: int, p: Phase)
    requires
        0 <= id < ws.len(),
    ensures
        rank_sum(ws.update(id, p)) + rank(ws[id]) == rank_sum(ws) + rank(p),
    decreases ws.len(),
{
    let us = ws.update(id, p);
    if id == ws.len() - 1 {
        assert(us.drop_last() =~= ws.drop_last());
    } else {
        assert(us.drop_last() =~= ws.drop_last().update(id, p));
        lemma_rank_sum_update(ws.drop_last(), id, p);
    }
}

/// The ranks sum to zero exactly when every worker has been joined.
pub proof fn lemma_rank_sum_zero(ws: Seq<Phase>)
    ensures
        rank_sum(ws) == 0 <==> forall|w: int| 0 <= w < ws.len() ==> #[trigger] ws[w] is Joined,
    decreases ws.len(),
{
    if ws.len() > 0 {
        let front = ws.drop_last();
        lemma_rank_sum_zero(front);
        if rank_sum(ws) == 0 {
            assert forall|w: int| 0 <= w < ws.len() implies #[trigger] ws[w] is Joined by {
                if w < front.len() {
                    assert(front[w] == ws[w]);
                }
            }
        }
        if forall|w: int| 0 <= w < ws.len() ==> #[trigger] ws[w] is Joined {
            assert forall|w: int| 0 <= w < front.len() implies #[trigger] front[w] is Joined by {
                assert(front[w] == ws[w]);
            }
        }
    }
}

/// No more workers run than there are workers.
pub proof fn lemma_running_count_bound(ws: Seq<Phase>)
    ensures
        running_count(ws) <= ws.len(),
    decreases ws.len(),
{
    if ws.len() > 0 {
        lemma_running_count_bound(ws.drop_last());
    }
}

/// The count of running workers is zero exactly when no worker runs.
pub proof fn lemma_running_count_zero(ws: Seq<Phase>)
    ensures
        running_count(ws) == 0 <==> forall|w: int| 0 <= w < ws.len() ==> !(#[trigger] ws[w] is Running),
    decreases ws.len(),
{
    if ws.len() > 0 {
        let front = ws.drop_last();
        lemma_running_count_zero(front);
        if running_count(ws) == 0 {
            assert forall|w: int| 0 <= w < ws.len() implies !(#[trigger] ws[w] is Running) by {
                if w < front.len() {
                    assert(front[w] == ws[w]);
                }
            }
        }
        if forall|w: int| 0 <= w < ws.len() ==> !(#[trigger] ws[w] is Running) {
            assert forall|w: int| 0 <= w < front.len() implies !(#[trigger] front[w] is Running) by {
                assert(front[w] == ws[w]);
            }
        }
    }
}

impl<T> PoolView<T> {
    /// A fresh pool meets the invariant.
    pub proof fn lemma_init_inv(size: nat)
        requires
            size > 0,
        ensures
            Self::init(size).inv(),
            Self::init(size).running() == 0,
    {
        let s = Self::init(size);
        lemma_running_count_zero(s.workers);
    }

    /// A worker beginning to work keeps the invariant.
    pub proof fn lemma_start_inv(self, id: int)
        requires
            self.inv(),
            self.is_starting(id),
        ensures
            self.start(id).inv(),
            self.start(id).running() == self.running(),
    {
        let s = self.start(id);
        lemma_running_count_update(self.workers, id, Phase::Idle);
        self.lemma_quiet_update_inv(id, Phase::Idle);
        assert forall|w: int|
            0 <= w < s.workers.len() && (#[trigger] s.workers[w] is Terminating
                || s.workers[w] is Joined) implies !s.open && s.started == s.submitted.len() by {
            assert(s.workers[w] == self.workers[w]);
        }
        assert forall|v: int, w: int|
            0 <= v < w < s.workers.len() && #[trigger] s.workers[w] is Joined
                implies #[trigger] s.workers[v] is Joined by {
            assert(self.workers[w] is Joined);
            assert(self.workers[v] is Joined);
        }
    }

    /// Submitting to an open pool keeps the invariant.
    pub proof fn lemma_submit_inv(self, job: T)
        requires
            self.inv(),
            self.open,
        ensures
            self.submit(job).inv(),
    {
        let s = self.submit(job);
        assert forall|k: nat| k < s.started implies #[trigger] s.accounted(k) by {
            assert(self.accounted(k));
        }
    }

    /// Closing keeps the invariant.
    pub proof fn lemma_close_inv(self)
        requires
            self.inv(),
        ensures
            self.close().inv(),
    {
        let s = self.close();
        assert forall|k: nat| k < s.started implies #[trigger] s.accounted(k) by {
            assert(self.accounted(k));
        }
    }

    /// An idle worker taking the head of a queue that holds a job keeps the
    /// invariant, whatever the other workers do.
    pub proof fn lemma_dispatch_inv(self, id: int)
        requires
            self.inv(),
            self.is_idle(id),
            self.started < self.submitted.len(),
        ensures
            self.dispatch(id).inv(),
            self.dispatch(id).running() == self.running() + 1,
    {
        let s = self.dispatch(id);
        lemma_running_count_update(self.workers, id, Phase::Running(self.started));
        assert forall|w: int| 0 <= w < s.workers.len() implies (#[trigger] s.workers[w] matches Phase::Running(k)
            ==> k < s.started && !s.completed.contains(k)) by {
            if w != id {
                assert(s.workers[w] == self.workers[w]);
            }
        }
        assert forall|v: int, w: int|
            0 <= v < w < s.workers.len() && #[trigger] s.workers[v] is Running
                && #[trigger] s.workers[w] is Running implies s.workers[v] != s.workers[w] by {
            if v != id {
                assert(s.workers[v] == self.workers[v]);
            }
            if w != id {
                assert(s.workers[w] == self.workers[w]);
            }
        }
        assert forall|k: nat| k < s.started implies #[trigger] s.accounted(k) by {
            if k == self.started {
                assert(s.workers[id] == Phase::Running(k));
            } else {
                assert(self.accounted(k));
                if !self.completed.contains(k) {
                    let w = choose|w: int|
                        0 <= w < self.workers.len() && self.workers[w] == Phase::Running(k);
                    assert(s.workers[w] == Phase::Running(k));
                }
            }
        }
        assert forall|w: int|
            0 <= w < s.workers.len() && (#[trigger] s.workers[w] is Terminating
                || s.workers[w] is Joined) implies !s.open && s.started == s.submitted.len() by {
            assert(s.workers[w] == self.workers[w]);
        }
        assert forall|v: int, w: int|
            0 <= v < w < s.workers.len() && #[trigger] s.workers[w] is Joined
                implies #[trigger] s.workers[v] is Joined by {
            assert(self.workers[w] is Joined);
            assert(self.workers[v] is Joined);
        }
    }

    /// A job returning keeps the invariant.
    pub proof fn lemma_finish_inv(self, id: int)
        requires
            self.inv(),
            self.is_running(id),
        ensures
            self.finish(id).inv(),
            self.finish(id).running() + 1 == self.running(),
    {
        let s = self.finish(id);
        let job = self.workers[id]->Running_0;
        lemma_running_count_update(self.workers, id, Phase::Idle);
        lemma_running_count_bound(self.workers);
        assert(s.completed.no_duplicates()) by {
            assert forall|i: int, j: int|
                0 <= i < s.completed.len() && 0 <= j < s.completed.len() && i != j implies s.completed[i]
                != s.completed[j] by {
                if i < self.completed.len() && j < self.completed.len() {
                } else if i < self.completed.len() {
                    assert(self.completed.contains(self.completed[i]));
                } else {
                    assert(self.completed.contains(self.completed[j]));
                }
            }
        }
        assert forall|w: int| 0 <= w < s.workers.len() implies (#[trigger] s.workers[w] matches Phase::Running(k)
            ==> k < s.started && !s.completed.contains(k)) by {
            if w != id {
                assert(s.workers[w] == self.workers[w]);
                if let Phase::Running(k) = s.workers[w] {
                    if s.completed.contains(k) {
                        let i = choose|i: int| 0 <= i < s.completed.len() && s.completed[i] == k;
                        if i < self.completed.len() {
                            assert(self.completed[i] == k);
                            assert(self.completed.contains(k));
                        } else {
                            assert(k == job);
                            if w < id {
                                assert(self.workers[w] != self.workers[id]);
                            } else {
                                assert(self.workers[id] != self.workers[w]);
                            }
                        }
                    }
                }
            }
        }
        assert forall|v: int, w: int|
            0 <= v < w < s.workers.len() && #[trigger] s.workers[v] is Running
                && #[trigger] s.workers[w] is Running implies s.workers[v] != s.workers[w] by {
            assert(s.workers[v] == self.workers[v]);
            assert(s.workers[w] == self.workers[w]);
        }
        assert forall|k: nat| k < s.started implies #[trigger] s.accounted(k) by {
            assert(self.accounted(k));
            if self.completed.contains(k) {
                let i = choose|i: int| 0 <= i < self.completed.len() && self.completed[i] == k;
                assert(s.completed[i] == k);
            } else {
                let w = choose|w: int|
                    0 <= w < self.workers.len() && self.workers[w] == Phase::Running(k);
                if w == id {
                    assert(s.completed[self.completed.len() as int] == k);
                } else {
                    assert(s.workers[w] == Phase::Running(k));
                }
            }
        }
        assert forall|w: int|
            0 <= w < s.workers.len() && (#[trigger] s.workers[w] is Terminating
                || s.workers[w] is Joined) implies !s.open && s.started == s.submitted.len() by {
            assert(s.workers[w] == self.workers[w]);
        }
        assert forall|v: int, w: int|
            0 <= v < w < s.workers.len() && #[trigger] s.workers[w] is Joined
                implies #[trigger] s.workers[v] is Joined by {
            assert(self.workers[w] is Joined);
            assert(self.workers[v] is Joined);
        }
    }

    /// An idle worker leaving on a closed, empty queue keeps the invariant.
    pub proof fn lemma_exit_inv(self, id: int)
        requires
            self.inv(),
            self.is_idle(id),
            !self.open,
            self.started == self.submitted.len(),
        ensures
            self.exit(id).inv(),
            self.exit(id).running() == self.running(),
    {
        let s = self.exit(id);
        lemma_running_count_update(self.workers, id, Phase::Terminating);
        self.lemma_quiet_update_inv(id, Phase::Terminating);
        assert forall|v: int, w: int|
            0 <= v < w < s.workers.len() && #[trigger] s.workers[w] is Joined
                implies #[trigger] s.workers[v] is Joined by {
            assert(self.workers[w] is Joined);
            assert(self.workers[v] is Joined);
        }
    }

    /// Joining a worker that may be joined keeps the invariant.
    pub proof fn lemma_join_inv(self, id: int)
        requires
            self.inv(),
            self.may_join(id),
        ensures
            self.join(id).inv(),
            self.join(id).running() == self.running(),
    {
        let s = self.join(id);
        lemma_running_count_update(self.workers, id, Phase::Joined);
        self.lemma_quiet_update_inv(id, Phase::Joined);
        assert forall|v: int, w: int|
            0 <= v < w < s.workers.len() && #[trigger] s.workers[w] is Joined
                implies #[trigger] s.workers[v] is Joined by {
            if w != id {
                assert(self.workers[w] is Joined);
                assert(self.workers[v] is Joined);
            }
        }
    }

    /// Every step that can be taken keeps the invariant.
    pub proof fn lemma_step_inv(self, step: Step<T>)
        requires
            self.inv(),
            self.enabled(step),
        ensures
            self.step(step).inv(),
    {
        match step {
            Step::Start(id) => self.lemma_start_inv(id),
            Step::Submit(job) => self.lemma_submit_inv(job),
            Step::Dispatch(id) => self.lemma_dispatch_inv(id),
            Step::Finish(id) => self.lemma_finish_inv(id),
            Step::Close => self.lemma_close_inv(),
            Step::Exit(id) => self.lemma_exit_inv(id),
            Step::Join(id) => self.lemma_join_inv(id),
        }
    }

    /// The clauses of the invariant that speak of running workers survive
    /// when a worker that does not run moves to another phase in which it
    /// does not run.
    proof fn lemma_quiet_update_inv(self, id: int, p: Phase)
        requires
            self.inv(),
            0 <= id < self.workers.len(),
            !(self.workers[id] is Running),
            !(p is Running),
        ensures
            ({
                let s = PoolView { workers: self.workers.update(id, p), ..self };
                &&& forall|w: int|
                    0 <= w < s.workers.len() ==> (#[trigger] s.workers[w] matches Phase::Running(k)
                        ==> k < s.started && !s.completed.contains(k))
                &&& forall|v: int, w: int|
                    0 <= v < w < s.workers.len() && #[trigger] s.workers[v] is Running
                        && #[trigger] s.workers[w] is Running ==> s.workers[v] != s.workers[w]
                &&& forall|k: nat| k < s.started ==> #[trigger] s.accounted(k)
                &&& (!self.open && self.started == self.submitted.len() ==> forall|w: int|
                    0 <= w < s.workers.len() && (#[trigger] s.workers[w] is Terminating
                        || s.workers[w] is Joined) ==> !s.open && s.started == s.submitted.len())
            }),
    {
        let s = PoolView { workers: self.workers.update(id, p), ..self };
        assert forall|w: int| 0 <= w < s.workers.len() implies (#[trigger] s.workers[w] matches Phase::Running(k)
            ==> k < s.started && !s.completed.contains(k)) by {
            if w != id {
                assert(s.workers[w] == self.workers[w]);
            }
        }
        assert forall|v: int, w: int|
            0 <= v < w < s.workers.len() && #[trigger] s.workers[v] is Running
                && #[trigger] s.workers[w] is Running implies s.workers[v] != s.workers[w] by {
            assert(s.workers[v] == self.workers[v]);
            assert(s.workers[w] == self.workers[w]);
        }
        assert forall|k: nat| k < s.started implies #[trigger] s.accounted(k) by {
            assert(self.accounted(k));
            if !self.completed.contains(k) {
                let w = choose|w: int|
                    0 <= w < self.workers.len() && self.workers[w] == Phase::Running(k);
                assert(s.workers[w] == Phase::Running(k));
            }
        }
    }
}

} // verus!
