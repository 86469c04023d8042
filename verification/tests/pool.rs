use std::cell::{Cell, RefCell};
use std::rc::Rc;
use webserver::pool::ThreadPool;
use webserver::queue::Received;
use webserver::worker::WorkerState;

type Job = Box<dyn FnOnce()>;

/// A pool of `size` workers, each started.
fn started<T>(size: usize) -> ThreadPool<T> {
    let mut pool = ThreadPool::new(size);
    for id in 0..size {
        assert_eq!(pool.state(id), WorkerState::Starting);
        pool.start(id);
    }
    pool
}

/// Lets worker `id` take a job. Says whether it got one.
fn take(pool: &mut ThreadPool<Job>, id: usize, held: &mut Vec<Option<Job>>) -> bool {
    assert_eq!(pool.state(id), WorkerState::Idle);
    match pool.recv(id) {
        Received::Job(job) => {
            held[id] = Some(job);
            true
        }
        _ => false,
    }
}

/// Runs the job that worker `id` holds and reports its return.
fn run(pool: &mut ThreadPool<Job>, id: usize, held: &mut Vec<Option<Job>>) {
    assert_eq!(pool.state(id), WorkerState::Running);
    let job = held[id].take().unwrap();
    job();
    pool.finish(id);
}

/// Plays the owner's part of a shutdown on a pool whose workers have all
/// left, and gives the ids in the order of their joins.
fn join_all(pool: &mut ThreadPool<Job>) -> Vec<usize> {
    let mut joined = Vec::new();
    while let Some(id) = pool.next_to_join() {
        assert_eq!(pool.state(id), WorkerState::Terminating);
        pool.join(id);
        joined.push(id);
    }
    joined
}

/// Lets the workers take turns, each running what it gets, until every one
/// has left.
fn drain(pool: &mut ThreadPool<Job>) {
    assert!(!pool.is_open());
    let size = pool.size();
    let mut left = 0;
    while left < size {
        left = 0;
        for id in 0..size {
            match pool.state(id) {
                WorkerState::Idle => match pool.recv(id) {
                    Received::Job(job) => {
                        job();
                        pool.finish(id);
                    }
                    Received::Closed => left += 1,
                    Received::Empty => panic!("a closed pool never reports an empty queue"),
                },
                WorkerState::Running => panic!("no job is pending between turns"),
                _ => left += 1,
            }
        }
    }
}

#[test]
fn new_pool_is_open_and_empty() {
    let mut pool: ThreadPool<Job> = ThreadPool::new(4);
    assert_eq!(pool.size(), 4);
    assert!(pool.is_open());
    assert_eq!(pool.pending(), 0);
    assert_eq!(pool.running(), 0);
    for id in 0..4 {
        assert_eq!(pool.state(id), WorkerState::Starting);
        assert_eq!(pool.worker(id).id(), id);
    }
    for id in [3, 1, 0, 2] {
        pool.start(id);
        assert_eq!(pool.state(id), WorkerState::Idle);
    }
    assert_eq!(pool.next_to_join(), Some(0));
}

#[test]
fn jobs_may_be_submitted_before_any_worker_has_started() {
    let mut pool: ThreadPool<u32> = ThreadPool::new(2);
    pool.execute(1);
    pool.execute(2);
    assert_eq!(pool.pending(), 2);
    pool.start(1);
    assert!(matches!(pool.recv(1), Received::Job(1)));
    pool.start(0);
    assert!(matches!(pool.recv(0), Received::Job(2)));
}

#[test]
fn single_worker_runs_jobs_in_order() {
    let list: Rc<RefCell<Vec<char>>> = Rc::new(RefCell::new(Vec::new()));
    let mut pool: ThreadPool<Job> = started(1);
    for tag in ['A', 'B', 'C'] {
        let list = Rc::clone(&list);
        pool.execute(Box::new(move || list.borrow_mut().push(tag)));
    }
    pool.close();
    drain(&mut pool);
    assert_eq!(join_all(&mut pool), vec![0]);
    assert_eq!(*list.borrow(), vec!['A', 'B', 'C']);
}

#[test]
fn single_worker_keeps_the_order_of_a_hundred_jobs() {
    let list: Rc<RefCell<Vec<usize>>> = Rc::new(RefCell::new(Vec::new()));
    let mut pool: ThreadPool<Job> = started(1);
    let mut held: Vec<Option<Job>> = vec![None];
    for tag in 0..100 {
        let list = Rc::clone(&list);
        pool.execute(Box::new(move || list.borrow_mut().push(tag)));
        if tag % 3 == 0 {
            assert!(take(&mut pool, 0, &mut held));
            run(&mut pool, 0, &mut held);
        }
    }
    pool.close();
    drain(&mut pool);
    assert_eq!(*list.borrow(), (0..100).collect::<Vec<usize>>());
}

#[test]
fn four_workers_run_a_thousand_jobs() {
    let counter = Rc::new(Cell::new(0usize));
    let mut pool: ThreadPool<Job> = started(4);
    for _ in 0..1000 {
        let counter = Rc::clone(&counter);
        pool.execute(Box::new(move || counter.set(counter.get() + 1)));
    }
    assert_eq!(pool.pending(), 1000);
    pool.close();
    drain(&mut pool);
    assert_eq!(join_all(&mut pool), vec![0, 1, 2, 3]);
    assert_eq!(counter.get(), 1000);
    assert_eq!(pool.pending(), 0);
    assert_eq!(pool.running(), 0);
}

#[test]
fn every_job_runs_exactly_once() {
    let runs: Rc<RefCell<Vec<usize>>> = Rc::new(RefCell::new(vec![0; 50]));
    let mut pool: ThreadPool<Job> = started(3);
    let mut held: Vec<Option<Job>> = vec![None, None, None];
    for tag in 0..50 {
        let runs = Rc::clone(&runs);
        pool.execute(Box::new(move || runs.borrow_mut()[tag] += 1));
        // An uneven interleaving: workers take and finish at different paces.
        let id = tag % 3;
        if pool.state(id) == WorkerState::Running {
            run(&mut pool, id, &mut held);
        } else {
            assert!(take(&mut pool, id, &mut held));
        }
    }
    for id in 0..3 {
        if pool.state(id) == WorkerState::Running {
            run(&mut pool, id, &mut held);
        }
    }
    pool.close();
    drain(&mut pool);
    join_all(&mut pool);
    assert_eq!(*runs.borrow(), vec![1; 50]);
}

#[test]
fn jobs_leave_the_queue_in_the_order_of_submission() {
    let mut pool: ThreadPool<u32> = started(3);
    for tag in 0..6 {
        pool.execute(tag);
    }
    let mut taken = Vec::new();
    for id in [2, 0, 1] {
        match pool.recv(id) {
            Received::Job(tag) => taken.push(tag),
            _ => panic!("a job was queued"),
        }
    }
    pool.finish(0);
    pool.finish(2);
    for id in [0, 2] {
        match pool.recv(id) {
            Received::Job(tag) => taken.push(tag),
            _ => panic!("a job was queued"),
        }
    }
    assert_eq!(taken, vec![0, 1, 2, 3, 4]);
    assert_eq!(pool.pending(), 1);
    assert_eq!(pool.running(), 3);
}

#[test]
fn two_jobs_run_side_by_side() {
    let signals = Rc::new(Cell::new(0u32));
    let mut pool: ThreadPool<Job> = started(2);
    let mut held: Vec<Option<Job>> = vec![None, None];
    for _ in 0..2 {
        let signals = Rc::clone(&signals);
        pool.execute(Box::new(move || signals.set(signals.get() + 1)));
    }
    assert!(take(&mut pool, 0, &mut held));
    assert!(take(&mut pool, 1, &mut held));
    // Both jobs are out before either has returned.
    assert_eq!(pool.running(), 2);
    assert_eq!(pool.state(0), WorkerState::Running);
    assert_eq!(pool.state(1), WorkerState::Running);
    assert_eq!(pool.pending(), 0);
    run(&mut pool, 1, &mut held);
    run(&mut pool, 0, &mut held);
    assert_eq!(signals.get(), 2);
}

#[test]
fn a_single_worker_runs_one_job_at_a_time() {
    let mut pool: ThreadPool<u32> = started(1);
    pool.execute(1);
    pool.execute(2);
    assert!(matches!(pool.recv(0), Received::Job(1)));
    // The only worker is busy: the second job has to wait for it.
    assert_eq!(pool.state(0), WorkerState::Running);
    assert_eq!(pool.running(), 1);
    assert_eq!(pool.pending(), 1);
    pool.finish(0);
    assert!(matches!(pool.recv(0), Received::Job(2)));
}

#[test]
fn eight_jobs_on_four_workers_take_two_rounds() {
    let done = Rc::new(Cell::new(0u32));
    let mut pool: ThreadPool<Job> = started(4);
    let mut held: Vec<Option<Job>> = vec![None, None, None, None];
    for _ in 0..8 {
        let done = Rc::clone(&done);
        pool.execute(Box::new(move || done.set(done.get() + 1)));
    }
    pool.close();
    let mut rounds = 0;
    while pool.pending() > 0 {
        for id in 0..4 {
            assert!(take(&mut pool, id, &mut held));
        }
        assert_eq!(pool.running(), 4);
        for id in 0..4 {
            run(&mut pool, id, &mut held);
        }
        rounds += 1;
    }
    assert_eq!(rounds, 2);
    assert_eq!(done.get(), 8);
    drain(&mut pool);
    assert_eq!(join_all(&mut pool), vec![0, 1, 2, 3]);
}

#[test]
fn shutdown_drains_the_queue_first() {
    let counter = Rc::new(Cell::new(0usize));
    let mut pool: ThreadPool<Job> = started(2);
    for _ in 0..25 {
        let counter = Rc::clone(&counter);
        pool.execute(Box::new(move || counter.set(counter.get() + 1)));
    }
    // The owner closes at once; no worker has taken anything yet.
    pool.close();
    assert!(!pool.is_open());
    assert_eq!(pool.pending(), 25);
    // A worker is never told `Closed` while a job waits.
    let mut ran = 0;
    loop {
        match pool.recv(ran % 2) {
            Received::Job(job) => {
                job();
                pool.finish(ran % 2);
                ran += 1;
            }
            Received::Closed => break,
            Received::Empty => panic!("a closed pool never reports an empty queue"),
        }
    }
    assert_eq!(ran, 25);
    assert_eq!(pool.pending(), 0);
    drain(&mut pool);
    join_all(&mut pool);
    assert_eq!(counter.get(), 25);
}

#[test]
fn unused_pool_shuts_down_cleanly() {
    let mut pool: ThreadPool<Job> = started(3);
    pool.close();
    let mut lines = Vec::new();
    for id in [1, 0, 2] {
        assert!(matches!(pool.recv(id), Received::Closed));
        assert_eq!(pool.state(id), WorkerState::Terminating);
        lines.push(pool.worker(id).exit_notice());
    }
    assert_eq!(
        lines,
        vec![
            "Worker 1 disconnected, shutting down...",
            "Worker 0 disconnected, shutting down...",
            "Worker 2 disconnected, shutting down...",
        ]
    );
    let mut notices = Vec::new();
    while let Some(id) = pool.next_to_join() {
        notices.push(pool.worker(id).shutdown_notice());
        pool.join(id);
        assert_eq!(pool.state(id), WorkerState::Joined);
    }
    assert_eq!(
        notices,
        vec!["Shutting down worker 0", "Shutting down worker 1", "Shutting down worker 2"]
    );
    assert_eq!(pool.next_to_join(), None);
}

#[test]
fn a_job_that_never_returns_holds_up_the_shutdown() {
    let mut pool: ThreadPool<u32> = started(2);
    pool.execute(7);
    assert!(matches!(pool.recv(0), Received::Job(7)));
    pool.close();
    assert!(matches!(pool.recv(1), Received::Closed));
    // Worker 0 is first in line and still runs its job: it cannot be joined,
    // and worker 1, which has left, has to wait its turn.
    assert_eq!(pool.next_to_join(), Some(0));
    assert_eq!(pool.state(0), WorkerState::Running);
    assert_eq!(pool.state(1), WorkerState::Terminating);
    assert_eq!(pool.running(), 1);
}

#[test]
fn submitting_does_not_wait_for_the_worker() {
    let mut pool: ThreadPool<u32> = started(1);
    pool.execute(0);
    assert!(matches!(pool.recv(0), Received::Job(0)));
    for tag in 1..=100 {
        pool.execute(tag);
        assert_eq!(pool.pending(), tag as usize);
        assert_eq!(pool.state(0), WorkerState::Running);
    }
    pool.finish(0);
    assert!(matches!(pool.recv(0), Received::Job(1)));
}

#[test]
fn an_idle_worker_takes_a_job_while_another_runs() {
    let mut pool: ThreadPool<u32> = started(2);
    pool.execute(10);
    assert!(matches!(pool.recv(0), Received::Job(10)));
    // Worker 0 is busy for as long as it likes.
    pool.execute(20);
    assert!(matches!(pool.recv(1), Received::Job(20)));
    assert_eq!(pool.state(0), WorkerState::Running);
    assert_eq!(pool.state(1), WorkerState::Running);
    pool.finish(1);
    assert_eq!(pool.state(0), WorkerState::Running);
    assert_eq!(pool.state(1), WorkerState::Idle);
}

#[test]
fn an_idle_worker_waits_on_an_open_empty_pool() {
    let mut pool: ThreadPool<u32> = started(2);
    assert!(matches!(pool.recv(0), Received::Empty));
    assert_eq!(pool.state(0), WorkerState::Idle);
    pool.execute(5);
    assert!(matches!(pool.recv(0), Received::Job(5)));
    assert!(matches!(pool.recv(1), Received::Empty));
    assert_eq!(pool.state(1), WorkerState::Idle);
}

#[test]
fn closing_twice_is_closing_once() {
    let mut pool: ThreadPool<u32> = started(1);
    pool.execute(3);
    pool.close();
    pool.close();
    assert!(!pool.is_open());
    assert_eq!(pool.pending(), 1);
    assert!(matches!(pool.recv(0), Received::Job(3)));
    pool.finish(0);
    assert!(matches!(pool.recv(0), Received::Closed));
}

#[test]
fn job_notice_names_the_worker() {
    let pool: ThreadPool<u32> = started(12);
    assert_eq!(pool.worker(11).job_notice(), "Worker 11 got a job, executing: ");
    assert_eq!(pool.worker(0).job_notice(), "Worker 0 got a job, executing: ");
}
