use webserver::queue::{JobQueue, Received};

#[test]
fn queue_starts_open_and_empty() {
    let mut queue: JobQueue<u8> = JobQueue::new();
    assert!(queue.is_open());
    assert_eq!(queue.len(), 0);
    assert!(matches!(queue.recv(), Received::Empty));
}

#[test]
fn queue_is_first_in_first_out() {
    let mut queue: JobQueue<&str> = JobQueue::new();
    assert_eq!(queue.send("a"), Ok(()));
    assert_eq!(queue.send("b"), Ok(()));
    assert_eq!(queue.send("c"), Ok(()));
    assert_eq!(queue.len(), 3);
    assert!(matches!(queue.recv(), Received::Job("a")));
    assert_eq!(queue.send("d"), Ok(()));
    assert!(matches!(queue.recv(), Received::Job("b")));
    assert!(matches!(queue.recv(), Received::Job("c")));
    assert!(matches!(queue.recv(), Received::Job("d")));
    assert!(matches!(queue.recv(), Received::Empty));
}

#[test]
fn closed_queue_hands_the_job_back() {
    let mut queue: JobQueue<u8> = JobQueue::new();
    assert_eq!(queue.send(1), Ok(()));
    queue.close();
    assert_eq!(queue.send(2), Err(2));
    assert_eq!(queue.len(), 1);
    assert!(!queue.is_open());
}

#[test]
fn closed_queue_is_drained_before_it_reports_closed() {
    let mut queue: JobQueue<u8> = JobQueue::new();
    assert_eq!(queue.send(1), Ok(()));
    assert_eq!(queue.send(2), Ok(()));
    queue.close();
    assert!(matches!(queue.recv(), Received::Job(1)));
    assert!(matches!(queue.recv(), Received::Job(2)));
    assert!(matches!(queue.recv(), Received::Closed));
    assert!(matches!(queue.recv(), Received::Closed));
}
