use worker_pool::queue::{JobQueue, Received};

#[test]
fn queue_is_first_in_first_out() {
    let mut queue: JobQueue<&str> = JobQueue::new();
    assert!(queue.is_open());
    assert_eq!(queue.len(), 0);
    assert_eq!(queue.send("a"), Ok(()));
    assert_eq!(queue.send("b"), Ok(()));
    assert_eq!(queue.len(), 2);
    assert!(matches!(queue.receive(), Received::Job("a")));
    assert_eq!(queue.send("c"), Ok(()));
    assert!(matches!(queue.receive(), Received::Job("b")));
    assert!(matches!(queue.receive(), Received::Job("c")));
    assert!(matches!(queue.receive(), Received::Empty));
    assert_eq!(queue.len(), 0);
}

#[test]
fn closed_queue_hands_jobs_back_and_drains() {
    let mut queue: JobQueue<u8> = JobQueue::new();
    queue.send(1).unwrap();
    queue.send(2).unwrap();
    queue.close();
    assert!(!queue.is_open());
    assert_eq!(queue.send(3), Err(3));
    assert_eq!(queue.len(), 2);
    assert!(matches!(queue.receive(), Received::Job(1)));
    assert!(matches!(queue.receive(), Received::Job(2)));
    assert!(matches!(queue.receive(), Received::Closed));
    assert!(matches!(queue.receive(), Received::Closed));
    queue.close();
    assert_eq!(queue.send(4), Err(4));
}

#[test]
fn empty_open_queue_may_still_get_jobs() {
    let mut queue: JobQueue<u8> = JobQueue::new();
    assert!(matches!(queue.receive(), Received::Empty));
    queue.send(9).unwrap();
    assert!(matches!(queue.receive(), Received::Job(9)));
}
