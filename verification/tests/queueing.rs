use static_server::{Claim, JobQueue};

fn job(claim: Claim<u32>) -> u32 {
    match claim {
        Claim::Job(n) => n,
        Claim::Idle => panic!("idle"),
        Claim::Closed => panic!("closed"),
    }
}

#[test]
fn empty_open_queue_is_idle() {
    let mut queue: JobQueue<u32> = JobQueue::new();
    assert!(matches!(queue.claim(), Claim::Idle));
    assert!(matches!(queue.claim(), Claim::Idle));
}

#[test]
fn jobs_leave_in_the_order_they_came() {
    let mut queue: JobQueue<u32> = JobQueue::new();
    assert!(queue.submit(7).is_ok());
    assert!(queue.submit(3).is_ok());
    assert!(queue.submit(7).is_ok());
    assert_eq!(job(queue.claim()), 7);
    assert_eq!(job(queue.claim()), 3);
    assert_eq!(job(queue.claim()), 7);
    assert!(matches!(queue.claim(), Claim::Idle));
}

#[test]
fn closed_queue_drains_before_it_reports_closed() {
    let mut queue: JobQueue<u32> = JobQueue::new();
    assert!(queue.submit(1).is_ok());
    assert!(queue.submit(2).is_ok());
    queue.close();
    assert_eq!(job(queue.claim()), 1);
    assert_eq!(job(queue.claim()), 2);
    assert!(matches!(queue.claim(), Claim::Closed));
    assert!(matches!(queue.claim(), Claim::Closed));
}

#[test]
fn closed_queue_hands_a_job_back() {
    let mut queue: JobQueue<u32> = JobQueue::new();
    queue.close();
    assert_eq!(queue.submit(9), Err(9));
    assert!(matches!(queue.claim(), Claim::Closed));
}

#[test]
fn every_job_is_claimed_exactly_once() {
    let mut queue: JobQueue<u32> = JobQueue::new();
    let mut claimed: Vec<u32> = Vec::new();
    for n in 0..100u32 {
        assert!(queue.submit(n).is_ok());
        if n % 3 == 0 {
            claimed.push(job(queue.claim()));
        }
    }
    queue.close();
    loop {
        match queue.claim() {
            Claim::Job(n) => claimed.push(n),
            Claim::Idle => panic!("a closed queue is never idle"),
            Claim::Closed => break,
        }
    }
    assert_eq!(claimed, (0..100u32).collect::<Vec<u32>>());
}

#[test]
fn queued_closures_run_once_each() {
    let mut queue: JobQueue<Box<dyn FnOnce() -> u32>> = JobQueue::new();
    for n in 0..5u32 {
        assert!(queue.submit(Box::new(move || n * n)).is_ok());
    }
    queue.close();
    let mut results: Vec<u32> = Vec::new();
    while let Claim::Job(run) = queue.claim() {
        results.push(run());
    }
    assert_eq!(results, vec![0, 1, 4, 9, 16]);
}
