use workpool::pool::Channel;
use workpool::pool::Pool;
use workpool::pool::PoolError;
use workpool::pool::Recv;

#[test]
fn new_rejects_zero_workers() {
    let p: Result<Pool<u64>, PoolError> = Pool::new(0);
    assert!(matches!(p, Err(PoolError::InvalidPoolSize)));
}

#[test]
fn new_rejects_negative_workers() {
    let p: Result<Pool<u64>, PoolError> = Pool::new(-1);
    assert!(matches!(p, Err(PoolError::InvalidPoolSize)));
}

#[test]
fn new_accepts_four_workers() {
    let p: Pool<u64> = Pool::new(4).unwrap();
    assert_eq!(p.worker_count(), 4);
    assert!(p.is_accepting());
    assert_eq!(p.executing_count(), 0);
    assert_eq!(p.accepted_count(), 0);
}

#[test]
fn ten_jobs_execute_exactly_once_across_four_workers() {
    let mut pool: Pool<u64> = Pool::new(4).unwrap();
    for job in 0..10u64 {
        assert!(pool.submit(job).is_ok());
    }
    pool.begin_shutdown();

    // Drive the pool as four workers would: keep at most four jobs
    // in flight, finishing each batch before fetching the next.
    let mut executed: Vec<u64> = Vec::new();
    loop {
        let mut batch: usize = 0;
        while pool.executing_count() < pool.worker_count() {
            match pool.take_job() {
                Recv::Job(job) => {
                    executed.push(job);
                    batch += 1;
                }
                Recv::Empty => unreachable!("channel is closed"),
                Recv::Done => break,
            }
            assert!(pool.executing_count() <= pool.worker_count());
        }
        if batch == 0 {
            break;
        }
        for _ in 0..batch {
            pool.job_done();
        }
    }

    let expected: Vec<u64> = (0..10u64).collect();
    assert_eq!(executed, expected);
    assert!(pool.is_drained());
    assert_eq!(pool.completed_count(), 10);
    assert_eq!(pool.accepted_count(), 10);
}

#[test]
fn single_worker_runs_jobs_in_submission_order() {
    let mut pool: Pool<&'static str> = Pool::new(1).unwrap();
    pool.submit("job a").unwrap();
    pool.submit("job b").unwrap();

    assert!(matches!(pool.take_job(), Recv::Job("job a")));
    // The single worker is busy: no second job may start.
    assert_eq!(pool.executing_count(), pool.worker_count());
    pool.job_done();
    assert!(matches!(pool.take_job(), Recv::Job("job b")));
    pool.job_done();
    assert!(pool.is_drained());
}

#[test]
fn shutdown_of_idle_pool_is_immediate() {
    let mut pool: Pool<u64> = Pool::new(2).unwrap();
    pool.begin_shutdown();
    assert!(pool.is_drained());
    assert!(matches!(pool.take_job(), Recv::Done));
    assert_eq!(pool.completed_count(), 0);
    assert_eq!(pool.accepted_count(), 0);
}

#[test]
fn submit_after_shutdown_fails_and_job_never_runs() {
    let mut pool: Pool<u64> = Pool::new(2).unwrap();
    pool.begin_shutdown();
    assert!(matches!(pool.submit(7), Err(PoolError::PoolClosed)));
    // The rejected job was never enqueued: the pool drains without it.
    assert!(matches!(pool.take_job(), Recv::Done));
    assert_eq!(pool.accepted_count(), 0);
    assert_eq!(pool.completed_count(), 0);
}

#[test]
fn failing_job_does_not_block_the_next() {
    let mut pool: Pool<&'static str> = Pool::new(1).unwrap();
    pool.submit("failing job").unwrap();
    pool.submit("normal job").unwrap();

    // The worker runs the first job, which fails internally; the worker
    // isolates the failure and reports the job finished all the same.
    assert!(matches!(pool.take_job(), Recv::Job("failing job")));
    pool.job_done();

    // The pool's capacity is intact: the second job still completes.
    assert!(matches!(pool.take_job(), Recv::Job("normal job")));
    pool.job_done();
    pool.begin_shutdown();
    assert!(pool.is_drained());
    assert_eq!(pool.completed_count(), 2);
}

#[test]
fn open_pool_with_no_pending_asks_worker_to_wait() {
    let mut pool: Pool<u64> = Pool::new(2).unwrap();
    assert!(matches!(pool.take_job(), Recv::Empty));
    assert!(pool.is_accepting());
}

#[test]
fn channel_delivers_in_fifo_order() {
    let mut ch: Channel<u64> = Channel::new();
    ch.send(1).unwrap();
    ch.send(2).unwrap();
    ch.send(3).unwrap();
    assert!(matches!(ch.try_receive(), Recv::Job(1)));
    assert!(matches!(ch.try_receive(), Recv::Job(2)));
    assert!(matches!(ch.try_receive(), Recv::Job(3)));
    assert!(matches!(ch.try_receive(), Recv::Empty));
}

#[test]
fn closed_channel_rejects_sends_but_drains() {
    let mut ch: Channel<u64> = Channel::new();
    ch.send(1).unwrap();
    ch.close();
    ch.close();
    assert!(matches!(ch.send(2), Err(PoolError::PoolClosed)));
    assert!(matches!(ch.try_receive(), Recv::Job(1)));
    assert!(matches!(ch.try_receive(), Recv::Done));
}
