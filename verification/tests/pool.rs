use ptodd::pool::{Error, Received, ThreadPool};

#[test]
fn build_zero_fails() {
    assert_eq!(ThreadPool::build(0).err(), Some(Error::EmptyPool));
}

#[test]
fn build_spawns_requested_workers() {
    let pool = ThreadPool::build(4).unwrap();
    assert_eq!(pool.workers.len(), 4);
    for (index, worker) in pool.workers.iter().enumerate() {
        assert_eq!(worker.id, index);
        assert!(worker.alive);
        assert!(worker.running.is_none());
    }
}

#[test]
fn submissions_queue_in_order() {
    let mut pool = ThreadPool::build(2).unwrap();
    let first = pool.execute().unwrap();
    let second = pool.execute().unwrap();
    assert_eq!(first, 0);
    assert_eq!(second, 1);
    assert_eq!(pool.pending, vec![0, 1]);
}

#[test]
fn submit_after_shutdown_fails() {
    let mut pool = ThreadPool::build(2).unwrap();
    pool.execute().unwrap();
    pool.shutdown();
    assert_eq!(pool.execute(), Err(Error::ChannelClosed));
}

#[test]
fn shutdown_drains_and_stops_every_worker() {
    let mut pool = ThreadPool::build(3).unwrap();
    for _ in 0..7 {
        pool.execute().unwrap();
    }
    pool.shutdown();
    assert!(pool.pending.is_empty());
    assert!(pool.workers.iter().all(|w| !w.alive && w.running.is_none()));
    // Every submitted job was run, each exactly once.
    let mut seen: Vec<u64> = pool.done.iter().map(|(job, _)| *job).collect();
    seen.sort();
    assert_eq!(seen, (0..7).collect::<Vec<u64>>());
}

#[test]
fn each_job_goes_to_one_worker() {
    let mut pool = ThreadPool::build(2).unwrap();
    pool.execute().unwrap();
    pool.execute().unwrap();
    // Worker 0 claims the older job, worker 1 the newer one.
    assert_eq!(pool.recv(0), Received::Job(0));
    assert_eq!(pool.recv(1), Received::Job(1));
    assert_eq!(pool.workers[0].running, Some(0));
    assert_eq!(pool.workers[1].running, Some(1));
    // While worker 0 is still busy, worker 1 finishes its own job and
    // picks up the next submission: a slow job stalls only its worker.
    pool.complete(1);
    pool.execute().unwrap();
    assert_eq!(pool.recv(1), Received::Job(2));
    pool.complete(1);
    pool.complete(0);
    assert_eq!(pool.done, vec![(1, 1), (2, 1), (0, 0)]);
}

#[test]
fn idle_worker_blocks_while_queue_is_open() {
    let mut pool = ThreadPool::build(1).unwrap();
    assert_eq!(pool.recv(0), Received::WouldBlock);
    assert!(pool.workers[0].alive);
    pool.close();
    assert_eq!(pool.recv(0), Received::Disconnected);
    assert!(!pool.workers[0].alive);
}
