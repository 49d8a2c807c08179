use thread_pool::pool::{JobStatus, PoolState, WorkerAction, WorkerPhase};

fn run_until_drained(pool: &mut PoolState) -> Vec<(usize, usize)> {
    let mut runs = Vec::new();
    let mut steps = 0;
    while !pool.is_drained() {
        for w in 0..pool.worker_count() {
            if pool.phase_of(w) == WorkerPhase::Waiting {
                if let WorkerAction::Run(j) = pool.next_action(w) {
                    runs.push((w, j));
                    pool.complete(w);
                }
            }
        }
        steps += 1;
        assert!(steps < 1000, "pool never drained");
    }
    runs
}

#[test]
fn try_new_zero_is_error() {
    let r = PoolState::try_new(0);
    assert!(r.is_err());
    if let Err(e) = r {
        assert_eq!(e.details(), "Thread pool cannot be initilised with 0 threads");
    }
}

#[test]
fn try_new_positive_has_that_many_workers() {
    for k in 1..5 {
        let pool = PoolState::try_new(k).ok().unwrap();
        assert_eq!(pool.worker_count(), k);
        assert_eq!(pool.job_count(), 0);
        assert_eq!(pool.pending_count(), 0);
        assert!(pool.accepts_jobs());
        for w in 0..k {
            assert_eq!(pool.phase_of(w), WorkerPhase::Waiting);
        }
    }
}

#[test]
fn ten_jobs_on_two_workers_run_once_each() {
    let mut pool = PoolState::new(2);
    for i in 0..10 {
        assert_eq!(pool.submit(), i);
    }
    pool.close();
    let runs = run_until_drained(&mut pool);
    let mut ids: Vec<usize> = runs.iter().map(|r| r.1).collect();
    ids.sort();
    assert_eq!(ids, (0..10).collect::<Vec<usize>>());
    for j in 0..10 {
        assert_eq!(pool.status_of(j), JobStatus::Done);
    }
    assert_eq!(pool.phase_of(0), WorkerPhase::Exited);
    assert_eq!(pool.phase_of(1), WorkerPhase::Exited);
}

#[test]
fn single_worker_keeps_submission_order() {
    let mut pool = PoolState::new(1);
    let x = pool.submit();
    let y = pool.submit();
    assert_eq!(pool.next_action(0), WorkerAction::Run(x));
    assert_eq!(pool.status_of(x), JobStatus::Running(0));
    assert_eq!(pool.status_of(y), JobStatus::Queued);
    pool.complete(0);
    assert_eq!(pool.next_action(0), WorkerAction::Run(y));
    pool.complete(0);
    pool.close();
    assert_eq!(pool.next_action(0), WorkerAction::Exit);
    assert!(pool.is_drained());
}

#[test]
fn faulted_worker_leaves_the_rest_running() {
    let mut pool = PoolState::new(2);
    for _ in 0..4 {
        pool.submit();
    }
    assert_eq!(pool.next_action(0), WorkerAction::Run(0));
    pool.fault(0);
    assert_eq!(pool.phase_of(0), WorkerPhase::Faulted(0));
    assert_eq!(pool.status_of(0), JobStatus::Lost(0));
    pool.close();
    let runs = run_until_drained(&mut pool);
    assert_eq!(runs, vec![(1, 1), (1, 2), (1, 3)]);
    for j in 1..4 {
        assert_eq!(pool.status_of(j), JobStatus::Done);
    }
    assert_eq!(pool.phase_of(1), WorkerPhase::Exited);
}

#[test]
fn all_workers_faulted_strands_the_queue() {
    let mut pool = PoolState::new(1);
    pool.submit();
    pool.submit();
    pool.submit();
    assert_eq!(pool.next_action(0), WorkerAction::Run(0));
    pool.fault(0);
    pool.close();
    assert!(pool.is_drained());
    assert_eq!(pool.pending_count(), 2);
    assert_eq!(pool.status_of(1), JobStatus::Queued);
    assert_eq!(pool.status_of(2), JobStatus::Queued);
}

#[test]
fn waiting_worker_waits_on_open_empty_queue() {
    let mut pool = PoolState::new(3);
    assert_eq!(pool.next_action(2), WorkerAction::Wait);
    assert_eq!(pool.phase_of(2), WorkerPhase::Waiting);
    assert!(!pool.is_drained());
    let j = pool.submit();
    assert_eq!(pool.next_action(2), WorkerAction::Run(j));
    assert_eq!(pool.phase_of(2), WorkerPhase::Executing(j));
}

#[test]
fn submissions_get_fresh_ids() {
    let mut pool = PoolState::new(2);
    let ids: Vec<usize> = (0..50).map(|_| pool.submit()).collect();
    assert_eq!(ids, (0..50).collect::<Vec<usize>>());
    assert_eq!(pool.job_count(), 50);
    assert_eq!(pool.pending_count(), 50);
    let mut taken = Vec::new();
    for _ in 0..25 {
        for w in 0..2 {
            if let WorkerAction::Run(j) = pool.next_action(w) {
                taken.push(j);
                pool.complete(w);
            }
        }
    }
    assert_eq!(taken, (0..50).collect::<Vec<usize>>());
}

#[test]
fn close_keeps_queued_jobs() {
    let mut pool = PoolState::new(1);
    pool.submit();
    pool.close();
    assert!(!pool.accepts_jobs());
    assert_eq!(pool.next_action(0), WorkerAction::Run(0));
    pool.complete(0);
    assert_eq!(pool.status_of(0), JobStatus::Done);
    assert_eq!(pool.next_action(0), WorkerAction::Exit);
}
