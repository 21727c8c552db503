use rustic_server::pool::{worker_step, ThreadPool, WorkerAction, WorkerMessage, WorkerPhase};

#[test]
fn create_spawns_requested_workers() {
    let p = ThreadPool::new(4);
    assert_eq!(p.worker_count(), 4);
    assert_eq!(p.live_worker_count(), 4);
    assert!(p.is_open());
    assert_eq!(p.pending_count(), 0);
    assert_eq!(p.submitted_count(), 0);
}

#[test]
fn every_pool_size_starts_fully_live() {
    let mut size: usize = 1;
    while size <= 5 {
        let p = ThreadPool::new(size);
        assert_eq!(p.live_worker_count(), size);
        size += 1;
    }
}

#[test]
fn worker_runs_received_job_and_exits_on_closure() {
    assert_eq!(
        worker_step(WorkerMessage::NewJob(7)),
        WorkerAction::RunJob(7)
    );
    assert_eq!(worker_step(WorkerMessage::Disconnected), WorkerAction::Exit);
}

#[test]
fn submission_numbers_are_sequential() {
    let mut p = ThreadPool::new(2);
    assert_eq!(p.execute(), 0);
    assert_eq!(p.execute(), 1);
    assert_eq!(p.execute(), 2);
    assert_eq!(p.submitted_count(), 3);
    assert_eq!(p.pending_count(), 3);
}

#[test]
fn jobs_are_delivered_in_submission_order() {
    let mut p = ThreadPool::new(1);
    let a = p.execute();
    let b = p.execute();
    let c = p.execute();
    assert_eq!(p.deliver(0), a);
    p.complete(0);
    assert_eq!(p.deliver(0), b);
    p.complete(0);
    assert_eq!(p.deliver(0), c);
    p.complete(0);
    assert_eq!(p.executed_ids(), &vec![a, b, c]);
}

#[test]
fn worker_phase_follows_lifecycle() {
    let mut p = ThreadPool::new(1);
    assert_eq!(p.worker_phase(0), WorkerPhase::Running);
    let id = p.execute();
    p.deliver(0);
    assert_eq!(p.worker_phase(0), WorkerPhase::Executing(id));
    p.complete(0);
    assert_eq!(p.worker_phase(0), WorkerPhase::Running);
    p.close();
    p.observe_closed(0);
    assert_eq!(p.worker_phase(0), WorkerPhase::Terminated);
    assert!(!p.worker_joined(0));
    p.join_worker(0);
    assert!(p.worker_joined(0));
}

#[test]
fn five_jobs_two_workers_all_execute_exactly_once() {
    let mut p = ThreadPool::new(2);
    let mut i: u64 = 0;
    while i < 5 {
        p.execute();
        i += 1;
    }
    // The two workers race for the queue; let them alternate.
    let mut turn: usize = 0;
    while p.pending_count() > 0 {
        p.deliver(turn);
        p.complete(turn);
        turn = 1 - turn;
    }
    p.close();
    p.observe_closed(0);
    p.observe_closed(1);
    p.join_worker(0);
    p.join_worker(1);

    let executed = p.executed_ids();
    assert_eq!(executed.len(), 5);
    for i in 0..executed.len() {
        for j in (i + 1)..executed.len() {
            assert_ne!(executed[i], executed[j]);
        }
        assert!(executed[i] < 5);
    }
    assert_eq!(p.live_worker_count(), 0);
    assert!(p.dropped_ids().is_empty());
    assert!(p.faulted_ids().is_empty());
}

#[test]
fn faulting_job_kills_its_worker_and_later_job_never_runs() {
    let mut p = ThreadPool::new(1);
    let first = p.execute();
    p.deliver(0);
    // The job panics: the fault stays on worker 0's thread, which exits for
    // good and is not replaced.
    p.fault(0);
    assert_eq!(p.worker_phase(0), WorkerPhase::Terminated);
    assert_eq!(p.live_worker_count(), 0);

    let second = p.execute();
    // Teardown still completes: the faulted worker's thread has already
    // exited, so its join returns at once; the second job is never executed.
    p.close();
    p.join_worker(0);
    assert_eq!(p.executed_ids().len(), 0);
    assert_eq!(p.faulted_ids(), &vec![first]);
    assert_eq!(p.dropped_ids(), &vec![second]);
    assert!(p.worker_joined(0));
}

#[test]
fn closing_drops_undelivered_jobs() {
    let mut p = ThreadPool::new(1);
    let a = p.execute();
    let b = p.execute();
    let c = p.execute();
    assert_eq!(p.deliver(0), a);
    p.complete(0);
    p.close();
    assert!(!p.is_open());
    assert_eq!(p.pending_count(), 0);
    assert_eq!(p.dropped_ids(), &vec![b, c]);
    assert_eq!(p.executed_ids(), &vec![a]);
}

#[test]
fn workers_keep_executing_after_closure() {
    let mut p = ThreadPool::new(2);
    let a = p.execute();
    p.deliver(0);
    p.close();
    // Worker 0 is mid-job at closure time; its job still runs to completion
    // before teardown can join it.
    assert_eq!(p.worker_phase(0), WorkerPhase::Executing(a));
    p.complete(0);
    p.observe_closed(0);
    p.observe_closed(1);
    p.join_worker(0);
    p.join_worker(1);
    assert_eq!(p.executed_ids(), &vec![a]);
    assert_eq!(p.live_worker_count(), 0);
}
