use coin_server::joiner::{JoinDirective, JoinerCore, ThreadEvent};
use coin_server::pool::PoolCore;

#[test]
fn a_fresh_pool_has_every_slot_ready_in_id_order() {
    let mut pool = PoolCore::new(3);
    assert_eq!(pool.take_ready(), Some(0));
    assert_eq!(pool.take_ready(), Some(1));
    assert_eq!(pool.take_ready(), Some(2));
    assert_eq!(pool.take_ready(), None);
}

#[test]
fn jobs_are_delivered_oldest_first_and_never_dropped() {
    let mut pool = PoolCore::new(2);
    pool.submit(10).unwrap();
    pool.submit(11).unwrap();
    pool.submit(12).unwrap();
    assert_eq!(pool.next_job(), Some(10));
    assert_eq!(pool.next_job(), Some(11));
    assert_eq!(pool.next_job(), Some(12));
    assert_eq!(pool.next_job(), None);
}

#[test]
fn submit_fails_only_once_the_pool_is_torn_down() {
    let mut pool = PoolCore::new(1);
    assert!(pool.submit(1).is_ok());
    pool.close();
    assert!(pool.submit(2).is_err());
    // The job accepted before teardown is still queued.
    assert_eq!(pool.next_job(), Some(1));
}

#[test]
fn a_crashed_worker_is_respawned_under_the_same_id() {
    let mut pool = PoolCore::new(3);
    // All three take work; then one crashes mid-job.
    assert_eq!(pool.take_ready(), Some(0));
    assert_eq!(pool.take_ready(), Some(1));
    assert_eq!(pool.take_ready(), Some(2));
    pool.worker_exited(1);
    // The two healthy workers finish and announce again.
    pool.worker_ready(0);
    pool.worker_ready(2);
    // The dispatcher's timeout elapses and the recovery scan runs:
    // slot 1 is respawned and announces, capacity stays three.
    pool.recover();
    assert_eq!(pool.take_ready(), Some(0));
    assert_eq!(pool.take_ready(), Some(2));
    assert_eq!(pool.take_ready(), Some(1));
    assert_eq!(pool.take_ready(), None);
}

#[test]
fn a_pool_still_serves_after_every_worker_crashed() {
    let mut pool = PoolCore::new(2);
    assert_eq!(pool.take_ready(), Some(0));
    assert_eq!(pool.take_ready(), Some(1));
    pool.worker_exited(0);
    pool.worker_exited(1);
    assert_eq!(pool.take_ready(), None);
    pool.recover();
    pool.submit(99).unwrap();
    assert_eq!(pool.next_job(), Some(99));
    assert!(pool.take_ready().is_some());
}

#[test]
fn joiner_joins_a_finished_thread_exactly_once() {
    let mut joiner = JoinerCore::new();
    assert!(matches!(
        joiner.on_event(ThreadEvent::Started(7)),
        JoinDirective::Recorded
    ));
    match joiner.on_event(ThreadEvent::Finished(7)) {
        JoinDirective::JoinOne(id) => assert_eq!(id, 7),
        _ => panic!("expected a join directive"),
    }
    // A second Finished for the same id finds no handle.
    assert!(matches!(
        joiner.on_event(ThreadEvent::Finished(7)),
        JoinDirective::Skip
    ));
}

#[test]
fn joiner_sweeps_whatever_is_still_outstanding_at_stop() {
    let mut joiner = JoinerCore::new();
    joiner.on_event(ThreadEvent::Started(1));
    joiner.on_event(ThreadEvent::Started(2));
    joiner.on_event(ThreadEvent::Started(3));
    joiner.on_event(ThreadEvent::Finished(2));
    match joiner.on_event(ThreadEvent::Stop) {
        JoinDirective::Sweep(ids) => assert_eq!(ids, vec![1, 3]),
        _ => panic!("expected a sweep"),
    }
}

#[test]
fn joiner_with_nothing_outstanding_sweeps_nothing() {
    let mut joiner = JoinerCore::new();
    match joiner.on_event(ThreadEvent::Stop) {
        JoinDirective::Sweep(ids) => assert!(ids.is_empty()),
        _ => panic!("expected a sweep"),
    }
}

#[test]
fn shutdown_with_one_session_mid_read_joins_it() {
    // One session thread is blocked in its read timeout when the server
    // controller is destroyed: the accept loop stops, and the joiner's
    // teardown names that one thread, so nothing is leaked.
    let mut joiner = JoinerCore::new();
    joiner.on_event(ThreadEvent::Started(42));
    match joiner.on_event(ThreadEvent::Stop) {
        JoinDirective::Sweep(ids) => assert_eq!(ids, vec![42]),
        _ => panic!("expected a sweep"),
    }
}
