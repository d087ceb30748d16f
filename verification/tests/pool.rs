use port_scanner::pool::{launch_thread, port_checker, start_scan_thread, WorkerPool};
use port_scanner::ports::PortSet;

#[test]
fn probe_hands_on_open_ports_only() {
    assert_eq!(port_checker(8081, true), Some(8081));
    assert_eq!(port_checker(8081, false), None);
    assert_eq!(port_checker(0, true), Some(0));
}

#[test]
fn new_pool_is_idle() {
    let pool = WorkerPool::new(4);
    assert_eq!(pool.max_workers(), 4);
    assert_eq!(pool.active_count(), 0);
    assert_eq!(pool.queued_count(), 0);
    assert!(pool.is_idle());
}

#[test]
fn one_task_for_each_port() {
    for (a, b) in [(80u16, 80u16), (8080, 8082), (0, 1023), (65000, 65535)] {
        let ports = PortSet::new(a, b);
        let mut pool = WorkerPool::new(3);
        start_scan_thread(&ports, &mut pool);
        assert_eq!(pool.queued_count(), (b - a) as usize + 1);
        assert_eq!(pool.active_count(), 0);
        assert!(!pool.is_idle());
    }
}

#[test]
fn every_port_gets_a_task() {
    let mut pool = WorkerPool::new(1);
    start_scan_thread(&PortSet::full(), &mut pool);
    assert_eq!(pool.queued_count(), 65536);
}

#[test]
fn tasks_are_taken_in_ascending_order() {
    let mut pool = WorkerPool::new(10);
    start_scan_thread(&PortSet::new(8082, 8080), &mut pool);
    assert_eq!(pool.take(), Some(8080));
    assert_eq!(pool.take(), Some(8081));
    assert_eq!(pool.take(), Some(8082));
    assert_eq!(pool.take(), None);
    assert_eq!(pool.active_count(), 3);
    assert_eq!(pool.queued_count(), 0);
}

#[test]
fn no_more_in_flight_than_workers() {
    let mut pool = WorkerPool::new(2);
    start_scan_thread(&PortSet::new(1, 5), &mut pool);
    assert_eq!(pool.take(), Some(1));
    assert_eq!(pool.take(), Some(2));
    assert_eq!(pool.take(), None);
    assert_eq!(pool.active_count(), 2);
    assert_eq!(pool.queued_count(), 3);
    assert!(pool.complete(1));
    assert_eq!(pool.active_count(), 1);
    assert_eq!(pool.take(), Some(3));
    assert_eq!(pool.take(), None);
    assert_eq!(pool.active_count(), 2);
}

#[test]
fn completing_what_is_not_in_flight_changes_nothing() {
    let mut pool = WorkerPool::new(2);
    start_scan_thread(&PortSet::new(1, 3), &mut pool);
    assert!(!pool.complete(1));
    assert_eq!(pool.take(), Some(1));
    assert!(!pool.complete(2));
    assert!(pool.complete(1));
    assert!(!pool.complete(1));
    assert_eq!(pool.active_count(), 0);
    assert_eq!(pool.queued_count(), 2);
}

#[test]
fn pool_is_idle_when_all_work_has_ended() {
    let mut pool = WorkerPool::new(2);
    launch_thread(&mut pool, 443);
    launch_thread(&mut pool, 80);
    assert!(!pool.is_idle());
    assert_eq!(pool.take(), Some(443));
    assert_eq!(pool.take(), Some(80));
    assert!(!pool.is_idle());
    assert!(pool.complete(80));
    assert!(!pool.is_idle());
    assert!(pool.complete(443));
    assert!(pool.is_idle());
}

#[test]
fn a_port_submitted_twice_is_probed_twice() {
    let mut pool = WorkerPool::new(3);
    launch_thread(&mut pool, 80);
    launch_thread(&mut pool, 81);
    launch_thread(&mut pool, 80);
    assert_eq!(pool.take(), Some(80));
    assert_eq!(pool.take(), Some(81));
    assert_eq!(pool.take(), Some(80));
    assert!(pool.complete(80));
    assert_eq!(pool.active_count(), 2);
    assert!(pool.complete(80));
    assert!(!pool.complete(80));
    assert!(pool.complete(81));
    assert!(pool.is_idle());
}
