use thunder::connection_manager::{AcquireError, ConnectionManager, ConnectionManagerConfig};

const SOFT_LIMIT: usize = 4096;
const OPEN_FDS: usize = 16;

/// One full acquisition: queue, attempts until granted or past the
/// deadline (the clock advancing by each wait), leave the queue.
fn acquire(m: &mut ConnectionManager, tenant: &str, exec: &str, timeout_ms: Option<u64>, now_us: u64) -> Result<u64, AcquireError> {
    let deadline = m.begin_acquire(now_us, timeout_ms)?;
    let mut now = now_us;
    let r = loop {
        match m.try_acquire_now(tenant, exec, SOFT_LIMIT, OPEN_FDS, now) {
            Ok(id) => break Ok(id),
            Err(AcquireError::Backpressure) => match m.after_backpressure(now, deadline) {
                None => break Err(AcquireError::Timeout),
                Some(wait) => now += wait,
            },
            Err(e) => break Err(e),
        }
    };
    m.end_acquire();
    r
}

#[test]
fn connection_manager_acquire_and_release_updates_snapshot() {
    let mut config = ConnectionManagerConfig::default_config();
    config.queue_max_waiters = 8;
    config.per_tenant_max_active = 8;
    let mut manager = ConnectionManager::new(config, 0);

    let lease_id = acquire(&mut manager, "tenant-a", "exec-1", None, 1_000).expect("lease should be acquired");

    let snapshot = manager.snapshot(SOFT_LIMIT, OPEN_FDS);
    assert_eq!(snapshot.active_leases, 1);
    assert_eq!(snapshot.total_acquired, 1);

    assert!(manager.release_lease(lease_id));
    let snapshot = manager.snapshot(SOFT_LIMIT, OPEN_FDS);
    assert_eq!(snapshot.active_leases, 0);
    assert_eq!(snapshot.total_released, 1);
}

#[test]
fn connection_manager_per_tenant_limit_is_enforced() {
    let mut config = ConnectionManagerConfig::default_config();
    config.queue_max_waiters = 1;
    config.per_tenant_max_active = 1;
    config.default_wait_timeout_ms = 1;
    let mut manager = ConnectionManager::new(config, 0);

    let lease_id = acquire(&mut manager, "tenant-limited", "exec-a", None, 1_000).expect("first lease should be acquired");
    let second = acquire(&mut manager, "tenant-limited", "exec-b", Some(1), 2_000);
    assert!(matches!(second, Err(AcquireError::Timeout)));

    assert!(manager.release_lease(lease_id));
}

#[test]
fn full_queue_is_refused_with_backpressure() {
    let mut config = ConnectionManagerConfig::default_config();
    config.queue_max_waiters = 0;
    let mut manager = ConnectionManager::new(config, 0);
    assert!(matches!(manager.begin_acquire(0, None), Err(AcquireError::Backpressure)));
    assert_eq!(manager.snapshot(SOFT_LIMIT, OPEN_FDS).total_rejected, 1);
}

#[test]
fn snapshot_counts_stay_consistent() {
    let mut manager = ConnectionManager::new(ConnectionManagerConfig::default_config(), 0);
    let a = acquire(&mut manager, "t1", "e1", None, 1_000).expect("a");
    let _b = acquire(&mut manager, "t1", "e2", None, 2_000).expect("b");
    let _c = acquire(&mut manager, "t2", "e2", None, 3_000).expect("c");
    assert!(manager.release_lease(a));
    assert!(!manager.release_lease(a));
    assert_eq!(manager.release_execution_leases("e2"), 2);
    let _d = acquire(&mut manager, "t3", "e3", None, 4_000).expect("d");

    let s = manager.snapshot(SOFT_LIMIT, OPEN_FDS);
    assert_eq!(s.total_acquired, 4);
    assert_eq!(s.total_released, 3);
    assert_eq!(s.active_leases, 1);
    assert_eq!(s.total_acquired, s.total_released + s.active_leases);
    assert_eq!(s.known_tenants, 1);
    assert_eq!(s.top_tenants_by_active.len(), 1);
    assert!(s.top_tenants_by_active.iter().all(|t| t.active >= 1));
}

#[test]
fn waiting_times_out_after_the_deadline() {
    let mut manager = ConnectionManager::new(ConnectionManagerConfig::default_config(), 0);
    assert_eq!(manager.after_backpressure(5, 30_000), Some(10_000));
    assert_eq!(manager.after_backpressure(25_000, 30_000), Some(5_000));
    assert_eq!(manager.after_backpressure(30_000, 30_000), None);
    assert_eq!(manager.snapshot(SOFT_LIMIT, OPEN_FDS).total_timeouts, 1);
}
