use thunder::metrics::{FunctionMetrics, GlobalMetrics};

#[test]
fn global_metrics_default_zeros() {
    let m = GlobalMetrics::default();
    let snap = m.snapshot();
    assert_eq!(snap.total_requests, 0);
    assert_eq!(snap.total_errors, 0);
}

#[test]
fn global_metrics_snapshot_reflects_updates() {
    let mut m = GlobalMetrics::default();
    m.total_requests = m.total_requests.wrapping_add(42);
    m.total_errors = m.total_errors.wrapping_add(7);
    let snap = m.snapshot();
    assert_eq!(snap.total_requests, 42);
    assert_eq!(snap.total_errors, 7);
}

#[test]
fn function_metrics_snapshot_means() {
    let mut m = FunctionMetrics::default();
    m.record_cold_start(30);
    m.record_cold_start(10);
    m.total_cold_start_time_us = 40_000;
    m.record_request_start();
    m.record_request_end(9, 3, false);
    m.record_request_start();
    m.record_request_end(4, 1, true);
    m.total_warm_start_time_us = 13_001;
    let s = m.snapshot();
    assert_eq!(s.cold_starts, 2);
    assert_eq!(s.avg_cold_start_ms, 20);
    assert_eq!(s.avg_cold_start_us, 20_000);
    assert_eq!(s.total_requests, 2);
    assert_eq!(s.active_requests, 0);
    assert_eq!(s.total_errors, 1);
    assert_eq!(s.total_cpu_time_ms, 4);
    assert_eq!(s.avg_warm_request_ms, 6);
    assert_eq!(s.avg_warm_request_us, 6500);
}

#[test]
fn function_metrics_means_are_zero_without_samples() {
    let m = FunctionMetrics::default();
    let s = m.snapshot();
    assert_eq!(s.avg_cold_start_ms, 0);
    assert_eq!(s.avg_warm_request_us, 0);
}

#[test]
fn request_start_then_end_balances_active_count() {
    let mut m = FunctionMetrics::default();
    m.active_requests = 3;
    m.record_request_start();
    m.record_request_end(0, 0, false);
    assert_eq!(m.active_requests, 3);
    assert_eq!(m.total_requests, 1);
}
