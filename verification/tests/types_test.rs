use thunder::metrics::FunctionMetrics;
use thunder::types::{BundleFormat, BundlePackage, FunctionStatus, PoolLimits};

fn check_atomic_counters() {
    let mut m = FunctionMetrics::default();
    m.total_requests = m.total_requests.wrapping_add(5);
    m.active_requests = m.active_requests.wrapping_add(2);
    m.total_errors = m.total_errors.wrapping_add(1);
    m.total_cpu_time_ms = m.total_cpu_time_ms.wrapping_add(100);
    let snap = m.snapshot();
    assert_eq!(snap.total_requests, 5);
    assert_eq!(snap.active_requests, 2);
    assert_eq!(snap.total_errors, 1);
    assert_eq!(snap.total_cpu_time_ms, 100);
}

#[test]
fn types_function_metrics_atomic_counters() {
    check_atomic_counters();
}

#[test]
fn types_test_function_metrics_atomic_counters() {
    check_atomic_counters();
}

fn check_default_zeros() {
    let m = FunctionMetrics::default();
    assert_eq!(m.total_requests, 0);
    assert_eq!(m.active_requests, 0);
    assert_eq!(m.total_errors, 0);
    assert_eq!(m.total_cpu_time_ms, 0);
}

#[test]
fn types_function_metrics_default_zeros() {
    check_default_zeros();
}

#[test]
fn types_test_function_metrics_default_zeros() {
    check_default_zeros();
}

#[test]
fn status_and_format_names() {
    assert_eq!(FunctionStatus::Loading.as_str(), "loading");
    assert_eq!(FunctionStatus::Running.as_str(), "running");
    assert_eq!(FunctionStatus::Error.as_str(), "error");
    assert_eq!(FunctionStatus::ShuttingDown.as_str(), "shutting_down");
    assert_eq!(BundleFormat::Eszip.as_str(), "eszip");
    assert_eq!(BundleFormat::Snapshot.as_str(), "snapshot");
    assert_eq!(BundleFormat::default(), BundleFormat::Eszip);
}

#[test]
fn pool_limits_default_is_single_isolate() {
    let l = PoolLimits::default();
    assert_eq!((l.min, l.max), (1, 1));
}

#[test]
fn bundle_package_constructors_and_compatibility() {
    let p = BundlePackage::snapshot_with_fallback(vec![1, 2], vec![3], "12.0");
    assert_eq!(p.format, BundleFormat::Snapshot);
    assert!(p.is_v8_compatible("12.0"));
    assert!(!p.is_v8_compatible("13.0"));
    assert_eq!(p.eszip_bytes(), vec![3]);
    let q = BundlePackage::eszip_only(vec![7, 8], "12.0");
    assert_eq!(q.format, BundleFormat::Eszip);
    assert_eq!(q.eszip_bytes(), vec![7, 8]);
}
