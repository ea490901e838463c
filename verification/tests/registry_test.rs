use thunder::metrics::FunctionMetrics;
use thunder::registry::{apply_manifest_resources, memory_allows_replica, FunctionRegistry, RegistryError};
use thunder::types::{
    BundleFormat, FunctionEntry, FunctionStatus, IsolateConfig, IsolateHandle, ManifestResources, PoolLimits,
    PoolRuntimeConfig, SsrfConfig,
};

fn config() -> IsolateConfig {
    IsolateConfig {
        max_heap_size_bytes: 128 * 1024 * 1024,
        cpu_time_limit_ms: 50_000,
        wall_clock_timeout_ms: 60_000,
        inspect_port: None,
        inspect_brk: false,
        inspect_allow_remote: false,
        enable_source_maps: false,
        ssrf_config: SsrfConfig::new(),
        print_isolate_logs: true,
        vfs_total_quota_bytes: 10 * 1024 * 1024,
        vfs_max_file_bytes: 5 * 1024 * 1024,
        dns_doh_endpoint: "https://1.1.1.1/dns-query".to_string(),
        dns_max_answers: 16,
        dns_timeout_ms: 2000,
        zlib_max_output_length: 16 * 1024 * 1024,
        zlib_max_input_length: 8 * 1024 * 1024,
        zlib_operation_timeout_ms: 250,
        egress_max_requests_per_execution: 0,
        context_pool_enabled: false,
        max_contexts_per_isolate: 8,
        max_active_requests_per_context: 1,
    }
}

fn make_registry() -> FunctionRegistry {
    FunctionRegistry::new(config())
}

fn make_registry_with_pool(enabled: bool) -> FunctionRegistry {
    FunctionRegistry::new_with_pool(
        config(),
        PoolRuntimeConfig { enabled, global_max_isolates: 16, min_free_memory_mib: 0 },
        PoolLimits::default(),
    )
}

fn handle(id: u128, alive: bool) -> IsolateHandle {
    IsolateHandle { id, alive, request_channel_closed: false }
}

fn entry(name: &str, primary: Option<IsolateHandle>, extras: Vec<IsolateHandle>, limits: PoolLimits) -> FunctionEntry {
    FunctionEntry {
        name: name.to_string(),
        eszip_bytes: vec![],
        bundle_format: BundleFormat::Eszip,
        package_v8_version: "12.0".to_string(),
        isolate_handle: primary,
        extra_isolate_handles: extras,
        pool_limits: limits,
        next_handle_index: 0,
        inspector_stop: false,
        status: FunctionStatus::Running,
        config: config(),
        manifest_resources: None,
        metrics: FunctionMetrics::default(),
        created_at_ms: 0,
        updated_at_ms: 0,
        last_error: None,
    }
}

fn check_empty_count(reg: &FunctionRegistry) {
    assert_eq!(reg.count(), 0);
}

#[test]
fn registry_empty_registry_count_zero() {
    check_empty_count(&make_registry());
}

#[test]
fn registry_test_empty_registry_count_zero() {
    check_empty_count(&make_registry());
}

#[test]
fn registry_empty_registry_list_empty() {
    assert!(make_registry().list_at(0, "12.0").is_empty());
}

#[test]
fn registry_test_empty_registry_list_empty() {
    assert!(make_registry().list_at(0, "12.0").is_empty());
}

#[test]
fn registry_get_handle_none_for_missing() {
    assert!(make_registry().get_handle("nonexistent").is_none());
}

#[test]
fn registry_test_get_handle_none_for_missing() {
    assert!(make_registry().get_handle("nonexistent").is_none());
}

#[test]
fn registry_get_info_none_for_missing() {
    assert!(make_registry().get_info_at("nonexistent", 0, "12.0").is_none());
}

#[test]
fn registry_test_get_info_none_for_missing() {
    assert!(make_registry().get_info_at("nonexistent", 0, "12.0").is_none());
}

fn check_delete_missing() {
    let mut reg = make_registry();
    let result = reg.delete("nonexistent");
    assert!(result.is_err());
    assert!(result.unwrap_err().message().contains("not found"));
}

#[test]
fn registry_delete_missing_returns_error() {
    check_delete_missing();
}

#[test]
fn registry_test_delete_missing_returns_error() {
    check_delete_missing();
}

fn check_dead_isolate() {
    let mut reg = make_registry();
    let e = entry("dead-fn", Some(handle(1, false)), vec![], PoolLimits::default());
    reg.finish_entry("dead-fn".to_string(), e, "12.0");
    assert!(reg.get_handle_at("dead-fn", 5).is_none());
    let info = reg.get_info_at("dead-fn", 6, "12.0").expect("missing function info");
    assert_eq!(info.status, FunctionStatus::Error);
    assert!(info.last_error.is_some());
}

#[test]
fn registry_dead_isolate_is_marked_as_error_in_registry() {
    check_dead_isolate();
}

#[test]
fn registry_test_dead_isolate_is_marked_as_error_in_registry() {
    check_dead_isolate();
}

fn check_shutdown() {
    let mut reg = make_registry();
    let e = entry("shutdown-fn", Some(handle(1, true)), vec![], PoolLimits::default());
    reg.finish_entry("shutdown-fn".to_string(), e, "12.0");
    let handles = reg.begin_shutdown(7);
    assert_eq!(handles.len(), 1);
    let info = reg.get_info_at("shutdown-fn", 8, "12.0").expect("info");
    assert_eq!(info.status, FunctionStatus::ShuttingDown);
    reg.clear_all();
    assert_eq!(reg.count(), 0);
}

#[test]
fn registry_shutdown_all_with_deadline_closes_registry_entries() {
    check_shutdown();
}

#[test]
fn registry_test_shutdown_all_with_deadline_closes_registry_entries() {
    check_shutdown();
}

fn check_round_robin() {
    let mut reg = make_registry_with_pool(true);
    let primary = handle(10, true);
    let replica = handle(20, true);
    let e = entry("rr-fn", Some(primary), vec![replica], PoolLimits { min: 1, max: 2 });
    reg.finish_entry("rr-fn".to_string(), e, "12.0");
    let h1 = reg.get_handle("rr-fn").expect("missing first handle");
    let h2 = reg.get_handle("rr-fn").expect("missing second handle");
    let h3 = reg.get_handle("rr-fn").expect("missing third handle");
    assert_eq!(h1.id, primary.id);
    assert_eq!(h2.id, replica.id);
    assert_eq!(h3.id, primary.id);
}

#[test]
fn registry_get_handle_round_robin_across_replicas() {
    check_round_robin();
}

#[test]
fn registry_test_get_handle_round_robin_across_replicas() {
    check_round_robin();
}

fn check_set_pool_limits() {
    let mut reg = make_registry_with_pool(true);
    let e = entry("pool-fn", Some(handle(1, true)), vec![], PoolLimits::default());
    reg.finish_entry("pool-fn".to_string(), e, "12.0");
    let (entry, dropped) = reg.begin_pool_resize("pool-fn", 1, 3).expect("set_pool_limits should succeed");
    assert!(dropped.is_empty());
    reg.finish_entry("pool-fn".to_string(), entry, "12.0");
    let limits = reg.get_pool_limits("pool-fn").expect("pool limits missing");
    assert_eq!(limits.min, 1);
    assert_eq!(limits.max, 3);
}

#[test]
fn registry_set_pool_limits_updates_entry_when_pool_enabled() {
    check_set_pool_limits();
}

#[test]
fn registry_test_set_pool_limits_updates_entry_when_pool_enabled() {
    check_set_pool_limits();
}

fn check_evict_oldest() {
    let mut reg = make_registry_with_pool(true);
    let a = entry("fn-a", Some(handle(1, true)), vec![handle(2, true)], PoolLimits { min: 1, max: 2 });
    let b = entry("fn-b", Some(handle(3, true)), vec![handle(4, true)], PoolLimits { min: 1, max: 2 });
    reg.finish_entry("fn-a".to_string(), a, "12.0");
    reg.finish_entry("fn-b".to_string(), b, "12.0");
    // fn-b's replica was used last, so fn-a's is the least recently used.
    reg.mark_handle_used(4);
    assert!(reg.evict_lru_replica_for_capacity());
    assert_eq!(reg.get_info_at("fn-a", 0, "12.0").expect("missing fn-a").pool.current, 1);
    assert_eq!(reg.get_info_at("fn-b", 0, "12.0").expect("missing fn-b").pool.current, 2);
}

#[test]
fn registry_evict_lru_replica_prefers_oldest_extra_handle() {
    check_evict_oldest();
}

#[test]
fn registry_test_evict_lru_replica_prefers_oldest_extra_handle() {
    check_evict_oldest();
}

fn check_evict_min() {
    let mut reg = make_registry_with_pool(true);
    let e = entry("fn-min", Some(handle(1, true)), vec![handle(2, true)], PoolLimits { min: 2, max: 2 });
    reg.finish_entry("fn-min".to_string(), e, "12.0");
    assert!(!reg.evict_lru_replica_for_capacity());
    assert_eq!(reg.get_info_at("fn-min", 0, "12.0").expect("missing fn-min").pool.current, 2);
}

#[test]
fn registry_evict_lru_replica_respects_min_pool_size() {
    check_evict_min();
}

#[test]
fn registry_test_evict_lru_replica_respects_min_pool_size() {
    check_evict_min();
}

#[test]
fn dead_primary_handle_can_transition_back_to_running() {
    let mut reg = make_registry();
    let handle = handle(77, false);
    let e = entry("recover-fn", Some(handle), vec![], PoolLimits::default());
    reg.finish_entry("recover-fn".to_string(), e, "12.0");

    assert!(reg.get_handle("recover-fn").is_none());
    assert_eq!(reg.get_info_at("recover-fn", 1, "12.0").expect("missing info").status, FunctionStatus::Error);

    assert!(reg.set_handle_liveness("recover-fn", handle.id, true));

    let recovered_handle = reg.get_handle("recover-fn").expect("expected handle after recovery");
    assert_eq!(recovered_handle.id, handle.id);
    assert_eq!(reg.get_info_at("recover-fn", 2, "12.0").expect("missing info").status, FunctionStatus::Running);
}

#[test]
fn deploy_refuses_taken_names_and_applies_manifest() {
    let mut reg = make_registry_with_pool(true);
    let res = Some(ManifestResources { max_heap_mi_b: Some(64), cpu_time_ms: Some(10), wall_clock_timeout_ms: None });
    let c = reg.begin_deploy("x", None, &res).expect("free name");
    assert_eq!(c.max_heap_size_bytes, 64 * 1024 * 1024);
    assert_eq!(c.cpu_time_limit_ms, 10);
    assert_eq!(c.wall_clock_timeout_ms, 60_000);
    let mut e = entry("x", Some(handle(1, true)), vec![], PoolLimits { min: 9, max: 9 });
    reg.prepare_deployed_entry(&mut e);
    assert_eq!((e.pool_limits.min, e.pool_limits.max), (1, 1));
    reg.finish_entry("x".to_string(), e, "12.0");
    let err = reg.begin_deploy("x", None, &None).unwrap_err();
    assert_eq!(err, RegistryError::AlreadyExists("x".to_string()));
    assert_eq!(err.message(), "function 'x' already exists, use PUT to update");
}

#[test]
fn update_takes_old_entry_and_keeps_its_manifest() {
    let mut reg = make_registry();
    let mut e = entry("u", Some(handle(1, true)), vec![], PoolLimits::default());
    e.manifest_resources = Some(ManifestResources { max_heap_mi_b: None, cpu_time_ms: Some(5), wall_clock_timeout_ms: None });
    reg.finish_entry("u".to_string(), e, "12.0");
    let (old, cfg, res) = reg.begin_update("u", None, None);
    assert!(old.is_some());
    assert_eq!(cfg.cpu_time_limit_ms, 5);
    assert_eq!(res.unwrap().cpu_time_ms, Some(5));
    assert_eq!(reg.count(), 0);
}

#[test]
fn pool_resize_drops_replicas_above_max_and_validates() {
    let mut reg = make_registry_with_pool(true);
    let e = entry("p", Some(handle(1, true)), vec![handle(2, true), handle(3, true)], PoolLimits { min: 1, max: 3 });
    reg.finish_entry("p".to_string(), e, "12.0");
    assert_eq!(reg.begin_pool_resize("p", 3, 1).err(), Some(RegistryError::InvalidPoolLimits));
    assert_eq!(reg.begin_pool_resize("q", 1, 1).err(), Some(RegistryError::NotFound("q".to_string())));
    let (e, dropped) = reg.begin_pool_resize("p", 1, 1).expect("resize");
    assert_eq!(dropped.iter().map(|h| h.id).collect::<Vec<_>>(), vec![3, 2]);
    assert!(e.extra_isolate_handles.is_empty());
    assert!(!reg.wants_replica(&e));
}

#[test]
fn admission_requires_pooling() {
    let mut reg = make_registry_with_pool(false);
    assert!(!reg.admit_replica());
    assert!(memory_allows_replica(Some(512 * 1024 * 1024), 256));
    assert!(!memory_allows_replica(Some(255 * 1024 * 1024), 256));
    assert!(!memory_allows_replica(None, 0));
    let mut c = config();
    apply_manifest_resources(&mut c, &ManifestResources { max_heap_mi_b: None, cpu_time_ms: None, wall_clock_timeout_ms: Some(7) });
    assert_eq!(c.wall_clock_timeout_ms, 7);
    assert_eq!(c.max_heap_size_bytes, 128 * 1024 * 1024);
}

#[test]
fn total_isolates_counts_every_pool() {
    let mut reg = make_registry_with_pool(true);
    reg.finish_entry("a".to_string(), entry("a", Some(handle(1, true)), vec![handle(2, true)], PoolLimits { min: 1, max: 2 }), "12.0");
    reg.finish_entry("b".to_string(), entry("b", None, vec![handle(3, true)], PoolLimits { min: 1, max: 2 }), "12.0");
    assert_eq!(reg.current_total_isolates(), 3);
}

#[test]
fn list_describes_every_function() {
    let mut reg = make_registry();
    assert!(reg.list_at(0, "12.0").is_empty());
    reg.finish_entry("a".to_string(), entry("a", Some(handle(1, true)), vec![], PoolLimits::default()), "12.0");
    reg.finish_entry("b".to_string(), entry("b", Some(handle(2, false)), vec![], PoolLimits::default()), "12.0");
    let mut infos = reg.list_at(9, "13.0");
    infos.sort_by(|x, y| x.name.cmp(&y.name));
    assert_eq!(infos.len(), 2);
    assert_eq!(infos[0].name, "a");
    assert_eq!(infos[0].status, FunctionStatus::Running);
    assert!(!infos[0].snapshot_compatible_with_runtime);
    assert_eq!(infos[1].status, FunctionStatus::Error);
    assert_eq!(infos[1].updated_at_ms, 9);
}
