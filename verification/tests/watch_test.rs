use thunder::types::IsolateConfig;
use thunder::watch::{
    assign_inspect_port, build_watch_default_config, build_watch_pool_config, function_config_for,
    inspector_host, is_skipped_component, is_watched_source, path_to_function_name, InspectPortError,
    WatchArgs, WatchBundleFormat,
};

fn sample_args() -> WatchArgs {
    WatchArgs {
        path: ".".to_string(),
        host: "0.0.0.0".to_string(),
        port: 9000,
        interval: 1000,
        format: WatchBundleFormat::Snapshot,
        max_heap_mib: 128,
        cpu_time_limit_ms: 50_000,
        wall_clock_timeout_ms: 60_000,
        inspect: None,
        inspect_brk: false,
        inspect_allow_remote: false,
        print_isolate_logs: true,
        vfs_total_quota_bytes: 10 * 1024 * 1024,
        vfs_max_file_bytes: 5 * 1024 * 1024,
        dns_doh_endpoint: "https://1.1.1.1/dns-query".to_string(),
        dns_max_answers: 16,
        dns_timeout_ms: 2000,
        zlib_max_output_length: 16 * 1024 * 1024,
        zlib_max_input_length: 8 * 1024 * 1024,
        zlib_operation_timeout_ms: 250,
        egress_max_requests_per_execution: 0,
        http_outgoing_proxy: None,
        https_outgoing_proxy: None,
        tcp_outgoing_proxy: None,
        http_no_proxy: vec![],
        https_no_proxy: vec![],
        tcp_no_proxy: vec![],
    }
}

fn check_default_config(cfg: &IsolateConfig) {
    assert!(!cfg.ssrf_config.enabled, "watch mode must allow all network by default");
    assert!(cfg.ssrf_config.allow_private_subnets.is_empty());
}

#[test]
fn watch_watch_default_config_disables_ssrf_protection() {
    let args = sample_args();
    let cfg = build_watch_default_config(&args);
    check_default_config(&cfg);
}

#[test]
fn watch_test_watch_default_config_disables_ssrf_protection() {
    let args = sample_args();
    let cfg = build_watch_default_config(&args);
    check_default_config(&cfg);
}

#[test]
fn watch_default_config_carries_limits() {
    let cfg = build_watch_default_config(&sample_args());
    assert_eq!(cfg.max_heap_size_bytes, 128 * 1024 * 1024);
    assert_eq!(cfg.cpu_time_limit_ms, 50_000);
    assert_eq!(cfg.wall_clock_timeout_ms, 60_000);
    assert!(cfg.enable_source_maps);
    assert!(!cfg.context_pool_enabled);
    assert_eq!(cfg.max_contexts_per_isolate, 8);
    assert_eq!(cfg.max_active_requests_per_context, 1);
    assert_eq!(cfg.dns_doh_endpoint, "https://1.1.1.1/dns-query");
    let pool = build_watch_pool_config(&sample_args());
    assert!(!pool.enabled);
    assert_eq!(pool.global_max_isolates, 1024);
    assert_eq!(pool.min_free_memory_mib, 256);
}

#[test]
fn function_names_from_paths() {
    assert_eq!(path_to_function_name("hello.ts"), "hello");
    assert_eq!(path_to_function_name("hello/hello.ts"), "hello");
    assert_eq!(path_to_function_name("api/users/list.js"), "api-users-list");
    assert_eq!(path_to_function_name("a//b.ts"), "a-b");
    assert_eq!(path_to_function_name("x/y/y.ts"), "x-y");
    assert_eq!(path_to_function_name("style.css"), "style.css");
    assert_eq!(path_to_function_name(""), "unknown");
    assert_eq!(path_to_function_name("/.ts"), "unknown");
}

#[test]
fn skipped_directories() {
    for d in ["node_modules", "dist", "build", ".next", ".deno", "target"] {
        assert!(is_skipped_component(d));
    }
    assert!(!is_skipped_component("src"));
}

#[test]
fn watched_sources() {
    let comps = vec!["app".to_string(), "a.ts".to_string()];
    assert_eq!(is_watched_source("app/a.ts", &comps), Some(true));
    let comps = vec!["app".to_string(), "a.tsx".to_string()];
    assert_eq!(is_watched_source("app/a.tsx", &comps), Some(false));
    let comps = vec!["node_modules".to_string(), "a.js".to_string()];
    assert_eq!(is_watched_source("node_modules/a.js", &comps), Some(false));
}

#[test]
fn inspect_ports_are_sequential() {
    assert_eq!(assign_inspect_port(None, 3), Ok((None, 3)));
    assert_eq!(assign_inspect_port(Some(9229), 0), Ok((Some(9229), 1)));
    assert_eq!(assign_inspect_port(Some(9229), 2), Ok((Some(9231), 3)));
    assert_eq!(assign_inspect_port(Some(65535), 1), Err(InspectPortError::Overflow));
    assert_eq!(inspector_host(true), "0.0.0.0");
    assert_eq!(inspector_host(false), "127.0.0.1");
}

#[test]
fn function_config_gets_its_own_port() {
    let base = build_watch_default_config(&sample_args());
    let c = function_config_for(&base, Some(9230));
    assert_eq!(c.inspect_port, Some(9230));
    assert_eq!(c.max_heap_size_bytes, base.max_heap_size_bytes);
    assert!(!c.ssrf_config.enabled);
}

fn comps(p: &str) -> Vec<String> {
    p.split('/').map(|s| s.to_string()).collect()
}

#[test]
fn watch_plan_assigns_sequential_ports() {
    let paths = vec![
        "/w/a.ts".to_string(),
        "/w/node_modules/x.ts".to_string(),
        "/w/readme.md".to_string(),
        "/w/hello/hello.ts".to_string(),
    ];
    let relatives = vec!["a.ts".to_string(), "node_modules/x.ts".to_string(), "readme.md".to_string(), "hello/hello.ts".to_string()];
    let components: Vec<Vec<String>> = paths.iter().map(|p| comps(p)).collect();
    let plan = thunder::watch::plan_watch_functions(&paths, &relatives, &components, Some(9229)).expect("plan");
    assert_eq!(plan, vec![("a".to_string(), Some(9229)), ("hello".to_string(), Some(9230))]);
    let plan = thunder::watch::plan_watch_functions(&paths, &relatives, &components, None).expect("plan");
    assert_eq!(plan, vec![("a".to_string(), None), ("hello".to_string(), None)]);
    let err = thunder::watch::plan_watch_functions(&paths, &relatives, &components, Some(65535));
    assert_eq!(err, Err(InspectPortError::Overflow));
}
