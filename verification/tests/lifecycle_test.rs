use thunder::lifecycle::{destroy_function, new_function_entry, snapshot_payload, TeardownSteps, TEARDOWN_DRAIN_MS};
use thunder::types::{BundleFormat, BundlePackage, FunctionStatus, IsolateConfig, IsolateHandle, SsrfConfig};
use thunder::lifecycle::{
    inspector_route, merged_no_proxy_value, proxy_env_value, supervise, trim_chars, InspectorRoute,
    IsolateOutcome, SupervisorAction, MAX_ISOLATE_RESTARTS,
};

#[test]
fn supervisor_restarts_with_exponential_backoff() {
    assert_eq!(
        supervise(0, IsolateOutcome::Panicked, false),
        SupervisorAction::Restart { attempt: 1, backoff_secs: 1 }
    );
    assert_eq!(
        supervise(3, IsolateOutcome::Panicked, false),
        SupervisorAction::Restart { attempt: 4, backoff_secs: 8 }
    );
    assert_eq!(
        supervise(4, IsolateOutcome::Panicked, false),
        SupervisorAction::Restart { attempt: 5, backoff_secs: 16 }
    );
    assert_eq!(supervise(MAX_ISOLATE_RESTARTS, IsolateOutcome::Panicked, false), SupervisorAction::Stop);
    assert_eq!(supervise(0, IsolateOutcome::Panicked, true), SupervisorAction::Stop);
    assert_eq!(supervise(0, IsolateOutcome::ExitedCleanly, false), SupervisorAction::Stop);
    assert_eq!(supervise(0, IsolateOutcome::ExitedWithError, false), SupervisorAction::Stop);
}

#[test]
fn supervisor_gives_up_after_five_restarts() {
    let mut restarts = 0u32;
    let mut attempts = 0;
    while let SupervisorAction::Restart { attempt, .. } = supervise(restarts, IsolateOutcome::Panicked, false) {
        restarts = attempt;
        attempts += 1;
    }
    assert_eq!(attempts, 5);
}

#[test]
fn trim_matches_str_trim() {
    for s in ["  a b \t", "\u{3000}x\u{A0}", "", "   ", "y"] {
        let cs: Vec<char> = s.chars().collect();
        let t: String = trim_chars(&cs).into_iter().collect();
        assert_eq!(t, s.trim());
    }
}

#[test]
fn no_proxy_lists_are_merged() {
    let http = vec![" a.com ".to_string(), "".to_string(), "b.com".to_string()];
    let https = vec!["b.com".to_string(), "  ".to_string()];
    let tcp = vec!["c.com".to_string(), "a.com".to_string()];
    assert_eq!(merged_no_proxy_value(&http, &https, &tcp), Some("a.com,b.com,c.com".to_string()));
    assert_eq!(merged_no_proxy_value(&vec![" ".to_string()], &vec![], &vec![]), None);
}

#[test]
fn proxy_values_need_content() {
    assert_eq!(proxy_env_value(Some("http://p:8080")), Some("http://p:8080".to_string()));
    assert_eq!(proxy_env_value(Some("  ")), None);
    assert_eq!(proxy_env_value(None), None);
}

#[test]
fn inspector_routes() {
    assert_eq!(inspector_route("/abc", true, "/abc"), InspectorRoute::WebSocket);
    assert_eq!(inspector_route("/ws", true, "/abc"), InspectorRoute::WebSocket);
    assert_eq!(inspector_route("/ws", false, "/abc"), InspectorRoute::NotFound);
    assert_eq!(inspector_route("/json", false, "/abc"), InspectorRoute::TargetList);
    assert_eq!(inspector_route("/json/list", true, "/abc"), InspectorRoute::TargetList);
    assert_eq!(inspector_route("/json/version", false, "/abc"), InspectorRoute::Version);
    assert_eq!(inspector_route("/other", false, "/abc"), InspectorRoute::NotFound);
}

fn base_config() -> IsolateConfig {
    IsolateConfig {
        max_heap_size_bytes: 0,
        cpu_time_limit_ms: 0,
        wall_clock_timeout_ms: 0,
        inspect_port: None,
        inspect_brk: false,
        inspect_allow_remote: false,
        enable_source_maps: false,
        ssrf_config: SsrfConfig::disabled(),
        print_isolate_logs: false,
        vfs_total_quota_bytes: 0,
        vfs_max_file_bytes: 0,
        dns_doh_endpoint: String::new(),
        dns_max_answers: 0,
        dns_timeout_ms: 0,
        zlib_max_output_length: 0,
        zlib_max_input_length: 0,
        zlib_operation_timeout_ms: 0,
        egress_max_requests_per_execution: 0,
        context_pool_enabled: false,
        max_contexts_per_isolate: 8,
        max_active_requests_per_context: 1,
    }
}

#[test]
fn new_entries_keep_the_fallback_eszip() {
    let cfg = base_config();
    let pkg = BundlePackage::snapshot_with_fallback(vec![9, 9], vec![1, 2, 3], "12.0");
    assert_eq!(snapshot_payload(&pkg), Some(vec![9, 9]));
    let h = IsolateHandle { id: 7, alive: true, request_channel_closed: false };
    let e = new_function_entry("f".to_string(), &pkg, cfg, None, h, 42);
    assert_eq!(e.eszip_bytes, vec![1, 2, 3]);
    assert_eq!(e.bundle_format, BundleFormat::Snapshot);
    assert_eq!(e.status, FunctionStatus::Running);
    assert_eq!(e.created_at_ms, 42);
    assert_eq!(e.isolate_handle, Some(h));
    assert!(!e.inspector_stop);
    let eszip = BundlePackage::eszip_only(vec![5], "12.0");
    assert_eq!(snapshot_payload(&eszip), None);
}

#[test]
fn bundle_decode_error_text() {
    assert_eq!(
        thunder::lifecycle::bundle_decode_error("io error"),
        "failed to deserialize bundle package: io error"
    );
}

#[test]
fn destroy_function_stops_inspector_then_cancels_primary() {
    let pkg = BundlePackage::eszip_only(vec![5], "12.0");
    let mut cfg = base_config();
    cfg.inspect_port = Some(9229);
    let h = IsolateHandle { id: 11, alive: true, request_channel_closed: false };
    let mut e = new_function_entry("f".to_string(), &pkg, cfg, None, h, 1);
    assert!(e.inspector_stop);
    assert_eq!(
        destroy_function(&e),
        TeardownSteps { stop_inspector: true, cancel_isolate: Some(11), drain_ms: TEARDOWN_DRAIN_MS }
    );
    assert_eq!(TEARDOWN_DRAIN_MS, 500);
    e.isolate_handle = None;
    e.inspector_stop = false;
    assert_eq!(destroy_function(&e), TeardownSteps { stop_inspector: false, cancel_isolate: None, drain_ms: 0 });
}
