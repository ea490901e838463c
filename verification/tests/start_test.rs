use thunder::start::{
    admin_listener, build_start_default_config, check_bundle_signature_args, ingress_listener, ingress_tls,
    rate_limit_rps, start_pool_settings, validate_start_args, IngressListenerType, SourceMapMode, StartArgs,
    StartError, TcpListenerSource,
};

fn default_args() -> StartArgs {
    StartArgs {
        admin_host: None,
        admin_port: None,
        admin_fd: None,
        api_key: None,
        admin_tls_cert: None,
        admin_tls_key: None,
        require_bundle_signature: false,
        bundle_public_key_path: None,
        host: None,
        port: None,
        unix_socket: None,
        ingress_fd: None,
        tls_cert: None,
        tls_key: None,
        disable_ssrf_protection: false,
        allow_private_net: vec![],
        http_outgoing_proxy: None,
        https_outgoing_proxy: None,
        tcp_outgoing_proxy: None,
        http_no_proxy: vec![],
        https_no_proxy: vec![],
        tcp_no_proxy: vec![],
        max_request_body_size: 5 * 1024 * 1024,
        max_response_body_size: 10 * 1024 * 1024,
        max_connections: 50_000,
        pool_enabled: true,
        pool_global_max_isolates: 1024,
        pool_min_isolates: 5,
        pool_max_isolates: 10,
        pool_min_free_memory_mib: 256,
        pool_capacity_wait_timeout_ms: 300,
        pool_capacity_max_waiters: 20_000,
        context_pool_enabled: false,
        max_contexts_per_isolate: 8,
        max_active_requests_per_context: 1,
        context_pool_min_contexts: 1,
        context_pool_max_contexts: 8,
        rate_limit: 0,
        graceful_exit_timeout: 30,
        max_heap_mib: 128,
        cpu_time_limit_ms: 50_000,
        wall_clock_timeout_ms: 60_000,
        print_isolate_logs: true,
        vfs_total_quota_bytes: 10 * 1024 * 1024,
        vfs_max_file_bytes: 5 * 1024 * 1024,
        dns_doh_endpoint: "https://1.1.1.1/dns-query".to_string(),
        dns_max_answers: 16,
        dns_timeout_ms: 2000,
        zlib_max_output_length: 16 * 1024 * 1024,
        zlib_max_input_length: 8 * 1024 * 1024,
        zlib_operation_timeout_ms: 250,
        egress_max_requests_per_execution: 0,
        sourcemap: SourceMapMode::Disabled,
    }
}

#[test]
fn inherited_listener_flags_parse_with_their_environment_names() {
    let mut args = default_args();
    args.admin_fd = Some(3);
    args.ingress_fd = Some(4);
    assert_eq!(args.admin_fd, Some(3));
    assert_eq!(args.ingress_fd, Some(4));
    assert!(args.admin_host.is_none() && args.admin_port.is_none() && args.host.is_none());
    validate_start_args(&args, true).expect("distinct non-negative FDs should validate");
}

#[test]
fn inherited_listener_flags_reject_negative_and_duplicate_descriptors() {
    let mut negative = default_args();
    negative.admin_fd = Some(-1);
    let negative_error = validate_start_args(&negative, true).expect_err("negative descriptor must be rejected");
    assert!(negative_error.message().contains("--admin-fd"));

    let mut duplicate = default_args();
    duplicate.admin_fd = Some(3);
    duplicate.ingress_fd = Some(3);
    let duplicate_error = validate_start_args(&duplicate, true).expect_err("duplicate descriptor must be rejected");
    assert!(duplicate_error.message().contains("same file descriptor"));
}

#[test]
fn inherited_listener_flags_are_explicitly_unsupported_on_windows() {
    let mut args = default_args();
    args.admin_fd = Some(3);
    let error = validate_start_args(&args, false).expect_err("non-Unix platforms must reject inherited FDs");
    assert!(error.message().contains("supported only on macOS and Linux"));
}

#[test]
fn port_and_unix_socket_exclude_each_other() {
    let mut args = default_args();
    args.port = Some(8081);
    args.unix_socket = Some("/tmp/thunder.sock".to_string());
    assert_eq!(validate_start_args(&args, true), Err(StartError::PortAndUnixSocket));
    args.unix_socket = None;
    args.ingress_fd = Some(-2);
    assert_eq!(validate_start_args(&args, true), Err(StartError::NegativeIngressFd));
    assert_eq!(StartError::PortAndUnixSocket.message(), "--port and --unix-socket are mutually exclusive");
}

#[test]
fn default_config_enables_context_pool_with_pooling() {
    let args = default_args();
    let c = build_start_default_config(&args);
    assert!(c.context_pool_enabled);
    assert!(c.ssrf_config.enabled);
    assert!(!c.enable_source_maps);
    assert_eq!(c.max_heap_size_bytes, 128 * 1024 * 1024);
    let mut args = default_args();
    args.pool_enabled = false;
    args.disable_ssrf_protection = true;
    args.sourcemap = SourceMapMode::Inline;
    let c = build_start_default_config(&args);
    assert!(!c.context_pool_enabled);
    assert!(!c.ssrf_config.enabled);
    assert!(c.enable_source_maps);
    let mut args = default_args();
    args.allow_private_net = vec!["10.1.0.0/16".to_string()];
    let c = build_start_default_config(&args);
    assert!(c.ssrf_config.enabled);
    assert_eq!(c.ssrf_config.allow_private_subnets, vec!["10.1.0.0/16".to_string()]);
}

#[test]
fn pool_settings_validate_limits() {
    let (p, l, c) = start_pool_settings(&default_args()).expect("valid");
    assert!(p.enabled);
    assert_eq!((l.min, l.max), (5, 10));
    assert_eq!((c.min, c.max), (1, 8));
    let mut args = default_args();
    args.pool_min_isolates = 11;
    assert_eq!(start_pool_settings(&args).err(), Some(StartError::InvalidPoolLimits));
    let mut args = default_args();
    args.context_pool_min_contexts = 9;
    assert_eq!(start_pool_settings(&args).err(), Some(StartError::InvalidContextLimits));
}

#[test]
fn listeners_and_tls() {
    let args = default_args();
    match admin_listener(&args) {
        TcpListenerSource::Bind { host, port } => {
            assert_eq!(host, "0.0.0.0");
            assert_eq!(port, 9000);
        }
        other => panic!("unexpected {other:?}"),
    }
    match ingress_listener(&args) {
        IngressListenerType::Tcp(TcpListenerSource::Bind { host, port }) => {
            assert_eq!(host, "0.0.0.0");
            assert_eq!(port, 8080);
        }
        other => panic!("unexpected {other:?}"),
    }
    let mut args = default_args();
    args.unix_socket = Some("/tmp/s".to_string());
    args.tls_cert = Some("c".to_string());
    args.tls_key = Some("k".to_string());
    assert!(matches!(ingress_listener(&args), IngressListenerType::Unix(p) if p == "/tmp/s"));
    assert!(ingress_tls(&args).is_none());
    args.unix_socket = None;
    assert!(ingress_tls(&args).is_some());
    assert_eq!(rate_limit_rps(0), None);
    assert_eq!(rate_limit_rps(5), Some(5));
}

#[test]
fn signature_requires_key() {
    let mut args = default_args();
    args.require_bundle_signature = true;
    assert_eq!(check_bundle_signature_args(&args), Err(StartError::SignatureWithoutKey));
    args.bundle_public_key_path = Some("k.pem".to_string());
    assert_eq!(check_bundle_signature_args(&args), Ok(()));
}
