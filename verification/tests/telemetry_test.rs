use thunder::telemetry::{
    default_log_filter, plan_telemetry, severity_for_level, signal_endpoint, start_isolate_log_exporter,
    BridgeInstruments, ExporterStart, LogSeverity, OtelSignal, OtlpProtocol, TelemetryArgs, TelemetryFlags,
};

fn args() -> TelemetryArgs {
    TelemetryArgs {
        otel_enabled: true,
        otel_protocol: OtlpProtocol::HttpProtobuf,
        otel_endpoint: "http://127.0.0.1:4318/".to_string(),
        otel_service_name: "thunder".to_string(),
        otel_export_interval_ms: 5000,
        otel_export_timeout_ms: 10000,
        otel_enable_traces: true,
        otel_enable_metrics: true,
        otel_enable_logs: true,
        otel_export_isolate_logs: true,
        otel_isolate_log_batch_size: 0,
    }
}

#[test]
fn endpoints_strip_trailing_slashes() {
    assert_eq!(signal_endpoint("http://c:4318//", OtelSignal::Traces), "http://c:4318/v1/traces");
    assert_eq!(signal_endpoint("http://c:4318", OtelSignal::Metrics), "http://c:4318/v1/metrics");
    assert_eq!(signal_endpoint("", OtelSignal::Logs), "/v1/logs");
}

#[test]
fn filter_defaults() {
    assert_eq!(default_log_filter(true), "debug");
    assert_eq!(default_log_filter(false), "info");
}

#[test]
fn plan_enables_signals_and_bridge() {
    let p = plan_telemetry(&args());
    assert!(p.otel);
    assert_eq!(p.logs_endpoint.as_deref(), Some("http://127.0.0.1:4318/v1/logs"));
    assert_eq!(p.bridge, Some(BridgeInstruments::FromMetricsProvider));
    assert_eq!(p.bridge_batch_size, 1);
    let mut a = args();
    a.otel_enable_metrics = false;
    let p = plan_telemetry(&a);
    assert!(p.metrics_endpoint.is_none());
    assert_eq!(p.bridge, Some(BridgeInstruments::FromGlobalMeter));
    let mut a = args();
    a.otel_enable_logs = false;
    assert_eq!(plan_telemetry(&a).bridge, None);
    let mut a = args();
    a.otel_enabled = false;
    let p = plan_telemetry(&a);
    assert!(!p.otel && p.traces_endpoint.is_none() && p.bridge.is_none());
}

#[test]
fn severities() {
    assert_eq!(severity_for_level(0), (LogSeverity::Info, "INFO"));
    assert_eq!(severity_for_level(1), (LogSeverity::Warn, "WARN"));
    assert_eq!(severity_for_level(7), (LogSeverity::Error, "ERROR"));
}

#[test]
fn exporter_runs_once_and_never_after_shutdown() {
    let plan = plan_telemetry(&args());
    let mut f = TelemetryFlags::after_init(&plan, true);
    assert_eq!(start_isolate_log_exporter(&mut f, false), ExporterStart::Run);
    assert_eq!(start_isolate_log_exporter(&mut f, false), ExporterStart::Skip);
    let mut g = TelemetryFlags::after_init(&plan, true);
    assert_eq!(start_isolate_log_exporter(&mut g, true), ExporterStart::WarnPrintingLogs);
    let mut h = TelemetryFlags::after_init(&plan, true);
    h.shutdown();
    assert_eq!(start_isolate_log_exporter(&mut h, false), ExporterStart::Skip);
    let mut d = TelemetryFlags::disabled();
    assert_eq!(start_isolate_log_exporter(&mut d, false), ExporterStart::Skip);
}
