//! Telemetry set-up decisions: the log filter, the OTLP endpoints of each
//! signal, whether isolate logs are bridged to OTEL, and how isolate log
//! levels map to OTEL severities.

use vstd::prelude::*;

use crate::text::{chars_of, concat3, slice_chars};

verus! {

/// Format of the runtime's own log lines.
#[derive(Debug, Clone, Copy, PartialEq, Eq, Structural)]
pub enum RuntimeLogFormat {
    Pretty,
    Json,
}

/// OTLP transport protocol.
#[derive(Debug, Clone, Copy, PartialEq, Eq, Structural)]
pub enum OtlpProtocol {
    HttpProtobuf,
}

/// Telemetry options shared by every command.
#[derive(Debug)]
pub struct TelemetryArgs {
    pub otel_enabled: bool,
    pub otel_protocol: OtlpProtocol,
    pub otel_endpoint: String,
    pub otel_service_name: String,
    pub otel_export_interval_ms: u64,
    pub otel_export_timeout_ms: u64,
    pub otel_enable_traces: bool,
    pub otel_enable_metrics: bool,
    pub otel_enable_logs: bool,
    pub otel_export_isolate_logs: bool,
    pub otel_isolate_log_batch_size: usize,
}

/// The log filter used when the environment sets none.
pub fn default_log_filter(verbose: bool) -> (f: &'static str)
    ensures
        f@ == (if verbose { "debug"@ } else { "info"@ }),
{
    if verbose { "debug" } else { "info" }
}

/// `s` without its trailing `/` characters.
pub open spec fn trim_end_slashes(s: Seq<char>) -> Seq<char>
    decreases s.len(),
{
    if s.len() > 0 && s.last() == '/' {
        trim_end_slashes(s.drop_last())
    } else {
        s
    }
}

/// An OTLP signal.
#[derive(Debug, Clone, Copy, PartialEq, Eq, Structural)]
pub enum OtelSignal {
    Traces,
    Metrics,
    Logs,
}

pub open spec fn signal_path(s: OtelSignal) -> Seq<char> {
    match s {
        OtelSignal::Traces => "/v1/traces"@,
        OtelSignal::Metrics => "/v1/metrics"@,
        OtelSignal::Logs => "/v1/logs"@,
    }
}

/// The endpoint a signal is exported to: the base endpoint without trailing
/// slashes, then `/v1/` and the signal.
pub fn signal_endpoint(base: &str, signal: OtelSignal) -> (r: String)
    ensures
        r@ == trim_end_slashes(base@) + signal_path(signal),
{
    let cs = chars_of(base);
    let mut n = cs.len();
    proof {
        assert(cs@.take(n as int) =~= cs@);
    }
    while n > 0 && cs[n - 1] == '/'
        invariant
            n <= cs.len(),
            trim_end_slashes(cs@.take(n as int)) == trim_end_slashes(base@),
            cs@ == base@,
        decreases n,
    {
        proof {
            assert(cs@.take(n as int).drop_last() =~= cs@.take(n - 1));
        }
        n = n - 1;
    }
    let trimmed = slice_chars(&cs, 0, n);
    proof {
        assert(trimmed@ =~= cs@.take(n as int));
        if n == cs.len() {
            assert(cs@.take(n as int) =~= cs@);
        }
    }
    let path = match signal {
        OtelSignal::Traces => "/v1/traces",
        OtelSignal::Metrics => "/v1/metrics",
        OtelSignal::Logs => "/v1/logs",
    };
    proof {
        reveal_strlit("");
    }
    concat3(crate::text::string_of(&trimmed).as_str(), path, "")
}

/// How the isolate-log bridge gets its instruments.
#[derive(Debug, Clone, Copy, PartialEq, Eq, Structural)]
pub enum BridgeInstruments {
    /// The counters made with the metrics provider.
    FromMetricsProvider,
    /// Counters from the global meter.
    FromGlobalMeter,
}

/// What `init` sets up.
#[derive(Debug)]
pub struct TelemetryPlan {
    /// OTEL exporters are configured at all.
    pub otel: bool,
    pub traces_endpoint: Option<String>,
    pub metrics_endpoint: Option<String>,
    pub logs_endpoint: Option<String>,
    /// The isolate-log bridge, if any.
    pub bridge: Option<BridgeInstruments>,
    /// Isolate logs drained per tick (at least one).
    pub bridge_batch_size: usize,
    pub interval_ms: u64,
    pub timeout_ms: u64,
}

/// The telemetry set-up for `args`: each enabled signal gets its endpoint;
/// isolate logs are bridged when requested and logs are exported, with the
/// metrics provider's counters when metrics are on, the global meter's
/// otherwise; the batch size is at least one.
pub fn plan_telemetry(args: &TelemetryArgs) -> (p: TelemetryPlan)
    ensures
        p.otel == args.otel_enabled,
        p.traces_endpoint is Some <==> (args.otel_enabled && args.otel_enable_traces),
        p.metrics_endpoint is Some <==> (args.otel_enabled && args.otel_enable_metrics),
        p.logs_endpoint is Some <==> (args.otel_enabled && args.otel_enable_logs),
        p.traces_endpoint matches Some(e) ==> e@ == trim_end_slashes(args.otel_endpoint@) + signal_path(OtelSignal::Traces),
        p.metrics_endpoint matches Some(e) ==> e@ == trim_end_slashes(args.otel_endpoint@) + signal_path(OtelSignal::Metrics),
        p.logs_endpoint matches Some(e) ==> e@ == trim_end_slashes(args.otel_endpoint@) + signal_path(OtelSignal::Logs),
        p.bridge == (if args.otel_enabled && args.otel_export_isolate_logs && args.otel_enable_logs {
            if args.otel_enable_metrics {
                Some(BridgeInstruments::FromMetricsProvider)
            } else {
                Some(BridgeInstruments::FromGlobalMeter)
            }
        } else {
            None::<BridgeInstruments>
        }),
        p.bridge_batch_size == (if args.otel_isolate_log_batch_size > 1 { args.otel_isolate_log_batch_size } else { 1 }),
        p.interval_ms == args.otel_export_interval_ms,
        p.timeout_ms == args.otel_export_timeout_ms,
{
    let on = args.otel_enabled;
    let traces = if on && args.otel_enable_traces {
        Some(signal_endpoint(args.otel_endpoint.as_str(), OtelSignal::Traces))
    } else {
        None
    };
    let metrics = if on && args.otel_enable_metrics {
        Some(signal_endpoint(args.otel_endpoint.as_str(), OtelSignal::Metrics))
    } else {
        None
    };
    let logs = if on && args.otel_enable_logs {
        Some(signal_endpoint(args.otel_endpoint.as_str(), OtelSignal::Logs))
    } else {
        None
    };
    let bridge = if on && args.otel_export_isolate_logs && args.otel_enable_logs {
        if args.otel_enable_metrics {
            Some(BridgeInstruments::FromMetricsProvider)
        } else {
            Some(BridgeInstruments::FromGlobalMeter)
        }
    } else {
        None
    };
    TelemetryPlan {
        otel: on,
        traces_endpoint: traces,
        metrics_endpoint: metrics,
        logs_endpoint: logs,
        bridge,
        bridge_batch_size: if args.otel_isolate_log_batch_size > 1 { args.otel_isolate_log_batch_size } else { 1 },
        interval_ms: args.otel_export_interval_ms,
        timeout_ms: args.otel_export_timeout_ms,
    }
}

/// OTEL severity of an isolate log line.
#[derive(Debug, Clone, Copy, PartialEq, Eq, Structural)]
pub enum LogSeverity {
    Info,
    Warn,
    Error,
}

/// The severity and its text for an isolate console level: 0 is info, 1 is
/// warn, anything else error.
pub fn severity_for_level(level: u8) -> (r: (LogSeverity, &'static str))
    ensures
        level == 0 ==> r.0 == LogSeverity::Info && r.1@ == "INFO"@,
        level == 1 ==> r.0 == LogSeverity::Warn && r.1@ == "WARN"@,
        level > 1 ==> r.0 == LogSeverity::Error && r.1@ == "ERROR"@,
{
    if level == 0 {
        (LogSeverity::Info, "INFO")
    } else if level == 1 {
        (LogSeverity::Warn, "WARN")
    } else {
        (LogSeverity::Error, "ERROR")
    }
}

/// The telemetry state the isolate-log exporter consults.
#[derive(Debug, Clone, Copy, PartialEq, Eq, Structural)]
pub struct TelemetryFlags {
    pub otel_enabled: bool,
    pub isolate_log_export_enabled: bool,
    /// A bridge is set up and not yet handed to an exporter.
    pub has_bridge: bool,
}

impl TelemetryFlags {
    /// Nothing set up.
    pub fn disabled() -> (f: TelemetryFlags)
        ensures
            !f.otel_enabled && !f.isolate_log_export_enabled && !f.has_bridge,
    {
        TelemetryFlags { otel_enabled: false, isolate_log_export_enabled: false, has_bridge: false }
    }

    /// The state after `init` with the given plan.
    pub fn after_init(plan: &TelemetryPlan, export_isolate_logs: bool) -> (f: TelemetryFlags)
        ensures
            f.otel_enabled == plan.otel,
            f.isolate_log_export_enabled == (plan.otel && export_isolate_logs),
            f.has_bridge == (plan.bridge is Some),
    {
        if plan.otel {
            TelemetryFlags { otel_enabled: true, isolate_log_export_enabled: export_isolate_logs, has_bridge: plan.bridge.is_some() }
        } else {
            TelemetryFlags { otel_enabled: false, isolate_log_export_enabled: false, has_bridge: plan.bridge.is_some() }
        }
    }

    /// Providers shut down and the bridge dropped.
    pub fn shutdown(&mut self)
        ensures
            !final(self).otel_enabled && !final(self).isolate_log_export_enabled && !final(self).has_bridge,
    {
        self.has_bridge = false;
        self.otel_enabled = false;
        self.isolate_log_export_enabled = false;
    }
}

/// What the isolate-log exporter does when asked to start.
#[derive(Debug, Clone, Copy, PartialEq, Eq, Structural)]
pub enum ExporterStart {
    /// Export is off or there is no bridge: nothing to do.
    Skip,
    /// Logs go to stdout, so the collector stays empty: warn and stop.
    WarnPrintingLogs,
    /// Take the bridge and run the exporter.
    Run,
}

/// What the exporter does in state `f`: nothing unless export is on and a
/// bridge is there; a warning instead when logs go to stdout.
pub open spec fn exporter_decision(f: TelemetryFlags, print_isolate_logs: bool) -> ExporterStart {
    if !f.otel_enabled || !f.isolate_log_export_enabled || !f.has_bridge {
        ExporterStart::Skip
    } else if print_isolate_logs {
        ExporterStart::WarnPrintingLogs
    } else {
        ExporterStart::Run
    }
}

/// Whether the isolate-log exporter starts; when export is on, the bridge is
/// taken (and so cleared).
pub fn start_isolate_log_exporter(flags: &mut TelemetryFlags, print_isolate_logs: bool) -> (r: ExporterStart)
    ensures
        r == exporter_decision(*old(flags), print_isolate_logs),
        !old(flags).otel_enabled || !old(flags).isolate_log_export_enabled ==> *final(flags) == *old(flags),
        old(flags).otel_enabled && old(flags).isolate_log_export_enabled ==> *final(flags) == (TelemetryFlags {
            has_bridge: false,
            ..*old(flags)
        }),
{
    if !flags.otel_enabled || !flags.isolate_log_export_enabled {
        return ExporterStart::Skip;
    }
    let had = flags.has_bridge;
    flags.has_bridge = false;
    if !had {
        ExporterStart::Skip
    } else if print_isolate_logs {
        ExporterStart::WarnPrintingLogs
    } else {
        ExporterStart::Run
    }
}

/// Once telemetry is shut down, the isolate-log exporter does nothing,
/// whatever the log printing setting.
pub proof fn lemma_no_export_after_shutdown(f: TelemetryFlags, print_isolate_logs: bool)
    requires
        !f.otel_enabled && !f.isolate_log_export_enabled && !f.has_bridge,
    ensures
        exporter_decision(f, print_isolate_logs) == ExporterStart::Skip,
{
}

/// The exporter starts at most once per bridge: after one start, a second
/// one does nothing.
pub proof fn lemma_exporter_starts_once(f: TelemetryFlags, print_isolate_logs: bool)
    ensures
        exporter_decision(TelemetryFlags { has_bridge: false, ..f }, print_isolate_logs) == ExporterStart::Skip,
{
}

} // verus!
