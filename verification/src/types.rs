//! Shared data types of the function runtime: bundle formats and packages,
//! function status, pool limits and route records.

use vstd::prelude::*;

use crate::metrics::{snapshot_of, FunctionMetrics, FunctionMetricsSnapshot};

verus! {

/// Bundle format for function deployment.
#[derive(Debug, Clone, Copy, PartialEq, Eq, Structural)]
pub enum BundleFormat {
    /// Traditional eszip bundle (modules loaded at startup).
    Eszip,
    /// Snapshot-flavor bundle (bytecode cache envelope + ESZIP fallback).
    Snapshot,
}

impl BundleFormat {
    /// The name the format is displayed and serialized under.
    pub fn as_str(&self) -> (s: &'static str)
        ensures
            s@ == bundle_format_name(*self),
    {
        match self {
            BundleFormat::Eszip => "eszip",
            BundleFormat::Snapshot => "snapshot",
        }
    }
}

pub open spec fn bundle_format_name(f: BundleFormat) -> Seq<char> {
    match f {
        BundleFormat::Eszip => "eszip"@,
        BundleFormat::Snapshot => "snapshot"@,
    }
}

impl Default for BundleFormat {
    fn default() -> (f: Self)
        ensures
            f == BundleFormat::Eszip,
    {
        BundleFormat::Eszip
    }
}

/// Status of a deployed function.
#[derive(Debug, Clone, Copy, PartialEq, Eq, Structural)]
pub enum FunctionStatus {
    /// Function is being loaded (eszip parsed, isolate booting).
    Loading,
    /// Function is running and ready to handle requests.
    Running,
    /// Function encountered an error during boot or at runtime.
    Error,
    /// Function is shutting down (being removed or reloaded).
    ShuttingDown,
}

impl FunctionStatus {
    /// The name the status is serialized under.
    pub fn as_str(&self) -> (s: &'static str)
        ensures
            s@ == function_status_name(*self),
    {
        match self {
            FunctionStatus::Loading => "loading",
            FunctionStatus::Running => "running",
            FunctionStatus::Error => "error",
            FunctionStatus::ShuttingDown => "shutting_down",
        }
    }
}

pub open spec fn function_status_name(s: FunctionStatus) -> Seq<char> {
    match s {
        FunctionStatus::Loading => "loading"@,
        FunctionStatus::Running => "running"@,
        FunctionStatus::Error => "error"@,
        FunctionStatus::ShuttingDown => "shutting_down"@,
    }
}

/// Bounds on the number of isolates a function keeps.
#[derive(Debug, Clone, Copy, PartialEq, Eq, Structural)]
pub struct PoolLimits {
    pub min: usize,
    pub max: usize,
}

impl Default for PoolLimits {
    fn default() -> (l: Self)
        ensures
            l.min == 1,
            l.max == 1,
    {
        PoolLimits { min: 1, max: 1 }
    }
}

/// Bounds on the number of logical contexts a function keeps.
#[derive(Debug, Clone, Copy, PartialEq, Eq, Structural)]
pub struct ContextPoolLimits {
    pub min: usize,
    pub max: usize,
}

impl Default for ContextPoolLimits {
    fn default() -> (l: Self)
        ensures
            l.min == 1,
            l.max == 8,
    {
        ContextPoolLimits { min: 1, max: 8 }
    }
}

/// A function's pool bounds together with its current size.
#[derive(Debug, Clone, Copy, PartialEq, Eq, Structural)]
pub struct FunctionPoolSnapshot {
    pub min: usize,
    pub max: usize,
    pub current: usize,
}

/// Process-wide isolate pooling configuration.
#[derive(Debug, Clone, Copy, PartialEq, Eq, Structural)]
pub struct PoolRuntimeConfig {
    pub enabled: bool,
    pub global_max_isolates: usize,
    pub min_free_memory_mib: u64,
}

impl Default for PoolRuntimeConfig {
    fn default() -> (c: Self)
        ensures
            !c.enabled,
            c.global_max_isolates == 1024,
            c.min_free_memory_mib == 256,
    {
        PoolRuntimeConfig { enabled: false, global_max_isolates: 1024, min_free_memory_mib: 256 }
    }
}

/// Element-wise equal string lists.
pub open spec fn same_strings(a: Seq<String>, b: Seq<String>) -> bool {
    a.len() == b.len() && forall|i: int| 0 <= i < a.len() ==> #[trigger] a[i]@ == b[i]@
}

/// A copy of `v`.
pub fn copy_strings(v: &Vec<String>) -> (r: Vec<String>)
    ensures
        same_strings(r@, v@),
{
    let mut r: Vec<String> = Vec::new();
    let mut i: usize = 0;
    while i < v.len()
        invariant
            i <= v.len(),
            r.len() == i,
            forall|j: int| 0 <= j < i ==> #[trigger] r@[j]@ == v@[j]@,
        decreases v.len() - i,
    {
        r.push(v[i].clone());
        i = i + 1;
    }
    r
}

/// Which outbound addresses an isolate's `fetch` may reach: when enabled,
/// private, loopback and link-local ranges are blocked, except the listed
/// private subnets.
#[derive(Debug)]
pub struct SsrfConfig {
    pub enabled: bool,
    pub allow_private_subnets: Vec<String>,
}

/// Two policies that block the same addresses.
pub open spec fn same_ssrf(a: SsrfConfig, b: SsrfConfig) -> bool {
    a.enabled == b.enabled && same_strings(a.allow_private_subnets@, b.allow_private_subnets@)
}

impl SsrfConfig {
    /// No address is blocked.
    pub fn disabled() -> (c: SsrfConfig)
        ensures
            !c.enabled,
            c.allow_private_subnets@.len() == 0,
    {
        SsrfConfig { enabled: false, allow_private_subnets: Vec::new() }
    }

    /// Every private range is blocked.
    pub fn new() -> (c: SsrfConfig)
        ensures
            c.enabled,
            c.allow_private_subnets@.len() == 0,
    {
        SsrfConfig { enabled: true, allow_private_subnets: Vec::new() }
    }

    /// Private ranges are blocked except `subnets`.
    pub fn with_exceptions(subnets: Vec<String>) -> (c: SsrfConfig)
        ensures
            c.enabled,
            c.allow_private_subnets@ == subnets@,
    {
        SsrfConfig { enabled: true, allow_private_subnets: subnets }
    }

    /// A copy of the policy.
    pub fn duplicate(&self) -> (r: SsrfConfig)
        ensures
            same_ssrf(r, *self),
    {
        SsrfConfig { enabled: self.enabled, allow_private_subnets: copy_strings(&self.allow_private_subnets) }
    }
}

/// Per-isolate runtime configuration.
#[derive(Debug)]
pub struct IsolateConfig {
    /// Heap ceiling in bytes (0 = unlimited).
    pub max_heap_size_bytes: usize,
    /// CPU time limit per request in ms (0 = unlimited).
    pub cpu_time_limit_ms: u64,
    /// Wall clock timeout per request in ms (0 = unlimited).
    pub wall_clock_timeout_ms: u64,
    pub inspect_port: Option<u16>,
    pub inspect_brk: bool,
    pub inspect_allow_remote: bool,
    pub enable_source_maps: bool,
    pub ssrf_config: SsrfConfig,
    pub print_isolate_logs: bool,
    pub vfs_total_quota_bytes: usize,
    pub vfs_max_file_bytes: usize,
    pub dns_doh_endpoint: String,
    pub dns_max_answers: usize,
    pub dns_timeout_ms: u64,
    pub zlib_max_output_length: usize,
    pub zlib_max_input_length: usize,
    pub zlib_operation_timeout_ms: u64,
    pub egress_max_requests_per_execution: usize,
    pub context_pool_enabled: bool,
    pub max_contexts_per_isolate: usize,
    pub max_active_requests_per_context: usize,
}

/// Two configurations that agree on every setting.
pub open spec fn same_config(a: IsolateConfig, b: IsolateConfig) -> bool {
    &&& a.max_heap_size_bytes == b.max_heap_size_bytes
    &&& a.cpu_time_limit_ms == b.cpu_time_limit_ms
    &&& a.wall_clock_timeout_ms == b.wall_clock_timeout_ms
    &&& a.inspect_port == b.inspect_port
    &&& a.inspect_brk == b.inspect_brk
    &&& a.inspect_allow_remote == b.inspect_allow_remote
    &&& a.enable_source_maps == b.enable_source_maps
    &&& same_ssrf(a.ssrf_config, b.ssrf_config)
    &&& a.print_isolate_logs == b.print_isolate_logs
    &&& a.vfs_total_quota_bytes == b.vfs_total_quota_bytes
    &&& a.vfs_max_file_bytes == b.vfs_max_file_bytes
    &&& a.dns_doh_endpoint@ == b.dns_doh_endpoint@
    &&& a.dns_max_answers == b.dns_max_answers
    &&& a.dns_timeout_ms == b.dns_timeout_ms
    &&& a.zlib_max_output_length == b.zlib_max_output_length
    &&& a.zlib_max_input_length == b.zlib_max_input_length
    &&& a.zlib_operation_timeout_ms == b.zlib_operation_timeout_ms
    &&& a.egress_max_requests_per_execution == b.egress_max_requests_per_execution
    &&& a.context_pool_enabled == b.context_pool_enabled
    &&& a.max_contexts_per_isolate == b.max_contexts_per_isolate
    &&& a.max_active_requests_per_context == b.max_active_requests_per_context
}

impl IsolateConfig {
    /// A copy of the configuration.
    pub fn duplicate(&self) -> (r: IsolateConfig)
        ensures
            same_config(r, *self),
    {
        IsolateConfig {
            max_heap_size_bytes: self.max_heap_size_bytes,
            cpu_time_limit_ms: self.cpu_time_limit_ms,
            wall_clock_timeout_ms: self.wall_clock_timeout_ms,
            inspect_port: self.inspect_port,
            inspect_brk: self.inspect_brk,
            inspect_allow_remote: self.inspect_allow_remote,
            enable_source_maps: self.enable_source_maps,
            ssrf_config: self.ssrf_config.duplicate(),
            print_isolate_logs: self.print_isolate_logs,
            vfs_total_quota_bytes: self.vfs_total_quota_bytes,
            vfs_max_file_bytes: self.vfs_max_file_bytes,
            dns_doh_endpoint: self.dns_doh_endpoint.clone(),
            dns_max_answers: self.dns_max_answers,
            dns_timeout_ms: self.dns_timeout_ms,
            zlib_max_output_length: self.zlib_max_output_length,
            zlib_max_input_length: self.zlib_max_input_length,
            zlib_operation_timeout_ms: self.zlib_operation_timeout_ms,
            egress_max_requests_per_execution: self.egress_max_requests_per_execution,
            context_pool_enabled: self.context_pool_enabled,
            max_contexts_per_isolate: self.max_contexts_per_isolate,
            max_active_requests_per_context: self.max_active_requests_per_context,
        }
    }
}

/// Resource overrides a function manifest may carry.
#[derive(Debug, Clone, Copy, PartialEq, Eq, Structural)]
pub struct ManifestResources {
    pub max_heap_mi_b: Option<u64>,
    pub cpu_time_ms: Option<u64>,
    pub wall_clock_timeout_ms: Option<u64>,
}

/// The state of one isolate as the registry tracks it.
#[derive(Debug, Clone, Copy, PartialEq, Eq, Structural)]
pub struct IsolateHandle {
    /// Identity of the isolate (a UUID as a 128-bit integer).
    pub id: u128,
    /// The isolate's event loop is still running.
    pub alive: bool,
    /// The isolate no longer accepts requests.
    pub request_channel_closed: bool,
}

/// A single deployed function entry.
#[derive(Debug)]
pub struct FunctionEntry {
    /// Unique name (used as path prefix for routing).
    pub name: String,
    /// The raw eszip bundle bytes (kept for replicas and hot-reload).
    pub eszip_bytes: Vec<u8>,
    /// The original bundle format used.
    pub bundle_format: BundleFormat,
    /// V8 version embedded in the deploy package metadata.
    pub package_v8_version: String,
    /// The primary isolate (None if loading/error).
    pub isolate_handle: Option<IsolateHandle>,
    /// Additional isolates of the same function (pool replicas).
    pub extra_isolate_handles: Vec<IsolateHandle>,
    /// Pool limits for this function.
    pub pool_limits: PoolLimits,
    /// Round-robin cursor across available handles.
    pub next_handle_index: u64,
    /// An inspector stop flag exists (the function was booted with an
    /// inspector port).
    pub inspector_stop: bool,
    /// Current status.
    pub status: FunctionStatus,
    /// Runtime configuration.
    pub config: IsolateConfig,
    /// Resource overrides of the manifest resolved at deploy time, if any.
    pub manifest_resources: Option<ManifestResources>,
    /// Metrics.
    pub metrics: FunctionMetrics,
    /// When the function was deployed (Unix ms).
    pub created_at_ms: i64,
    /// When it was last updated (Unix ms).
    pub updated_at_ms: i64,
    /// Last error message (if status == Error).
    pub last_error: Option<String>,
}

/// Number of isolates an entry holds: its primary, if any, and its replicas.
pub open spec fn pool_size(e: FunctionEntry) -> int {
    (if e.isolate_handle.is_some() { 1int } else { 0int }) + e.extra_isolate_handles@.len()
}

/// The pool size as a `usize` counts it (it cannot exceed `usize::MAX`
/// on any machine; the count saturates there).
pub open spec fn capped_pool_size(e: FunctionEntry) -> int {
    if pool_size(e) > usize::MAX { usize::MAX as int } else { pool_size(e) }
}

/// API response for function info.
#[derive(Debug)]
pub struct FunctionInfo {
    pub name: String,
    pub status: FunctionStatus,
    pub metrics: FunctionMetricsSnapshot,
    pub bundle_format: BundleFormat,
    pub package_v8_version: String,
    pub runtime_v8_version: String,
    pub snapshot_compatible_with_runtime: bool,
    pub requires_snapshot_regeneration: bool,
    pub stored_eszip_size_bytes: u64,
    pub can_regenerate_snapshot_from_stored_eszip: bool,
    pub pool: FunctionPoolSnapshot,
    pub created_at_ms: i64,
    pub updated_at_ms: i64,
    pub last_error: Option<String>,
}

/// A copy of an optional string.
pub fn copy_opt_string(s: &Option<String>) -> (r: Option<String>)
    ensures
        r.is_some() == s.is_some(),
        r.is_some() ==> r->0@ == s->0@,
{
    match s {
        Some(t) => Some(t.clone()),
        None => None,
    }
}

/// `info` is what `to_info` reports for `e` on a runtime running V8
/// `runtime_v8`.
pub open spec fn describes(info: FunctionInfo, e: FunctionEntry, runtime_v8: Seq<char>) -> bool {
    &&& info.name@ == e.name@
    &&& info.status == e.status
    &&& info.metrics == snapshot_of(e.metrics)
    &&& info.bundle_format == e.bundle_format
    &&& info.package_v8_version@ == e.package_v8_version@
    &&& info.runtime_v8_version@ == runtime_v8
    &&& info.snapshot_compatible_with_runtime == (e.package_v8_version@ == runtime_v8)
    &&& info.requires_snapshot_regeneration == (e.bundle_format == BundleFormat::Snapshot
        && e.package_v8_version@ != runtime_v8)
    &&& info.stored_eszip_size_bytes == e.eszip_bytes@.len()
    &&& info.can_regenerate_snapshot_from_stored_eszip == (e.eszip_bytes@.len() > 0)
    &&& info.pool.min == e.pool_limits.min
    &&& info.pool.max == e.pool_limits.max
    &&& info.pool.current == capped_pool_size(e)
    &&& info.created_at_ms == e.created_at_ms
    &&& info.updated_at_ms == e.updated_at_ms
    &&& info.last_error.is_some() == e.last_error.is_some()
    &&& info.last_error.is_some() ==> info.last_error->0@ == e.last_error->0@
}

impl FunctionEntry {
    /// Number of isolates the entry holds.
    pub fn current_pool_size(&self) -> (n: usize)
        ensures
            n == capped_pool_size(*self),
    {
        let base: usize = if self.isolate_handle.is_some() { 1 } else { 0 };
        self.extra_isolate_handles.len().saturating_add(base)
    }

    /// The serializable description of this entry, as seen by a runtime
    /// running V8 `runtime_v8_version`.
    pub fn to_info(&self, runtime_v8_version: &str) -> (info: FunctionInfo)
        ensures
            describes(info, *self, runtime_v8_version@),
    {
        let runtime = runtime_v8_version.to_string();
        let compatible = self.package_v8_version == runtime;
        let needs_regeneration = match self.bundle_format {
            BundleFormat::Snapshot => !compatible,
            BundleFormat::Eszip => false,
        };
        FunctionInfo {
            name: self.name.clone(),
            status: self.status,
            metrics: self.metrics.snapshot(),
            bundle_format: self.bundle_format,
            package_v8_version: self.package_v8_version.clone(),
            runtime_v8_version: runtime,
            snapshot_compatible_with_runtime: compatible,
            requires_snapshot_regeneration: needs_regeneration,
            stored_eszip_size_bytes: self.eszip_bytes.len() as u64,
            can_regenerate_snapshot_from_stored_eszip: self.eszip_bytes.len() > 0,
            pool: FunctionPoolSnapshot {
                min: self.pool_limits.min,
                max: self.pool_limits.max,
                current: self.current_pool_size(),
            },
            created_at_ms: self.created_at_ms,
            updated_at_ms: self.updated_at_ms,
            last_error: copy_opt_string(&self.last_error),
        }
    }
}

/// Kind of a routed-app route.
#[derive(Debug, Clone, Copy, PartialEq, Eq, Structural)]
pub enum ManifestRouteKind {
    Function,
    Asset,
}

/// One route of a routed-app manifest.
#[derive(Debug)]
pub struct ManifestRoute {
    pub kind: ManifestRouteKind,
    pub path: String,
    pub methods: Vec<String>,
    pub entrypoint: Option<String>,
    pub asset_dir: Option<String>,
}

/// A route as recorded in a bundle's build-time metadata.
#[derive(Debug)]
pub struct BundleRouteRecord {
    pub kind: ManifestRouteKind,
    pub path: String,
    pub methods: Vec<String>,
    pub entrypoint: Option<String>,
    pub asset_dir: Option<String>,
    pub precedence_rank: u32,
}

/// Build-time route metadata embedded in routed-app bundle artifacts.
#[derive(Debug)]
pub struct BundleRouteMetadata {
    pub generated_at_unix_ms: i64,
    pub routes: Vec<BundleRouteRecord>,
}

/// Packaged bundle containing either snapshot or eszip (with optional fallback).
#[derive(Debug)]
pub struct BundlePackage {
    /// Format of the primary bundle (snapshot or eszip).
    pub format: BundleFormat,
    /// V8 version that the snapshot was created with (for compatibility checking).
    pub v8_version: String,
    /// Primary bundle data (snapshot-flavor payload or eszip bytes).
    pub bundle: Vec<u8>,
    /// Fallback eszip bytes (used if snapshot fails to load).
    pub fallback_eszip: Option<Vec<u8>>,
    /// Optional manifest JSON embedded at bundle time.
    pub embedded_manifest_json: Option<String>,
    /// Optional routed-app route metadata generated at build time.
    pub embedded_route_metadata: Option<BundleRouteMetadata>,
}

impl BundlePackage {
    /// A snapshot bundle with eszip fallback, stamped with the runtime's V8 version.
    pub fn snapshot_with_fallback(snapshot: Vec<u8>, fallback_eszip: Vec<u8>, runtime_v8_version: &str) -> (p: Self)
        ensures
            p.format == BundleFormat::Snapshot,
            p.v8_version@ == runtime_v8_version@,
            p.bundle@ == snapshot@,
            p.fallback_eszip matches Some(f) && f@ == fallback_eszip@,
            p.embedded_manifest_json is None,
            p.embedded_route_metadata is None,
    {
        BundlePackage {
            format: BundleFormat::Snapshot,
            v8_version: runtime_v8_version.to_string(),
            bundle: snapshot,
            fallback_eszip: Some(fallback_eszip),
            embedded_manifest_json: None,
            embedded_route_metadata: None,
        }
    }

    /// An eszip-only bundle, stamped with the runtime's V8 version.
    pub fn eszip_only(eszip: Vec<u8>, runtime_v8_version: &str) -> (p: Self)
        ensures
            p.format == BundleFormat::Eszip,
            p.v8_version@ == runtime_v8_version@,
            p.bundle@ == eszip@,
            p.fallback_eszip is None,
            p.embedded_manifest_json is None,
            p.embedded_route_metadata is None,
    {
        BundlePackage {
            format: BundleFormat::Eszip,
            v8_version: runtime_v8_version.to_string(),
            bundle: eszip,
            fallback_eszip: None,
            embedded_manifest_json: None,
            embedded_route_metadata: None,
        }
    }

    /// Whether the bundle was made by the V8 version the runtime runs.
    pub fn is_v8_compatible(&self, runtime_v8_version: &str) -> (r: bool)
        ensures
            r == (self.v8_version@ == runtime_v8_version@),
    {
        self.v8_version == runtime_v8_version.to_owned()
    }

    /// The eszip bytes kept for fallback and reload: the bundle itself for an
    /// eszip bundle; the fallback (or, lacking one, the bundle) for a snapshot.
    pub fn eszip_bytes(&self) -> (r: Vec<u8>)
        ensures
            r@ == package_eszip_bytes(*self),
    {
        match self.format {
            BundleFormat::Eszip => copy_bytes(&self.bundle),
            BundleFormat::Snapshot => match &self.fallback_eszip {
                Some(f) => copy_bytes(f),
                None => copy_bytes(&self.bundle),
            },
        }
    }
}

pub open spec fn package_eszip_bytes(p: BundlePackage) -> Seq<u8> {
    match p.format {
        BundleFormat::Eszip => p.bundle@,
        BundleFormat::Snapshot => match p.fallback_eszip {
            Some(f) => f@,
            None => p.bundle@,
        },
    }
}

/// A copy of `v`.
pub fn copy_bytes(v: &Vec<u8>) -> (r: Vec<u8>)
    ensures
        r@ == v@,
{
    let mut r: Vec<u8> = Vec::new();
    let mut i: usize = 0;
    while i < v.len()
        invariant
            i <= v.len(),
            r@ == v@.take(i as int),
        decreases v.len() - i,
    {
        r.push(v[i]);
        proof {
            assert(v@.take(i + 1) == v@.take(i as int).push(v@[i as int]));
        }
        i = i + 1;
    }
    proof {
        assert(v@.take(v.len() as int) == v@);
    }
    r
}

} // verus!
