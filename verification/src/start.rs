//! The `start` command's decisions: which argument combinations are
//! refused, the isolate configuration, the pool limits, and how the admin
//! and ingress listeners are set up.

use vstd::prelude::*;

use crate::types::{copy_strings, same_strings, ContextPoolLimits, IsolateConfig, PoolLimits, PoolRuntimeConfig, SsrfConfig};

verus! {

/// Source map handling for modules loaded from eszip.
#[derive(Debug, Clone, Copy, PartialEq, Eq, Structural)]
pub enum SourceMapMode {
    Disabled,
    Inline,
}

/// Arguments of the `start` command.
#[derive(Debug)]
pub struct StartArgs {
    pub admin_host: Option<String>,
    pub admin_port: Option<u16>,
    pub admin_fd: Option<i32>,
    pub api_key: Option<String>,
    pub admin_tls_cert: Option<String>,
    pub admin_tls_key: Option<String>,
    pub require_bundle_signature: bool,
    pub bundle_public_key_path: Option<String>,
    pub host: Option<String>,
    pub port: Option<u16>,
    pub unix_socket: Option<String>,
    pub ingress_fd: Option<i32>,
    pub tls_cert: Option<String>,
    pub tls_key: Option<String>,
    pub disable_ssrf_protection: bool,
    pub allow_private_net: Vec<String>,
    pub http_outgoing_proxy: Option<String>,
    pub https_outgoing_proxy: Option<String>,
    pub tcp_outgoing_proxy: Option<String>,
    pub http_no_proxy: Vec<String>,
    pub https_no_proxy: Vec<String>,
    pub tcp_no_proxy: Vec<String>,
    pub max_request_body_size: usize,
    pub max_response_body_size: usize,
    pub max_connections: usize,
    pub pool_enabled: bool,
    pub pool_global_max_isolates: usize,
    pub pool_min_isolates: usize,
    pub pool_max_isolates: usize,
    pub pool_min_free_memory_mib: u64,
    pub pool_capacity_wait_timeout_ms: u64,
    pub pool_capacity_max_waiters: usize,
    pub context_pool_enabled: bool,
    pub max_contexts_per_isolate: usize,
    pub max_active_requests_per_context: usize,
    pub context_pool_min_contexts: usize,
    pub context_pool_max_contexts: usize,
    pub rate_limit: u64,
    pub graceful_exit_timeout: u64,
    pub max_heap_mib: u64,
    pub cpu_time_limit_ms: u64,
    pub wall_clock_timeout_ms: u64,
    pub print_isolate_logs: bool,
    pub vfs_total_quota_bytes: usize,
    pub vfs_max_file_bytes: usize,
    pub dns_doh_endpoint: String,
    pub dns_max_answers: usize,
    pub dns_timeout_ms: u64,
    pub zlib_max_output_length: usize,
    pub zlib_max_input_length: usize,
    pub zlib_operation_timeout_ms: u64,
    pub egress_max_requests_per_execution: usize,
    pub sourcemap: SourceMapMode,
}

/// Why `start` refuses its arguments.
#[derive(Debug, Clone, Copy, PartialEq, Eq, Structural)]
pub enum StartError {
    PortAndUnixSocket,
    NegativeAdminFd,
    NegativeIngressFd,
    SameInheritedFd,
    InheritedFdUnsupported,
    InvalidPoolLimits,
    InvalidContextLimits,
    SignatureWithoutKey,
}

pub open spec fn start_error_text(e: StartError) -> Seq<char> {
    match e {
        StartError::PortAndUnixSocket => "--port and --unix-socket are mutually exclusive"@,
        StartError::NegativeAdminFd => "--admin-fd must be a non-negative file descriptor"@,
        StartError::NegativeIngressFd => "--ingress-fd must be a non-negative file descriptor"@,
        StartError::SameInheritedFd => "--admin-fd and --ingress-fd cannot use the same file descriptor"@,
        StartError::InheritedFdUnsupported => "--admin-fd and --ingress-fd are supported only on macOS and Linux"@,
        StartError::InvalidPoolLimits =>
            "invalid pool isolate limits: --pool-min-isolates must be <= --pool-max-isolates"@,
        StartError::InvalidContextLimits =>
            "invalid context limits: --context-pool-min-contexts must be <= --context-pool-max-contexts"@,
        StartError::SignatureWithoutKey => "--require-bundle-signature requires --bundle-public-key-path"@,
    }
}

impl StartError {
    /// The message the command fails with.
    pub fn message(&self) -> (m: String)
        ensures
            m@ == start_error_text(*self),
    {
        match self {
            StartError::PortAndUnixSocket => "--port and --unix-socket are mutually exclusive".to_string(),
            StartError::NegativeAdminFd => "--admin-fd must be a non-negative file descriptor".to_string(),
            StartError::NegativeIngressFd => "--ingress-fd must be a non-negative file descriptor".to_string(),
            StartError::SameInheritedFd =>
                "--admin-fd and --ingress-fd cannot use the same file descriptor".to_string(),
            StartError::InheritedFdUnsupported =>
                "--admin-fd and --ingress-fd are supported only on macOS and Linux".to_string(),
            StartError::InvalidPoolLimits =>
                "invalid pool isolate limits: --pool-min-isolates must be <= --pool-max-isolates".to_string(),
            StartError::InvalidContextLimits =>
                "invalid context limits: --context-pool-min-contexts must be <= --context-pool-max-contexts".to_string(),
            StartError::SignatureWithoutKey =>
                "--require-bundle-signature requires --bundle-public-key-path".to_string(),
        }
    }
}

/// The first rule `args` breaks, in the order `start` checks them, if any;
/// `inherited_fds_supported` says whether the platform (macOS, Linux) can
/// take inherited listener descriptors.
pub open spec fn start_args_violation(
    port: Option<u16>,
    unix_socket_set: bool,
    admin_fd: Option<i32>,
    ingress_fd: Option<i32>,
    inherited_fds_supported: bool,
) -> Option<StartError> {
    if port.is_some() && unix_socket_set {
        Some(StartError::PortAndUnixSocket)
    } else if admin_fd matches Some(fd) && fd < 0 {
        Some(StartError::NegativeAdminFd)
    } else if ingress_fd matches Some(fd) && fd < 0 {
        Some(StartError::NegativeIngressFd)
    } else if admin_fd.is_some() && admin_fd == ingress_fd {
        Some(StartError::SameInheritedFd)
    } else if !inherited_fds_supported && (admin_fd.is_some() || ingress_fd.is_some()) {
        Some(StartError::InheritedFdUnsupported)
    } else {
        None
    }
}

/// Checks the listener arguments: `--port` and `--unix-socket` exclude each
/// other, inherited descriptors are non-negative and distinct, and only
/// supported platforms take them.
pub fn validate_start_args(args: &StartArgs, inherited_fds_supported: bool) -> (r: Result<(), StartError>)
    ensures
        r == (match start_args_violation(args.port, args.unix_socket.is_some(), args.admin_fd,
            args.ingress_fd, inherited_fds_supported) {
            Some(e) => Err::<(), StartError>(e),
            None => Ok(()),
        }),
{
    if args.port.is_some() && args.unix_socket.is_some() {
        return Err(StartError::PortAndUnixSocket);
    }
    if let Some(fd) = args.admin_fd {
        if fd < 0 {
            return Err(StartError::NegativeAdminFd);
        }
    }
    if let Some(fd) = args.ingress_fd {
        if fd < 0 {
            return Err(StartError::NegativeIngressFd);
        }
    }
    if args.admin_fd.is_some() && args.admin_fd == args.ingress_fd {
        return Err(StartError::SameInheritedFd);
    }
    if !inherited_fds_supported && (args.admin_fd.is_some() || args.ingress_fd.is_some()) {
        return Err(StartError::InheritedFdUnsupported);
    }
    Ok(())
}

/// The SSRF policy of `start`: off when disabled, otherwise on, with the
/// listed private networks allowed.
pub fn start_ssrf_config(args: &StartArgs) -> (c: SsrfConfig)
    ensures
        c.enabled == !args.disable_ssrf_protection,
        args.disable_ssrf_protection ==> c.allow_private_subnets@.len() == 0,
        !args.disable_ssrf_protection ==> same_strings(c.allow_private_subnets@, args.allow_private_net@),
{
    if args.disable_ssrf_protection {
        SsrfConfig::disabled()
    } else if args.allow_private_net.len() > 0 {
        SsrfConfig::with_exceptions(copy_strings(&args.allow_private_net))
    } else {
        SsrfConfig::new()
    }
}

/// The isolate configuration `start` deploys with: the limits of `args`,
/// source maps when `--sourcemap inline`, and the context-aware scheduler
/// switched on whenever pooling is.
pub fn build_start_default_config(args: &StartArgs) -> (c: IsolateConfig)
    requires
        args.max_heap_mib * 1048576 <= usize::MAX,
    ensures
        c.max_heap_size_bytes == args.max_heap_mib * 1048576,
        c.cpu_time_limit_ms == args.cpu_time_limit_ms,
        c.wall_clock_timeout_ms == args.wall_clock_timeout_ms,
        c.inspect_port is None,
        !c.inspect_brk,
        !c.inspect_allow_remote,
        c.enable_source_maps == (args.sourcemap == SourceMapMode::Inline),
        c.ssrf_config.enabled == !args.disable_ssrf_protection,
        args.disable_ssrf_protection ==> c.ssrf_config.allow_private_subnets@.len() == 0,
        !args.disable_ssrf_protection ==> same_strings(c.ssrf_config.allow_private_subnets@, args.allow_private_net@),
        c.print_isolate_logs == args.print_isolate_logs,
        c.vfs_total_quota_bytes == args.vfs_total_quota_bytes,
        c.vfs_max_file_bytes == args.vfs_max_file_bytes,
        c.dns_doh_endpoint@ == args.dns_doh_endpoint@,
        c.dns_max_answers == args.dns_max_answers,
        c.dns_timeout_ms == args.dns_timeout_ms,
        c.zlib_max_output_length == args.zlib_max_output_length,
        c.zlib_max_input_length == args.zlib_max_input_length,
        c.zlib_operation_timeout_ms == args.zlib_operation_timeout_ms,
        c.egress_max_requests_per_execution == args.egress_max_requests_per_execution,
        c.context_pool_enabled == (args.pool_enabled || args.context_pool_enabled),
        c.max_contexts_per_isolate == args.max_contexts_per_isolate,
        c.max_active_requests_per_context == args.max_active_requests_per_context,
{
    let mib = args.max_heap_mib as usize;
    let source_maps = match args.sourcemap {
        SourceMapMode::Inline => true,
        SourceMapMode::Disabled => false,
    };
    IsolateConfig {
        max_heap_size_bytes: mib * 1024 * 1024,
        cpu_time_limit_ms: args.cpu_time_limit_ms,
        wall_clock_timeout_ms: args.wall_clock_timeout_ms,
        inspect_port: None,
        inspect_brk: false,
        inspect_allow_remote: false,
        enable_source_maps: source_maps,
        ssrf_config: start_ssrf_config(args),
        print_isolate_logs: args.print_isolate_logs,
        vfs_total_quota_bytes: args.vfs_total_quota_bytes,
        vfs_max_file_bytes: args.vfs_max_file_bytes,
        dns_doh_endpoint: args.dns_doh_endpoint.clone(),
        dns_max_answers: args.dns_max_answers,
        dns_timeout_ms: args.dns_timeout_ms,
        zlib_max_output_length: args.zlib_max_output_length,
        zlib_max_input_length: args.zlib_max_input_length,
        zlib_operation_timeout_ms: args.zlib_operation_timeout_ms,
        egress_max_requests_per_execution: args.egress_max_requests_per_execution,
        context_pool_enabled: if args.pool_enabled && !args.context_pool_enabled { true } else { args.context_pool_enabled },
        max_contexts_per_isolate: args.max_contexts_per_isolate,
        max_active_requests_per_context: args.max_active_requests_per_context,
    }
}

/// The pool settings of `start`: the registry's pooling configuration and
/// the default isolate and context limits; refused when a minimum exceeds
/// its maximum, the isolate limits checked first.
pub fn start_pool_settings(args: &StartArgs) -> (r: Result<(PoolRuntimeConfig, PoolLimits, ContextPoolLimits), StartError>)
    ensures
        args.pool_min_isolates > args.pool_max_isolates ==> r == Err::<(PoolRuntimeConfig, PoolLimits, ContextPoolLimits), StartError>(StartError::InvalidPoolLimits),
        args.pool_min_isolates <= args.pool_max_isolates && args.context_pool_min_contexts > args.context_pool_max_contexts
            ==> r == Err::<(PoolRuntimeConfig, PoolLimits, ContextPoolLimits), StartError>(StartError::InvalidContextLimits),
        r matches Ok((p, l, c)) ==> {
            &&& args.pool_min_isolates <= args.pool_max_isolates
            &&& args.context_pool_min_contexts <= args.context_pool_max_contexts
            &&& p.enabled == args.pool_enabled
            &&& p.global_max_isolates == args.pool_global_max_isolates
            &&& p.min_free_memory_mib == args.pool_min_free_memory_mib
            &&& l.min == args.pool_min_isolates && l.max == args.pool_max_isolates
            &&& c.min == args.context_pool_min_contexts && c.max == args.context_pool_max_contexts
        },
        args.pool_min_isolates <= args.pool_max_isolates && args.context_pool_min_contexts <= args.context_pool_max_contexts
            ==> r is Ok,
{
    if args.pool_min_isolates > args.pool_max_isolates {
        return Err(StartError::InvalidPoolLimits);
    }
    if args.context_pool_min_contexts > args.context_pool_max_contexts {
        return Err(StartError::InvalidContextLimits);
    }
    Ok((
        PoolRuntimeConfig {
            enabled: args.pool_enabled,
            global_max_isolates: args.pool_global_max_isolates,
            min_free_memory_mib: args.pool_min_free_memory_mib,
        },
        PoolLimits { min: args.pool_min_isolates, max: args.pool_max_isolates },
        ContextPoolLimits { min: args.context_pool_min_contexts, max: args.context_pool_max_contexts },
    ))
}

/// `--require-bundle-signature` needs `--bundle-public-key-path`.
pub fn check_bundle_signature_args(args: &StartArgs) -> (r: Result<(), StartError>)
    ensures
        r == (if args.require_bundle_signature && args.bundle_public_key_path.is_none() {
            Err::<(), StartError>(StartError::SignatureWithoutKey)
        } else {
            Ok(())
        }),
{
    if args.require_bundle_signature && args.bundle_public_key_path.is_none() {
        Err(StartError::SignatureWithoutKey)
    } else {
        Ok(())
    }
}

/// Where a TCP listener comes from.
#[derive(Debug)]
pub enum TcpListenerSource {
    /// A listening socket inherited as this descriptor.
    InheritedFd(i32),
    /// A socket bound to `host:port`.
    Bind { host: String, port: u16 },
}

/// The ingress listener.
#[derive(Debug)]
pub enum IngressListenerType {
    Tcp(TcpListenerSource),
    Unix(String),
}

/// A certificate and key pair.
#[derive(Debug)]
pub struct TlsConfig {
    pub cert_path: String,
    pub key_path: String,
}

fn host_or_any(host: &Option<String>) -> (h: String)
    ensures
        h@ == (match host { Some(s) => s@, None => "0.0.0.0"@ }),
{
    match host {
        Some(s) => s.clone(),
        None => "0.0.0.0".to_string(),
    }
}

/// The admin listener: the inherited descriptor, or a socket bound to
/// `--admin-host` (0.0.0.0) and `--admin-port` (9000).
pub fn admin_listener(args: &StartArgs) -> (l: TcpListenerSource)
    ensures
        match args.admin_fd {
            Some(fd) => l == TcpListenerSource::InheritedFd(fd),
            None => l matches TcpListenerSource::Bind { host, port } && port == (match args.admin_port {
                Some(p) => p,
                None => 9000u16,
            }) && host@ == (match args.admin_host { Some(s) => s@, None => "0.0.0.0"@ }),
        },
{
    match args.admin_fd {
        Some(fd) => TcpListenerSource::InheritedFd(fd),
        None => {
            let port = match args.admin_port {
                Some(p) => p,
                None => 9000,
            };
            TcpListenerSource::Bind { host: host_or_any(&args.admin_host), port }
        },
    }
}

/// The ingress listener: an inherited descriptor first, then the Unix
/// socket, then `--host` (0.0.0.0) with `--port` (8080).
pub fn ingress_listener(args: &StartArgs) -> (l: IngressListenerType)
    ensures
        args.ingress_fd matches Some(fd) ==> l == IngressListenerType::Tcp(TcpListenerSource::InheritedFd(fd)),
        args.ingress_fd is None && args.unix_socket is Some ==> (l matches IngressListenerType::Unix(p)
            && p@ == args.unix_socket->0@),
        args.ingress_fd is None && args.unix_socket is None ==> (l matches IngressListenerType::Tcp(
            TcpListenerSource::Bind { host, port },
        ) && port == (match args.port {
            Some(p) => p,
            None => 8080u16,
        }) && host@ == (match args.host { Some(s) => s@, None => "0.0.0.0"@ })),
{
    match args.ingress_fd {
        Some(fd) => IngressListenerType::Tcp(TcpListenerSource::InheritedFd(fd)),
        None => match &args.unix_socket {
            Some(path) => IngressListenerType::Unix(path.clone()),
            None => {
                let port = match args.port {
                    Some(p) => p,
                    None => 8080,
                };
                IngressListenerType::Tcp(TcpListenerSource::Bind { host: host_or_any(&args.host), port })
            },
        },
    }
}

/// Admin TLS: set when both a certificate and a key are given.
pub fn admin_tls(args: &StartArgs) -> (t: Option<TlsConfig>)
    ensures
        t is Some <==> (args.admin_tls_cert is Some && args.admin_tls_key is Some),
        t matches Some(c) ==> c.cert_path@ == args.admin_tls_cert->0@ && c.key_path@ == args.admin_tls_key->0@,
{
    match (&args.admin_tls_cert, &args.admin_tls_key) {
        (Some(cert), Some(key)) => Some(TlsConfig { cert_path: cert.clone(), key_path: key.clone() }),
        _ => None,
    }
}

/// Ingress TLS: set when both a certificate and a key are given and the
/// ingress is not a Unix socket.
pub fn ingress_tls(args: &StartArgs) -> (t: Option<TlsConfig>)
    ensures
        t is Some <==> (args.tls_cert is Some && args.tls_key is Some && args.unix_socket is None),
        t matches Some(c) ==> c.cert_path@ == args.tls_cert->0@ && c.key_path@ == args.tls_key->0@,
{
    match (&args.tls_cert, &args.tls_key, &args.unix_socket) {
        (Some(cert), Some(key), None) => Some(TlsConfig { cert_path: cert.clone(), key_path: key.clone() }),
        _ => None,
    }
}

/// TLS options are ignored (with a warning) on a Unix socket ingress.
pub fn tls_ignored_for_unix_socket(args: &StartArgs) -> (r: bool)
    ensures
        r == (args.unix_socket is Some && (args.tls_cert is Some || args.tls_key is Some)),
{
    args.unix_socket.is_some() && (args.tls_cert.is_some() || args.tls_key.is_some())
}

/// The ingress rate limit: none when 0.
pub fn rate_limit_rps(rate_limit: u64) -> (r: Option<u64>)
    ensures
        r == (if rate_limit > 0 { Some(rate_limit) } else { None::<u64> }),
{
    if rate_limit > 0 { Some(rate_limit) } else { None }
}

} // verus!
