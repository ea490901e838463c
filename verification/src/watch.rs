//! The `watch` command's rules: which files it deploys, the function name a
//! file gets, the inspector port each function gets, and the configuration
//! the isolates run with.

use vstd::prelude::*;

use crate::text::{chars_of, equal_chars, drop_empty, ends_with_chars, has_suffix, join_on, join_with, non_empty,
    slice_chars, split_chars, split_on, string_of, views};
use crate::types::{same_ssrf, IsolateConfig, PoolRuntimeConfig, SsrfConfig};

verus! {

/// Bundle format used for hot deployments.
#[derive(Debug, Clone, Copy, PartialEq, Eq, Structural)]
pub enum WatchBundleFormat {
    /// Standard ESZIP package.
    Eszip,
    /// Snapshot-flavor envelope with ESZIP fallback.
    Snapshot,
}

/// Arguments of the `watch` command.
#[derive(Debug)]
pub struct WatchArgs {
    pub path: String,
    pub host: String,
    pub port: u16,
    pub interval: u64,
    pub format: WatchBundleFormat,
    pub max_heap_mib: u64,
    pub cpu_time_limit_ms: u64,
    pub wall_clock_timeout_ms: u64,
    pub print_isolate_logs: bool,
    pub vfs_total_quota_bytes: usize,
    pub vfs_max_file_bytes: usize,
    pub dns_doh_endpoint: String,
    pub dns_max_answers: usize,
    pub dns_timeout_ms: u64,
    pub zlib_max_output_length: usize,
    pub zlib_max_input_length: usize,
    pub zlib_operation_timeout_ms: u64,
    pub egress_max_requests_per_execution: usize,
    pub http_outgoing_proxy: Option<String>,
    pub https_outgoing_proxy: Option<String>,
    pub tcp_outgoing_proxy: Option<String>,
    pub http_no_proxy: Vec<String>,
    pub https_no_proxy: Vec<String>,
    pub tcp_no_proxy: Vec<String>,
    pub inspect: Option<u16>,
    pub inspect_brk: bool,
    pub inspect_allow_remote: bool,
}

/// `path` without a trailing `.ts` or `.js`.
pub open spec fn without_source_ext(path: Seq<char>) -> Seq<char> {
    if has_suffix(path, ".ts"@) || has_suffix(path, ".js"@) {
        path.take(path.len() - 3)
    } else {
        path
    }
}

/// The function name of a file at `path` (relative to the watched
/// directory): its extension dropped, its non-empty `/`-separated parts
/// joined by `-`, a file named like its directory (`hello/hello.ts`) counted
/// once, and `unknown` when no part is left.
pub open spec fn function_name_for(path: Seq<char>) -> Seq<char> {
    let parts = non_empty(split_chars(without_source_ext(path), '/'));
    if parts.len() == 0 {
        "unknown"@
    } else if parts.len() >= 2 && parts[parts.len() - 1] == parts[parts.len() - 2] {
        join_with(parts.drop_last(), "-"@)
    } else {
        join_with(parts, "-"@)
    }
}

/// The function name the watcher deploys the file at `path` under.
pub fn path_to_function_name(path: &str) -> (r: String)
    ensures
        r@ == function_name_for(path@),
{
    proof {
        reveal_strlit(".ts");
        reveal_strlit(".js");
        reveal_strlit("unknown");
        reveal_strlit("-");
    }
    let cs = chars_of(path);
    let ts = chars_of(".ts");
    let js = chars_of(".js");
    let stem = if ends_with_chars(&cs, &ts) || ends_with_chars(&cs, &js) {
        slice_chars(&cs, 0, cs.len() - 3)
    } else {
        cs
    };
    proof {
        if has_suffix(path@, ".ts"@) || has_suffix(path@, ".js"@) {
            assert(stem@ =~= path@.take(path@.len() - 3));
        }
    }
    let parts = drop_empty(&split_on(&stem, '/'));
    let dash = chars_of("-");
    let n = parts.len();
    if n == 0 {
        return "unknown".to_string();
    }
    if n >= 2 && equal_chars(&parts[n - 1], &parts[n - 2]) {
        let mut head: Vec<Vec<char>> = Vec::new();
        let mut i: usize = 0;
        while i < n - 1
            invariant
                n == parts.len(),
                n >= 2,
                i <= n - 1,
                views(head@) == views(parts@).take(i as int),
            decreases n - 1 - i,
        {
            let piece = slice_chars(&parts[i], 0, parts[i].len());
            let ghost old_head = head@;
            head.push(piece);
            proof {
                assert(piece@ =~= parts@[i as int]@);
                assert(head@ == old_head.push(piece));
                assert(views(head@) =~= views(old_head).push(piece@));
                assert(views(parts@).take(i + 1) =~= views(parts@).take(i as int).push(parts@[i as int]@));
            }
            i = i + 1;
        }
        proof {
            assert(views(parts@).take(n - 1) =~= views(parts@).drop_last());
            assert(views(parts@)[n - 1] == parts@[n - 1]@);
            assert(views(parts@)[n - 2] == parts@[n - 2]@);
        }
        string_of(&join_on(&head, &dash))
    } else {
        proof {
            if n >= 2 {
                assert(views(parts@)[n - 1] == parts@[n - 1]@);
                assert(views(parts@)[n - 2] == parts@[n - 2]@);
            }
        }
        string_of(&join_on(&parts, &dash))
    }
}

/// A directory the watcher never deploys from.
pub open spec fn is_skipped_dir(name: Seq<char>) -> bool {
    name == "node_modules"@ || name == "dist"@ || name == "build"@ || name == ".next"@
        || name == ".deno"@ || name == "target"@
}

/// Whether a path component names a directory the watcher skips
/// (`node_modules`, `dist`, `build`, `.next`, `.deno`, `target`).
pub fn is_skipped_component(name: &str) -> (r: bool)
    ensures
        r == is_skipped_dir(name@),
{
    let n = name.to_string();
    n == "node_modules".to_string() || n == "dist".to_string() || n == "build".to_string()
        || n == ".next".to_string() || n == ".deno".to_string() || n == "target".to_string()
}

/// What `regex::Regex` decides: `None` when `pattern` does not compile,
/// otherwise whether it matches somewhere in `text`.
pub uninterp spec fn regex_match(pattern: Seq<char>, text: Seq<char>) -> Option<bool>;

/// `regex::Regex::new(pattern)` then `is_match(text)`; `None` when the
/// pattern does not compile. What the match means is left to the name.
#[verifier::external_body]
fn regex_is_match(pattern: &str, text: &str) -> (r: Option<bool>)
    ensures
        r == regex_match(pattern@, text@),
{
    match regex::Regex::new(pattern) {
        Ok(re) => Some(re.is_match(text)),
        Err(_) => None,
    }
}

/// The pattern a watched file's path must match.
pub const WATCH_SOURCE_PATTERN: &'static str = "\\.(ts|js)$";

/// The watcher's decision for the file at `path` with these components:
/// no, when a component is a skipped directory; otherwise whether the path
/// matches the source pattern (`None` when the pattern does not compile).
pub open spec fn watch_decision(path: Seq<char>, components: Seq<String>) -> Option<bool> {
    if exists|i: int| 0 <= i < components.len() && is_skipped_dir(#[trigger] components[i]@) {
        Some(false)
    } else {
        regex_match(WATCH_SOURCE_PATTERN@, path)
    }
}

/// Whether the watcher deploys the file at `path`, given its components:
/// none of them is a skipped directory and the path matches the source
/// pattern. `None` when the pattern does not compile.
pub fn is_watched_source(path: &str, components: &Vec<String>) -> (r: Option<bool>)
    ensures
        (exists|i: int| 0 <= i < components.len() && is_skipped_dir(#[trigger] components@[i]@))
            ==> r == Some(false),
        (forall|i: int| 0 <= i < components.len() ==> !is_skipped_dir(#[trigger] components@[i]@))
            ==> r == regex_match(WATCH_SOURCE_PATTERN@, path@),
        r == watch_decision(path@, components@),
{
    let mut i: usize = 0;
    while i < components.len()
        invariant
            i <= components.len(),
            forall|j: int| 0 <= j < i ==> !is_skipped_dir(#[trigger] components@[j]@),
        decreases components.len() - i,
    {
        if is_skipped_component(components[i].as_str()) {
            return Some(false);
        }
        i = i + 1;
    }
    regex_is_match(WATCH_SOURCE_PATTERN, path)
}

/// Why no inspector port could be given.
#[derive(Debug, Clone, Copy, PartialEq, Eq, Structural)]
pub enum InspectPortError {
    /// `base + index` does not fit in a port number.
    Overflow,
    /// The source pattern did not compile, so no file can be selected.
    SourcePattern,
}

/// The inspector port of the next deployed function and the next index:
/// with a base port, `base + index` (the index then grows, saturating);
/// without one, no port and the index as it was.
pub fn assign_inspect_port(base: Option<u16>, index: u16) -> (r: Result<(Option<u16>, u16), InspectPortError>)
    ensures
        r == (match base {
            None => Ok::<(Option<u16>, u16), InspectPortError>((None, index)),
            Some(b) => if b + index <= u16::MAX {
                Ok((Some((b + index) as u16), if index == u16::MAX { index } else { (index + 1) as u16 }))
            } else {
                Err(InspectPortError::Overflow)
            },
        }),
{
    match base {
        None => Ok((None, index)),
        Some(b) => match b.checked_add(index) {
            Some(port) => Ok((Some(port), index.saturating_add(1))),
            None => Err(InspectPortError::Overflow),
        },
    }
}

/// The host an inspector listens on.
pub fn inspector_host(allow_remote: bool) -> (h: &'static str)
    ensures
        h@ == (if allow_remote { "0.0.0.0"@ } else { "127.0.0.1"@ }),
{
    if allow_remote { "0.0.0.0" } else { "127.0.0.1" }
}

/// The watch-mode default isolate configuration: the limits of `args`,
/// source maps on, no SSRF blocking (local development), no context pool.
pub fn build_watch_default_config(args: &WatchArgs) -> (c: IsolateConfig)
    requires
        args.max_heap_mib * 1048576 <= usize::MAX,
    ensures
        c.max_heap_size_bytes == args.max_heap_mib * 1048576,
        c.cpu_time_limit_ms == args.cpu_time_limit_ms,
        c.wall_clock_timeout_ms == args.wall_clock_timeout_ms,
        c.inspect_port is None,
        c.inspect_brk == args.inspect_brk,
        c.inspect_allow_remote == args.inspect_allow_remote,
        c.enable_source_maps,
        !c.ssrf_config.enabled,
        c.ssrf_config.allow_private_subnets@.len() == 0,
        c.print_isolate_logs == args.print_isolate_logs,
        c.vfs_total_quota_bytes == args.vfs_total_quota_bytes,
        c.vfs_max_file_bytes == args.vfs_max_file_bytes,
        c.dns_doh_endpoint@ == args.dns_doh_endpoint@,
        c.dns_max_answers == args.dns_max_answers,
        c.dns_timeout_ms == args.dns_timeout_ms,
        c.zlib_max_output_length == args.zlib_max_output_length,
        c.zlib_max_input_length == args.zlib_max_input_length,
        c.zlib_operation_timeout_ms == args.zlib_operation_timeout_ms,
        c.egress_max_requests_per_execution == args.egress_max_requests_per_execution,
        !c.context_pool_enabled,
        c.max_contexts_per_isolate == 8,
        c.max_active_requests_per_context == 1,
{
    let mib = args.max_heap_mib as usize;
    IsolateConfig {
        max_heap_size_bytes: mib * 1024 * 1024,
        cpu_time_limit_ms: args.cpu_time_limit_ms,
        wall_clock_timeout_ms: args.wall_clock_timeout_ms,
        inspect_port: None,
        inspect_brk: args.inspect_brk,
        inspect_allow_remote: args.inspect_allow_remote,
        enable_source_maps: true,
        ssrf_config: SsrfConfig::disabled(),
        print_isolate_logs: args.print_isolate_logs,
        vfs_total_quota_bytes: args.vfs_total_quota_bytes,
        vfs_max_file_bytes: args.vfs_max_file_bytes,
        dns_doh_endpoint: args.dns_doh_endpoint.clone(),
        dns_max_answers: args.dns_max_answers,
        dns_timeout_ms: args.dns_timeout_ms,
        zlib_max_output_length: args.zlib_max_output_length,
        zlib_max_input_length: args.zlib_max_input_length,
        zlib_operation_timeout_ms: args.zlib_operation_timeout_ms,
        egress_max_requests_per_execution: args.egress_max_requests_per_execution,
        context_pool_enabled: false,
        max_contexts_per_isolate: 8,
        max_active_requests_per_context: 1,
    }
}

/// The pooling configuration of watch mode: pooling off, the default
/// isolate ceiling and memory floor.
pub fn build_watch_pool_config(args: &WatchArgs) -> (c: PoolRuntimeConfig)
    ensures
        !c.enabled,
        c.global_max_isolates == 1024,
        c.min_free_memory_mib == 256,
{
    PoolRuntimeConfig { enabled: false, global_max_isolates: 1024, min_free_memory_mib: 256 }
}

/// The configuration a watched function runs with: the default one with its
/// own inspector port.
pub fn function_config_for(default_config: &IsolateConfig, inspect_port: Option<u16>) -> (c: IsolateConfig)
    ensures
        c.inspect_port == inspect_port,
        c.max_heap_size_bytes == default_config.max_heap_size_bytes,
        c.cpu_time_limit_ms == default_config.cpu_time_limit_ms,
        c.wall_clock_timeout_ms == default_config.wall_clock_timeout_ms,
        c.inspect_brk == default_config.inspect_brk,
        c.inspect_allow_remote == default_config.inspect_allow_remote,
        c.enable_source_maps == default_config.enable_source_maps,
        same_ssrf(c.ssrf_config, default_config.ssrf_config),
        c.print_isolate_logs == default_config.print_isolate_logs,
        c.vfs_total_quota_bytes == default_config.vfs_total_quota_bytes,
        c.vfs_max_file_bytes == default_config.vfs_max_file_bytes,
        c.dns_doh_endpoint@ == default_config.dns_doh_endpoint@,
        c.dns_max_answers == default_config.dns_max_answers,
        c.dns_timeout_ms == default_config.dns_timeout_ms,
        c.zlib_max_output_length == default_config.zlib_max_output_length,
        c.zlib_max_input_length == default_config.zlib_max_input_length,
        c.zlib_operation_timeout_ms == default_config.zlib_operation_timeout_ms,
        c.egress_max_requests_per_execution == default_config.egress_max_requests_per_execution,
        c.context_pool_enabled == default_config.context_pool_enabled,
        c.max_contexts_per_isolate == default_config.max_contexts_per_isolate,
        c.max_active_requests_per_context == default_config.max_active_requests_per_context,
{
    let mut c = default_config.duplicate();
    c.inspect_port = inspect_port;
    c
}

/// The deployment plan of the first `n` candidate files: each watched file,
/// in order, gets the function name of its relative path and, with a base
/// port, the port `base + k` where `k` counts the watched files before it
/// (saturating at `u16::MAX`); a port past `u16::MAX` stops the plan.
pub open spec fn watch_plan(
    paths: Seq<String>,
    relatives: Seq<String>,
    components: Seq<Vec<String>>,
    base: Option<u16>,
    n: int,
) -> Result<Seq<(Seq<char>, Option<u16>)>, InspectPortError>
    decreases n,
{
    if n <= 0 {
        Ok(Seq::empty())
    } else {
        match watch_plan(paths, relatives, components, base, n - 1) {
            Err(e) => Err(e),
            Ok(prev) => match watch_decision(paths[n - 1]@, components[n - 1]@) {
                None => Err(InspectPortError::SourcePattern),
                Some(false) => Ok(prev),
                Some(true) => {
                    let k: int = if prev.len() > u16::MAX { u16::MAX as int } else { prev.len() as int };
                    let name = function_name_for(relatives[n - 1]@);
                    match base {
                        None => Ok(prev.push((name, None))),
                        Some(b) => if b + k > u16::MAX {
                            Err(InspectPortError::Overflow)
                        } else {
                            Ok(prev.push((name, Some((b + k) as u16))))
                        },
                    }
                },
            },
        }
    }
}

proof fn lemma_plan_error_persists(
    paths: Seq<String>,
    relatives: Seq<String>,
    components: Seq<Vec<String>>,
    base: Option<u16>,
    m: int,
    n: int,
)
    requires
        0 <= m <= n,
        watch_plan(paths, relatives, components, base, m) is Err,
    ensures
        watch_plan(paths, relatives, components, base, n) == watch_plan(paths, relatives, components, base, m),
    decreases n - m,
{
    if n > m {
        lemma_plan_error_persists(paths, relatives, components, base, m, n - 1);
    }
}

/// With a base port, the k-th deployed function listens on `base + k`
/// (with `k` saturating at `u16::MAX`); without one, none gets a port.
pub proof fn lemma_watch_ports_are_sequential(
    paths: Seq<String>,
    relatives: Seq<String>,
    components: Seq<Vec<String>>,
    base: Option<u16>,
    n: int,
)
    ensures
        watch_plan(paths, relatives, components, base, n) matches Ok(p) ==> forall|k: int| 0 <= k < p.len() ==>
            (#[trigger] p[k]).1 == (match base {
                None => None::<u16>,
                Some(b) => Some((b + (if k > u16::MAX { u16::MAX as int } else { k })) as u16),
            }),
    decreases n,
{
    if n > 0 {
        lemma_watch_ports_are_sequential(paths, relatives, components, base, n - 1);
        match watch_plan(paths, relatives, components, base, n - 1) {
            Ok(prev) => {
                if let Ok(p) = watch_plan(paths, relatives, components, base, n) {
                    assert forall|k: int| 0 <= k < p.len() implies (#[trigger] p[k]).1 == (match base {
                        None => None::<u16>,
                        Some(b) => Some((b + (if k > u16::MAX { u16::MAX as int } else { k })) as u16),
                    }) by {
                        if k < prev.len() {
                            assert(p[k] == prev[k]);
                        }
                    }
                }
            },
            Err(_) => {},
        }
    }
}

/// The functions the watcher deploys from the candidate files (their paths,
/// their paths relative to the watched directory, and their components), in
/// order, each with its inspector port: ports run base, base+1, … in
/// deployment order.
pub fn plan_watch_functions(
    paths: &Vec<String>,
    relatives: &Vec<String>,
    components: &Vec<Vec<String>>,
    base: Option<u16>,
) -> (r: Result<Vec<(String, Option<u16>)>, InspectPortError>)
    requires
        relatives.len() == paths.len(),
        components.len() == paths.len(),
    ensures
        match (r, watch_plan(paths@, relatives@, components@, base, paths.len() as int)) {
            (Ok(v), Ok(p)) => v.len() == p.len() && forall|i: int| 0 <= i < v.len()
                ==> (#[trigger] v@[i]).0@ == p[i].0 && v@[i].1 == p[i].1,
            (Err(e), Err(f)) => e == f,
            _ => false,
        },
{
    let mut out: Vec<(String, Option<u16>)> = Vec::new();
    let mut index: u16 = 0;
    let mut i: usize = 0;
    while i < paths.len()
        invariant
            relatives.len() == paths.len(),
            components.len() == paths.len(),
            i <= paths.len(),
            watch_plan(paths@, relatives@, components@, base, i as int) matches Ok(p) && {
                &&& out.len() == p.len()
                &&& forall|j: int| 0 <= j < out.len() ==> (#[trigger] out@[j]).0@ == p[j].0 && out@[j].1 == p[j].1
                &&& base is Some ==> index == (if p.len() > u16::MAX { u16::MAX as int } else { p.len() as int })
            },
        decreases paths.len() - i,
    {
        let decision = is_watched_source(paths[i].as_str(), &components[i]);
        match decision {
            None => {
                proof {
                    lemma_plan_error_persists(paths@, relatives@, components@, base, i + 1, paths.len() as int);
                }
                return Err(InspectPortError::SourcePattern);
            },
            Some(false) => {
                proof {
                    assert(watch_plan(paths@, relatives@, components@, base, i + 1)
                        == watch_plan(paths@, relatives@, components@, base, i as int));
                }
            },
            Some(true) => {
                let name = path_to_function_name(relatives[i].as_str());
                match assign_inspect_port(base, index) {
                    Err(e) => {
                        proof {
                            lemma_plan_error_persists(paths@, relatives@, components@, base, i + 1, paths.len() as int);
                        }
                        return Err(e);
                    },
                    Ok((port, next)) => {
                        let ghost before = out@;
                        let ghost old_index = index;
                        out.push((name, port));
                        index = next;
                        proof {
                            let p = watch_plan(paths@, relatives@, components@, base, i as int)->Ok_0;
                            let p2 = watch_plan(paths@, relatives@, components@, base, i + 1)->Ok_0;
                            assert(watch_plan(paths@, relatives@, components@, base, i + 1) is Ok);
                            assert(p2 == p.push((function_name_for(relatives@[i as int]@), port)));
                            assert(out.len() == p2.len());

                            assert forall|j: int| 0 <= j < out.len() implies (#[trigger] out@[j]).0@ == p2[j].0 && out@[j].1 == p2[j].1 by {
                                if j < before.len() {
                                    assert(out@[j] == before[j]);
                                }
                            }
                        }
                    },
                }
            },
        }
        i = i + 1;
    }
    Ok(out)
}

} // verus!
