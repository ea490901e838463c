//! Isolate lifecycle decisions: the supervisor's restart policy, the proxy
//! environment handed to isolates, and how the inspector endpoint answers
//! a request.

use vstd::prelude::*;

use crate::metrics::FunctionMetrics;
use crate::text::{chars_of, equal_chars, join_on, join_with, slice_chars, string_of, views};
use crate::types::{
    copy_bytes, package_eszip_bytes, BundleFormat, BundlePackage, FunctionEntry, FunctionStatus, IsolateConfig,
    IsolateHandle, ManifestResources, PoolLimits,
};

verus! {

/// Restarts the supervisor attempts after panics before giving up.
pub const MAX_ISOLATE_RESTARTS: u32 = 5;

/// How one run of an isolate ended.
#[derive(Debug, Clone, Copy, PartialEq, Eq, Structural)]
pub enum IsolateOutcome {
    ExitedCleanly,
    ExitedWithError,
    Panicked,
}

/// What the supervisor does next.
#[derive(Debug, Clone, Copy, PartialEq, Eq, Structural)]
pub enum SupervisorAction {
    /// Leave the loop; the isolate is marked dead.
    Stop,
    /// Wait `backoff_secs`, then boot the isolate again as restart `attempt`.
    Restart { attempt: u32, backoff_secs: u64 },
}

/// The backoff before restart `attempt` (1-based): 2^(attempt-1) seconds,
/// at most 60.
pub open spec fn backoff_for(attempt: u32) -> u64 {
    if attempt <= 1 { 1 } else if attempt == 2 { 2 } else if attempt == 3 { 4 } else if attempt == 4 { 8 }
    else if attempt == 5 { 16 } else if attempt == 6 { 32 } else { 60 }
}

/// The supervisor's decision after a run ended, `restarts_so_far` restarts
/// in: clean exits and errors stop it; a panic restarts the isolate unless
/// shutdown is under way or the restart budget is spent.
pub open spec fn supervisor_step(restarts_so_far: u32, outcome: IsolateOutcome, shutting_down: bool) -> SupervisorAction {
    match outcome {
        IsolateOutcome::Panicked => if shutting_down || restarts_so_far >= MAX_ISOLATE_RESTARTS {
            SupervisorAction::Stop
        } else {
            SupervisorAction::Restart {
                attempt: (restarts_so_far + 1) as u32,
                backoff_secs: backoff_for((restarts_so_far + 1) as u32),
            }
        },
        _ => SupervisorAction::Stop,
    }
}

/// Decides what the supervisor does after a run of the isolate ended.
pub fn supervise(restarts_so_far: u32, outcome: IsolateOutcome, shutting_down: bool) -> (a: SupervisorAction)
    ensures
        a == supervisor_step(restarts_so_far, outcome, shutting_down),
{
    match outcome {
        IsolateOutcome::Panicked => {
            if shutting_down || restarts_so_far >= MAX_ISOLATE_RESTARTS {
                SupervisorAction::Stop
            } else {
                let attempt = restarts_so_far + 1;
                let shift = attempt - 1;
                let raw: u64 = 1u64 << shift;
                proof {
                    assert(shift < 5);
                    assert(shift == 0 ==> raw == 1) by (bit_vector)
                        requires raw == 1u64 << shift;
                    assert(shift == 1 ==> raw == 2) by (bit_vector)
                        requires raw == 1u64 << shift;
                    assert(shift == 2 ==> raw == 4) by (bit_vector)
                        requires raw == 1u64 << shift;
                    assert(shift == 3 ==> raw == 8) by (bit_vector)
                        requires raw == 1u64 << shift;
                    assert(shift == 4 ==> raw == 16) by (bit_vector)
                        requires raw == 1u64 << shift;
                }
                let backoff = if raw < 60 { raw } else { 60 };
                SupervisorAction::Restart { attempt, backoff_secs: backoff }
            }
        },
        _ => SupervisorAction::Stop,
    }
}

/// Starting from no restarts, the supervisor never goes past its budget:
/// every restart it orders is numbered 1 to `MAX_ISOLATE_RESTARTS`, one more
/// than the restarts before it, and waits at most a minute.
pub proof fn lemma_restarts_bounded(restarts_so_far: u32, outcome: IsolateOutcome, shutting_down: bool)
    requires
        restarts_so_far <= MAX_ISOLATE_RESTARTS,
    ensures
        supervisor_step(restarts_so_far, outcome, shutting_down) matches SupervisorAction::Restart { attempt, backoff_secs }
            ==> attempt == restarts_so_far + 1 && 1 <= attempt <= MAX_ISOLATE_RESTARTS && 1 <= backoff_secs <= 60,
        restarts_so_far == MAX_ISOLATE_RESTARTS ==> supervisor_step(restarts_so_far, outcome, shutting_down)
            == SupervisorAction::Stop,
{
}

/// A Unicode `White_Space` character, as `char::is_whitespace` reads it.
pub open spec fn is_unicode_ws(c: char) -> bool {
    c == '\t' || c == '\n' || c == '\u{0B}' || c == '\u{0C}' || c == '\r' || c == ' ' || c == '\u{85}'
        || c == '\u{A0}' || c == '\u{1680}' || ('\u{2000}' <= c && c <= '\u{200A}') || c == '\u{2028}'
        || c == '\u{2029}' || c == '\u{202F}' || c == '\u{205F}' || c == '\u{3000}'
}

fn is_ws(c: char) -> (r: bool)
    ensures
        r == is_unicode_ws(c),
{
    c == '\t' || c == '\n' || c == '\u{0B}' || c == '\u{0C}' || c == '\r' || c == ' ' || c == '\u{85}'
        || c == '\u{A0}' || c == '\u{1680}' || ('\u{2000}' <= c && c <= '\u{200A}') || c == '\u{2028}'
        || c == '\u{2029}' || c == '\u{202F}' || c == '\u{205F}' || c == '\u{3000}'
}

pub open spec fn trim_start(s: Seq<char>) -> Seq<char>
    decreases s.len(),
{
    if s.len() > 0 && is_unicode_ws(s[0]) { trim_start(s.skip(1)) } else { s }
}

pub open spec fn trim_end(s: Seq<char>) -> Seq<char>
    decreases s.len(),
{
    if s.len() > 0 && is_unicode_ws(s.last()) { trim_end(s.drop_last()) } else { s }
}

/// `s` without leading and trailing whitespace, as `str::trim` gives it.
pub open spec fn trimmed(s: Seq<char>) -> Seq<char> {
    trim_end(trim_start(s))
}

/// `str::trim`, on characters.
pub fn trim_chars(s: &Vec<char>) -> (r: Vec<char>)
    ensures
        r@ == trimmed(s@),
{
    let mut i: usize = 0;
    proof {
        assert(s@.skip(0) =~= s@);
    }
    while i < s.len() && is_ws(s[i])
        invariant
            i <= s.len(),
            trim_start(s@.skip(i as int)) == trim_start(s@),
        decreases s.len() - i,
    {
        proof {
            assert(s@.skip(i as int)[0] == s@[i as int]);
            assert(s@.skip(i as int).skip(1) =~= s@.skip(i + 1));
        }
        i = i + 1;
    }
    proof {
        if i < s.len() {
            assert(s@.skip(i as int)[0] == s@[i as int]);
        }
        assert(trim_start(s@) == s@.skip(i as int));
    }
    let mut j: usize = s.len();
    proof {
        assert(s@.subrange(i as int, j as int) =~= s@.skip(i as int));
    }
    while j > i && is_ws(s[j - 1])
        invariant
            i <= j <= s.len(),
            trim_end(s@.subrange(i as int, j as int)) == trim_end(s@.skip(i as int)),
            trim_start(s@) == s@.skip(i as int),
        decreases j,
    {
        proof {
            assert(s@.subrange(i as int, j as int).drop_last() =~= s@.subrange(i as int, j - 1));
        }
        j = j - 1;
    }
    let r = slice_chars(s, i, j);
    proof {
        if j > i {
            assert(s@.subrange(i as int, j as int).last() == s@[j - 1]);
        }
    }
    r
}

fn contains_piece(list: &Vec<Vec<char>>, x: &Vec<char>) -> (r: bool)
    ensures
        r == views(list@).contains(x@),
{
    let mut i: usize = 0;
    while i < list.len()
        invariant
            i <= list.len(),
            forall|k: int| 0 <= k < i ==> views(list@)[k] != x@,
        decreases list.len() - i,
    {
        if equal_chars(&list[i], x) {
            proof {
                assert(views(list@)[i as int] == x@);
            }
            return true;
        }
        i = i + 1;
    }
    false
}

/// The bypass list: entries trimmed, empty ones dropped, each kept once in
/// the order it first appears.
pub open spec fn merged_no_proxy(items: Seq<Seq<char>>) -> Seq<Seq<char>>
    decreases items.len(),
{
    if items.len() == 0 {
        Seq::empty()
    } else {
        let prev = merged_no_proxy(items.drop_last());
        let t = trimmed(items.last());
        if t.len() == 0 || prev.contains(t) { prev } else { prev.push(t) }
    }
}

pub open spec fn string_views(v: Seq<String>) -> Seq<Seq<char>> {
    v.map_values(|s: String| s@)
}

fn absorb_no_proxy(out: &mut Vec<Vec<char>>, items: &Vec<String>, Ghost(prefix): Ghost<Seq<Seq<char>>>)
    requires
        views(old(out)@) == merged_no_proxy(prefix),
    ensures
        views(final(out)@) == merged_no_proxy(prefix + string_views(items@)),
{
    let ghost all = prefix + string_views(items@);
    let mut k: usize = 0;
    proof {
        assert(all.take(prefix.len() as int) =~= prefix);
    }
    while k < items.len()
        invariant
            all == prefix + string_views(items@),
            k <= items.len(),
            views(out@) == merged_no_proxy(all.take(prefix.len() + k)),
        decreases items.len() - k,
    {
        let item = &items[k];
        proof {
            assert(all[prefix.len() + k] == item@);
            assert(all.take(prefix.len() + k + 1).drop_last() =~= all.take(prefix.len() + k));
            assert(all.take(prefix.len() + k + 1).last() == item@);
        }
        let t = trim_chars(&chars_of(item.as_str()));
        if t.len() > 0 && !contains_piece(out, &t) {
            let ghost before = out@;
            out.push(t);
            proof {
                assert(views(out@) =~= views(before).push(t@));
            }
        }
        k = k + 1;
    }
    proof {
        assert(all.take(prefix.len() + items.len()) =~= all);
    }
}

/// The `NO_PROXY` value for isolates: the HTTP, HTTPS and TCP bypass lists
/// merged (see `merged_no_proxy`) and joined by commas; `None` (the variable
/// is removed) when nothing is left.
pub fn merged_no_proxy_value(http: &Vec<String>, https: &Vec<String>, tcp: &Vec<String>) -> (r: Option<String>)
    ensures
        ({
            let m = merged_no_proxy(string_views(http@) + string_views(https@) + string_views(tcp@));
            &&& r is None <==> m.len() == 0
            &&& r matches Some(v) ==> v@ == join_with(m, ","@)
        }),
{
    let mut out: Vec<Vec<char>> = Vec::new();
    assert(views(out@) =~= merged_no_proxy(Seq::empty()));
    absorb_no_proxy(&mut out, http, Ghost(Seq::empty()));
    assert(Seq::<Seq<char>>::empty() + string_views(http@) =~= string_views(http@));
    absorb_no_proxy(&mut out, https, Ghost(string_views(http@)));
    absorb_no_proxy(&mut out, tcp, Ghost(string_views(http@) + string_views(https@)));
    if out.len() == 0 {
        None
    } else {
        proof {
            reveal_strlit(",");
        }
        Some(string_of(&join_on(&out, &chars_of(","))))
    }
}

/// What a proxy variable is set to: the value when it has non-whitespace
/// content; otherwise the variable is removed.
pub fn proxy_env_value(value: Option<&str>) -> (r: Option<String>)
    ensures
        match value {
            Some(v) => if trimmed(v@).len() > 0 { r matches Some(s) && s@ == v@ } else { r is None },
            None => r is None,
        },
{
    match value {
        Some(v) => {
            let t = trim_chars(&chars_of(v));
            if t.len() > 0 { Some(v.to_string()) } else { None }
        },
        None => None,
    }
}

/// What the inspector endpoint answers.
#[derive(Debug, Clone, Copy, PartialEq, Eq, Structural)]
pub enum InspectorRoute {
    /// Hand the connection to a debugger session.
    WebSocket,
    /// The target list (`/json`, `/json/list`).
    TargetList,
    /// The version record (`/json/version`).
    Version,
    /// 404.
    NotFound,
}

/// The answer to a request for `path`, `is_upgrade` when it asks for a
/// WebSocket upgrade, on an inspector whose session path is `ws_path`:
/// upgrades on the session path or `/ws` open a session; `/json`,
/// `/json/list` and `/json/version` are served; anything else is 404.
pub open spec fn inspector_route_for(path: Seq<char>, is_upgrade: bool, ws_path: Seq<char>) -> InspectorRoute {
    if is_upgrade && (path == ws_path || path == "/ws"@) {
        InspectorRoute::WebSocket
    } else if path == "/json"@ || path == "/json/list"@ {
        InspectorRoute::TargetList
    } else if path == "/json/version"@ {
        InspectorRoute::Version
    } else {
        InspectorRoute::NotFound
    }
}

/// Routes one inspector request.
pub fn inspector_route(path: &str, is_upgrade: bool, ws_path: &str) -> (r: InspectorRoute)
    ensures
        r == inspector_route_for(path@, is_upgrade, ws_path@),
{
    let p = path.to_string();
    if is_upgrade && (p == ws_path.to_string() || p == "/ws".to_string()) {
        InspectorRoute::WebSocket
    } else if p == "/json".to_string() || p == "/json/list".to_string() {
        InspectorRoute::TargetList
    } else if p == "/json/version".to_string() {
        InspectorRoute::Version
    } else {
        InspectorRoute::NotFound
    }
}

/// The error a function deployment fails with when its bytes are not a
/// bundle package; `detail` is what the decoder reported.
pub fn bundle_decode_error(detail: &str) -> (m: String)
    ensures
        m@ == "failed to deserialize bundle package: "@ + detail@,
{
    proof {
        reveal_strlit("");
    }
    let m = crate::text::concat3("failed to deserialize bundle package: ", detail, "");
    m
}

/// The snapshot payload an isolate boots from: the bundle itself for a
/// snapshot-flavor package, none for an eszip one.
pub fn snapshot_payload(package: &BundlePackage) -> (r: Option<Vec<u8>>)
    ensures
        package.format == BundleFormat::Snapshot ==> (r matches Some(b) && b@ == package.bundle@),
        package.format == BundleFormat::Eszip ==> r is None,
{
    match package.format {
        BundleFormat::Snapshot => Some(copy_bytes(&package.bundle)),
        BundleFormat::Eszip => None,
    }
}

/// The entry of a freshly booted function: its eszip bytes kept for
/// replicas and reloads (see `package_eszip_bytes`), the package's format
/// and V8 version, the new isolate as primary, single-isolate limits,
/// running, zeroed metrics, created and updated at `now_ms`, no error, and
/// an inspector stop flag exactly when the configuration has an inspector
/// port.
pub fn new_function_entry(
    name: String,
    package: &BundlePackage,
    config: IsolateConfig,
    manifest_resources: Option<ManifestResources>,
    primary: IsolateHandle,
    now_ms: i64,
) -> (e: FunctionEntry)
    ensures
        e.name == name,
        e.eszip_bytes@ == package_eszip_bytes(*package),
        e.bundle_format == package.format,
        e.package_v8_version@ == package.v8_version@,
        e.isolate_handle == Some(primary),
        e.extra_isolate_handles@.len() == 0,
        e.pool_limits == (PoolLimits { min: 1, max: 1 }),
        e.next_handle_index == 0,
        e.inspector_stop == config.inspect_port.is_some(),
        e.status == FunctionStatus::Running,
        e.config == config,
        e.manifest_resources == manifest_resources,
        e.metrics.total_requests == 0 && e.metrics.active_requests == 0 && e.metrics.total_errors == 0,
        e.created_at_ms == now_ms,
        e.updated_at_ms == now_ms,
        e.last_error is None,
{
    let inspector = config.inspect_port.is_some();
    FunctionEntry {
        name,
        eszip_bytes: package.eszip_bytes(),
        bundle_format: package.format,
        package_v8_version: package.v8_version.clone(),
        isolate_handle: Some(primary),
        extra_isolate_handles: Vec::new(),
        pool_limits: PoolLimits { min: 1, max: 1 },
        next_handle_index: 0,
        inspector_stop: inspector,
        status: FunctionStatus::Running,
        config,
        manifest_resources,
        metrics: FunctionMetrics::default(),
        created_at_ms: now_ms,
        updated_at_ms: now_ms,
        last_error: None,
    }
}

/// What tearing a function down does, in order: raise the inspector's stop
/// flag (releasing its port at once), then cancel the primary isolate and
/// give it time to drain.
#[derive(Debug, Clone, Copy, PartialEq, Eq, Structural)]
pub struct TeardownSteps {
    /// Raise the inspector listener's stop flag.
    pub stop_inspector: bool,
    /// Cancel the isolate with this id.
    pub cancel_isolate: Option<u128>,
    /// Milliseconds to wait after the cancellation.
    pub drain_ms: u64,
}

/// How long a cancelled primary isolate is given to drain, in milliseconds.
pub const TEARDOWN_DRAIN_MS: u64 = 500;

/// The steps that tear `entry` down: the inspector is stopped when the
/// function has one; the primary isolate, when there is one, is cancelled
/// and given `TEARDOWN_DRAIN_MS` to drain.
pub fn destroy_function(entry: &FunctionEntry) -> (s: TeardownSteps)
    ensures
        s.stop_inspector == entry.inspector_stop,
        s.cancel_isolate == (match entry.isolate_handle {
            Some(h) => Some(h.id),
            None => None::<u128>,
        }),
        s.drain_ms == (if entry.isolate_handle is Some { TEARDOWN_DRAIN_MS } else { 0 }),
{
    match &entry.isolate_handle {
        Some(h) => TeardownSteps { stop_inspector: entry.inspector_stop, cancel_isolate: Some(h.id), drain_ms: TEARDOWN_DRAIN_MS },
        None => TeardownSteps { stop_inspector: entry.inspector_stop, cancel_isolate: None, drain_ms: 0 },
    }
}

} // verus!
