//! The registry of deployed functions: which functions exist, the isolates
//! each one runs on, round-robin routing across them, pool limits and
//! least-recently-used replica eviction.
//!
//! Booting and destroying isolates is the caller's work; the registry keeps
//! the bookkeeping and offers the steps taken before and after it (deploy,
//! update, pool resize, shutdown). Each function entry and the
//! last-use tick of each isolate live in `dashmap::DashMap`s, reached only
//! through the small trusted wrappers below.

use vstd::prelude::*;
use dashmap::DashMap;

use crate::memory::{available_memory_bytes, MemoryReading};
use crate::text::concat3;
use crate::types::{
    capped_pool_size, describes, pool_size, same_config, FunctionEntry, FunctionInfo, FunctionStatus, IsolateConfig,
    IsolateHandle, ManifestResources, PoolLimits, PoolRuntimeConfig,
};

verus! {

/// The map that holds the deployed functions, by name.
pub type FunctionTable = DashMap<String, FunctionEntry>;

/// What a function table holds: function name (as characters) to its entry.
pub uninterp spec fn function_table(m: FunctionTable) -> Map<Seq<char>, FunctionEntry>;

/// `DashMap::new`: no function.
#[verifier::external_body]
fn functions_new() -> (t: FunctionTable)
    ensures
        function_table(t).dom().is_empty(),
{
    DashMap::new()
}

/// `DashMap::contains_key`.
#[verifier::external_body]
fn functions_contains(m: &FunctionTable, name: &str) -> (r: bool)
    ensures
        r == function_table(*m).contains_key(name@),
{
    m.contains_key(name)
}

/// `DashMap::remove`: the entry stored under `name`, moved out, if any.
#[verifier::external_body]
fn functions_take(m: &mut FunctionTable, name: &str) -> (r: Option<FunctionEntry>)
    ensures
        function_table(*final(m)) == function_table(*old(m)).remove(name@),
        r == (if function_table(*old(m)).contains_key(name@) {
            Some(function_table(*old(m))[name@])
        } else {
            None::<FunctionEntry>
        }),
{
    m.remove(name).map(|(_, entry)| entry)
}

/// `DashMap::insert`: stores `entry` under `name`, replacing any old one.
#[verifier::external_body]
fn functions_put(m: &mut FunctionTable, name: String, entry: FunctionEntry)
    ensures
        function_table(*final(m)) == function_table(*old(m)).insert(name@, entry),
{
    m.insert(name, entry);
}

/// `DashMap::len`.
#[verifier::external_body]
fn functions_len(m: &FunctionTable) -> (n: usize)
    ensures
        n == function_table(*m).dom().len(),
{
    m.len()
}

/// `DashMap::iter`, keys only: every name once, in no stated order.
#[verifier::external_body]
fn functions_names(m: &FunctionTable) -> (r: Vec<String>)
    ensures
        forall|i: int| 0 <= i < r.len() ==> #[trigger] function_table(*m).contains_key(r@[i]@),
        forall|i: int, j: int| 0 <= i < j < r.len() ==> r@[i]@ != r@[j]@,
        forall|k: Seq<char>| #[trigger] function_table(*m).contains_key(k) ==> exists|i: int| 0 <= i < r.len() && r@[i]@ == k,
{
    m.iter().map(|entry| entry.key().clone()).collect()
}

/// `DashMap::get`, the entry's pool limits.
#[verifier::external_body]
fn functions_pool_limits(m: &FunctionTable, name: &str) -> (r: Option<PoolLimits>)
    ensures
        r == (if function_table(*m).contains_key(name@) {
            Some(function_table(*m)[name@].pool_limits)
        } else {
            None::<PoolLimits>
        }),
{
    m.get(name).map(|entry| entry.pool_limits)
}


/// `DashMap::clear`.
#[verifier::external_body]
fn functions_clear(m: &mut FunctionTable)
    ensures
        function_table(*final(m)).dom().is_empty(),
{
    m.clear();
}

/// The map that holds each isolate's last-use tick, by isolate id.
pub type UsageTable = DashMap<u128, u64>;

/// What a usage table holds: isolate id to the tick it was last used at.
pub uninterp spec fn usage_table(m: UsageTable) -> Map<u128, u64>;

/// `DashMap::new`.
#[verifier::external_body]
fn usage_new() -> (t: UsageTable)
    ensures
        usage_table(t).dom().is_empty(),
{
    DashMap::new()
}

/// `DashMap::get`, copied out.
#[verifier::external_body]
fn usage_get(m: &UsageTable, id: u128) -> (r: Option<u64>)
    ensures
        r == (if usage_table(*m).contains_key(id) { Some(usage_table(*m)[id]) } else { None::<u64> }),
{
    m.get(&id).map(|v| *v)
}

/// `DashMap::insert`.
#[verifier::external_body]
fn usage_insert(m: &mut UsageTable, id: u128, tick: u64)
    ensures
        usage_table(*final(m)) == usage_table(*old(m)).insert(id, tick),
{
    m.insert(id, tick);
}

/// `DashMap::remove`.
#[verifier::external_body]
fn usage_remove(m: &mut UsageTable, id: u128)
    ensures
        usage_table(*final(m)) == usage_table(*old(m)).remove(id),
{
    m.remove(&id);
}

/// `DashMap::clear`.
#[verifier::external_body]
fn usage_clear(m: &mut UsageTable)
    ensures
        usage_table(*final(m)).dom().is_empty(),
{
    m.clear();
}


/// `chrono::Utc::now()` as Unix milliseconds. It reads the clock, so
/// nothing is promised of the value.
#[verifier::external_body]
fn now_unix_ms() -> (r: i64)
{
    chrono::Utc::now().timestamp_millis()
}

/// Why a registry operation was refused.
#[derive(Debug, Clone, PartialEq, Eq)]
pub enum RegistryError {
    AlreadyExists(String),
    NotFound(String),
    InvalidPoolLimits,
}

pub open spec fn registry_error_text(e: RegistryError) -> Seq<char> {
    match e {
        RegistryError::AlreadyExists(n) => "function '"@ + n@ + "' already exists, use PUT to update"@,
        RegistryError::NotFound(n) => "function '"@ + n@ + "' not found"@,
        RegistryError::InvalidPoolLimits => "invalid pool limits: min must be <= max"@,
    }
}

impl RegistryError {
    /// The message the operation fails with.
    pub fn message(&self) -> (m: String)
        ensures
            m@ == registry_error_text(*self),
    {
        match self {
            RegistryError::AlreadyExists(n) => concat3("function '", n.as_str(), "' already exists, use PUT to update"),
            RegistryError::NotFound(n) => concat3("function '", n.as_str(), "' not found"),
            RegistryError::InvalidPoolLimits => "invalid pool limits: min must be <= max".to_string(),
        }
    }
}

/// The message a function whose isolates all died is left with.
pub open spec fn dead_isolate_message() -> Seq<char> {
    "isolate terminated unexpectedly (panic or resource limit)"@
}

/// The live handles of `hs`, in order.
pub open spec fn alive_only(hs: Seq<IsolateHandle>) -> Seq<IsolateHandle>
    decreases hs.len(),
{
    if hs.len() == 0 {
        hs
    } else if hs.last().alive {
        alive_only(hs.drop_last()).push(hs.last())
    } else {
        alive_only(hs.drop_last())
    }
}

/// The ids of the dead handles of `hs`, in order.
pub open spec fn dead_ids(hs: Seq<IsolateHandle>) -> Seq<u128>
    decreases hs.len(),
{
    if hs.len() == 0 {
        Seq::empty()
    } else if hs.last().alive {
        dead_ids(hs.drop_last())
    } else {
        dead_ids(hs.drop_last()).push(hs.last().id)
    }
}

pub open spec fn primary_alive(e: FunctionEntry) -> bool {
    e.isolate_handle matches Some(h) && h.alive
}

/// The isolates of `e` that are still alive.
pub open spec fn live_count(e: FunctionEntry) -> int {
    alive_only(e.extra_isolate_handles@).len() + (if primary_alive(e) { 1int } else { 0int })
}

/// The ids `reconcile_entry_status` drops from `e`: its dead replicas. A
/// dead primary is kept, so that it serves again once it is alive.
pub open spec fn removed_ids(e: FunctionEntry) -> Seq<u128> {
    dead_ids(e.extra_isolate_handles@)
}

/// The status `e` has once its dead isolates are dropped: running with none
/// alive becomes error; error with one alive becomes running again.
pub open spec fn status_after_reconcile(e: FunctionEntry) -> FunctionStatus {
    if live_count(e) == 0 && e.status == FunctionStatus::Running {
        FunctionStatus::Error
    } else if live_count(e) > 0 && e.status == FunctionStatus::Error {
        FunctionStatus::Running
    } else {
        e.status
    }
}

/// `new` is `old` with its dead replicas dropped and its status
/// reconciled at time `now` (see `status_after_reconcile`); everything else
/// is kept, the primary (alive or not) and the round-robin cursor included.
pub open spec fn is_reconciled(old: FunctionEntry, new: FunctionEntry, now: i64) -> bool {
    &&& new.extra_isolate_handles@ == alive_only(old.extra_isolate_handles@)
    &&& new.isolate_handle == old.isolate_handle
    &&& new.status == status_after_reconcile(old)
    &&& new.updated_at_ms == (if new.status != old.status { now } else { old.updated_at_ms })
    &&& (if new.status != old.status && new.status == FunctionStatus::Error && old.last_error is None {
        new.last_error matches Some(m) && m@ == dead_isolate_message()
    } else {
        new.last_error == old.last_error
    })
    &&& new.name == old.name
    &&& new.eszip_bytes == old.eszip_bytes
    &&& new.bundle_format == old.bundle_format
    &&& new.package_v8_version == old.package_v8_version
    &&& new.pool_limits == old.pool_limits
    &&& new.next_handle_index == old.next_handle_index
    &&& new.inspector_stop == old.inspector_stop
    &&& new.config == old.config
    &&& new.manifest_resources == old.manifest_resources
    &&& new.metrics == old.metrics
    &&& new.created_at_ms == old.created_at_ms
}

/// Drops the dead replicas of `entry` and reconciles its status at time
/// `now_ms`; returns the ids dropped.
pub fn reconcile_entry_status(entry: &mut FunctionEntry, now_ms: i64) -> (removed: Vec<u128>)
    ensures
        is_reconciled(*old(entry), *final(entry), now_ms),
        removed@ == removed_ids(*old(entry)),
{
    let ghost start = *entry;
    let mut removed: Vec<u128> = Vec::new();
    let mut alive: Vec<IsolateHandle> = Vec::new();
    let mut i: usize = 0;
    proof {
        assert(start.extra_isolate_handles@.take(0) =~= Seq::<IsolateHandle>::empty());
    }
    while i < entry.extra_isolate_handles.len()
        invariant
            *entry == start,
            i <= entry.extra_isolate_handles.len(),
            alive@ == alive_only(start.extra_isolate_handles@.take(i as int)),
            removed@ == dead_ids(start.extra_isolate_handles@.take(i as int)),
        decreases entry.extra_isolate_handles.len() - i,
    {
        let h = entry.extra_isolate_handles[i];
        proof {
            let hs = start.extra_isolate_handles@;
            assert(hs.take(i + 1).drop_last() =~= hs.take(i as int));
            assert(hs.take(i + 1).last() == h);
        }
        if h.alive {
            alive.push(h);
        } else {
            removed.push(h.id);
        }
        i = i + 1;
    }
    proof {
        assert(start.extra_isolate_handles@.take(i as int) =~= start.extra_isolate_handles@);
    }
    entry.extra_isolate_handles = alive;
    let mut any_alive = entry.extra_isolate_handles.len() > 0;
    match entry.isolate_handle {
        Some(h) => {
            if h.alive {
                any_alive = true;
            }
        },
        None => {},
    }
    proof {
        assert(removed@ =~= removed_ids(start));
    }
    let is_dead = !any_alive;
    if is_dead && entry.status == FunctionStatus::Running {
        entry.status = FunctionStatus::Error;
        entry.updated_at_ms = now_ms;
        if entry.last_error.is_none() {
            entry.last_error = Some("isolate terminated unexpectedly (panic or resource limit)".to_string());
        }
    } else if !is_dead && entry.status == FunctionStatus::Error {
        entry.status = FunctionStatus::Running;
        entry.updated_at_ms = now_ms;
    }
    removed
}

/// The isolates a request for `e` may go to, in turn: the primary when it
/// is alive, then the replicas.
pub open spec fn live_handles(e: FunctionEntry) -> Seq<IsolateHandle> {
    (if primary_alive(e) { seq![e.isolate_handle->0] } else { Seq::empty() }) + e.extra_isolate_handles@
}

/// Every isolate of `e`, alive or not: the primary, then the replicas.
pub open spec fn routable(e: FunctionEntry) -> Seq<IsolateHandle> {
    (match e.isolate_handle {
        Some(h) => seq![h],
        None => Seq::empty(),
    }) + e.extra_isolate_handles@
}

/// The tick a use is recorded at when the clock reads `c` (saturating).
pub open spec fn tick_after(c: u64) -> u64 {
    if c == u64::MAX { u64::MAX } else { (c + 1) as u64 }
}

/// The clock after one tick (wrapping, as an atomic `fetch_add` does).
pub open spec fn clock_after(c: u64) -> u64 {
    if c == u64::MAX { 0 } else { (c + 1) as u64 }
}

/// `info` describes one of the deployed functions.
pub open spec fn listed(entries: Map<Seq<char>, FunctionEntry>, info: FunctionInfo, runtime_v8: Seq<char>) -> bool {
    exists|key: Seq<char>| entries.contains_key(key) && #[trigger] describes(info, entries[key], runtime_v8)
}

/// The names, as characters.
pub open spec fn name_views(v: Seq<String>) -> Seq<Seq<char>> {
    v.map_values(|s: String| s@)
}

/// The ids of the isolates of `e`, primary first.
pub open spec fn entry_ids(e: FunctionEntry) -> Seq<u128> {
    routable(e).map_values(|h: IsolateHandle| h.id)
}

/// The ids of the isolates of `e`, primary first.
pub fn handle_ids(e: &FunctionEntry) -> (ids: Vec<u128>)
    ensures
        ids@ == entry_ids(*e),
{
    let mut ids: Vec<u128> = Vec::new();
    match e.isolate_handle {
        Some(h) => ids.push(h.id),
        None => {},
    }
    let ghost base = ids@;
    let mut i: usize = 0;
    while i < e.extra_isolate_handles.len()
        invariant
            i <= e.extra_isolate_handles.len(),
            ids@ == base + e.extra_isolate_handles@.take(i as int).map_values(|h: IsolateHandle| h.id),
        decreases e.extra_isolate_handles.len() - i,
    {
        ids.push(e.extra_isolate_handles[i].id);
        proof {
            assert(e.extra_isolate_handles@.take(i + 1).map_values(|h: IsolateHandle| h.id)
                =~= e.extra_isolate_handles@.take(i as int).map_values(|h: IsolateHandle| h.id).push(e.extra_isolate_handles@[i as int].id));
        }
        i = i + 1;
    }
    proof {
        assert(e.extra_isolate_handles@.take(i as int) =~= e.extra_isolate_handles@);
        assert(ids@ =~= entry_ids(*e));
    }
    ids
}

/// A function may give up a replica: it holds more isolates than its
/// minimum.
pub open spec fn can_shrink(e: FunctionEntry) -> bool {
    pool_size(e) > e.pool_limits.min
}

/// The last-use tick of isolate `id` (0 when never used).
pub open spec fn tick_of(usage: Map<u128, u64>, id: u128) -> u64 {
    if usage.contains_key(id) { usage[id] } else { 0 }
}

/// `b` is `a` with replica `i` removed.
pub open spec fn without_replica(a: FunctionEntry, b: FunctionEntry, i: int) -> bool {
    &&& 0 <= i < a.extra_isolate_handles@.len()
    &&& b == (FunctionEntry { extra_isolate_handles: b.extra_isolate_handles, ..a })
    &&& b.extra_isolate_handles@ == a.extra_isolate_handles@.remove(i)
}

/// Replica `i` of function `n` is a least-recently-used replica among the
/// functions that may shrink, and it is not pinned at the maximum tick.
pub open spec fn is_lru_replica(entries: Map<Seq<char>, FunctionEntry>, usage: Map<u128, u64>, n: Seq<char>, i: int) -> bool {
    &&& entries.contains_key(n)
    &&& can_shrink(entries[n])
    &&& 0 <= i < entries[n].extra_isolate_handles@.len()
    &&& tick_of(usage, entries[n].extra_isolate_handles@[i].id) < u64::MAX
    &&& forall|m: Seq<char>, j: int| #![trigger entries[m].extra_isolate_handles@[j]]
        entries.contains_key(m) && can_shrink(entries[m]) && 0 <= j < entries[m].extra_isolate_handles@.len()
        ==> tick_of(usage, entries[m].extra_isolate_handles@[j].id) >= tick_of(usage, entries[n].extra_isolate_handles@[i].id)
}

/// No replica may be evicted: every replica of a function that may shrink
/// carries the maximum tick (or there is none).
pub open spec fn nothing_evictable(entries: Map<Seq<char>, FunctionEntry>, usage: Map<u128, u64>) -> bool {
    forall|m: Seq<char>, j: int| #![trigger entries[m].extra_isolate_handles@[j]]
        entries.contains_key(m) && can_shrink(entries[m]) && 0 <= j < entries[m].extra_isolate_handles@.len()
        ==> tick_of(usage, entries[m].extra_isolate_handles@[j].id) == u64::MAX
}

fn shrinkable(e: &FunctionEntry) -> (r: bool)
    ensures
        r == can_shrink(*e),
{
    if e.isolate_handle.is_some() {
        e.extra_isolate_handles.len() >= e.pool_limits.min
    } else {
        e.extra_isolate_handles.len() > e.pool_limits.min
    }
}

/// The isolates of the functions named in `ns`, in total (each count as a
/// `usize` holds it).
pub open spec fn sum_pool(entries: Map<Seq<char>, FunctionEntry>, ns: Seq<Seq<char>>) -> int
    decreases ns.len(),
{
    if ns.len() == 0 { 0 } else { sum_pool(entries, ns.drop_last()) + capped_pool_size(entries[ns.last()]) }
}

/// `ns` lists every deployed function once.
pub open spec fn enumerates(entries: Map<Seq<char>, FunctionEntry>, ns: Seq<Seq<char>>) -> bool {
    &&& ns.no_duplicates()
    &&& forall|i: int| 0 <= i < ns.len() ==> #[trigger] entries.contains_key(ns[i])
    &&& forall|k: Seq<char>| #[trigger] entries.contains_key(k) ==> ns.contains(k)
}

/// `n` is the number of isolates the registry runs (saturating at
/// `usize::MAX`).
pub open spec fn total_is(entries: Map<Seq<char>, FunctionEntry>, n: int) -> bool {
    exists|ns: Seq<Seq<char>>| enumerates(entries, ns)
        && n == (if sum_pool(entries, ns) > usize::MAX { usize::MAX as int } else { sum_pool(entries, ns) })
}

/// Whether `available_bytes` of free memory leave at least `min_free_mib`
/// MiB (whole MiB counted).
pub open spec fn enough_memory(available_bytes: u64, min_free_mib: u64) -> bool {
    available_bytes / 1048576 >= min_free_mib
}

/// Whether a memory reading allows another replica: an unreadable system
/// blocks scaling.
pub open spec fn memory_permits(available_bytes: Option<u64>, min_free_mib: u64) -> bool {
    available_bytes matches Some(b) && enough_memory(b, min_free_mib)
}

/// A reading admits another replica exactly when it found at least
/// `min_free_mib` MiB, that is `min_free_mib * 2^20` bytes or more; a failed
/// reading never admits one, and more free memory never admits less.
pub proof fn lemma_memory_permits_exactly(reading: Option<u64>, min_free_mib: u64, more: u64)
    ensures
        memory_permits(reading, min_free_mib) <==> (reading matches Some(b) && b >= min_free_mib * 1048576),
        reading is None ==> !memory_permits(reading, min_free_mib),
        (reading matches Some(b) && more >= b && memory_permits(reading, min_free_mib))
            ==> memory_permits(Some(more), min_free_mib),
{
    if let Some(b) = reading {
        assert((b / 1048576 >= min_free_mib) <==> (b >= min_free_mib * 1048576)) by (nonlinear_arith);
        assert((more / 1048576 >= min_free_mib) <==> (more >= min_free_mib * 1048576)) by (nonlinear_arith);
    }
}

/// Whether the memory reading allows another replica: an unreadable system
/// blocks scaling.
pub fn memory_allows_replica(available_bytes: Option<u64>, min_free_mib: u64) -> (r: bool)
    ensures
        r == (available_bytes matches Some(b) && enough_memory(b, min_free_mib)),
{
    match available_bytes {
        Some(b) => b / (1024 * 1024) >= min_free_mib,
        None => false,
    }
}

/// What `apply_manifest_resources` makes of `c` with the manifest resources
/// `m`, if any: the heap limit in MiB (as bytes, saturating), the CPU time
/// and the wall-clock timeout each replaced where the manifest sets them.
pub open spec fn with_manifest(c: IsolateConfig, m: Option<ManifestResources>) -> IsolateConfig {
    match m {
        None => c,
        Some(r) => IsolateConfig {
            max_heap_size_bytes: match r.max_heap_mi_b {
                Some(mb) => if (mb as usize) * 1048576 > usize::MAX { usize::MAX } else { ((mb as usize) * 1048576) as usize },
                None => c.max_heap_size_bytes,
            },
            cpu_time_limit_ms: match r.cpu_time_ms { Some(v) => v, None => c.cpu_time_limit_ms },
            wall_clock_timeout_ms: match r.wall_clock_timeout_ms { Some(v) => v, None => c.wall_clock_timeout_ms },
            ..c
        },
    }
}

/// The given configuration, or `d`.
pub open spec fn given_or(given: Option<IsolateConfig>, d: IsolateConfig) -> IsolateConfig {
    match given { Some(c) => c, None => d }
}

/// The configuration of the entry, or `d` when there is none.
pub open spec fn entry_config_or(e: Option<FunctionEntry>, d: IsolateConfig) -> IsolateConfig {
    match e { Some(x) => x.config, None => d }
}

proof fn lemma_with_manifest_same(a: IsolateConfig, b: IsolateConfig, m: Option<ManifestResources>)
    requires
        same_config(a, b),
    ensures
        same_config(with_manifest(a, m), with_manifest(b, m)),
{
}

/// `config` with the manifest's resource overrides applied: the heap limit
/// in MiB (as bytes, saturating), the CPU time and the wall-clock timeout.
pub fn apply_manifest_resources(config: &mut IsolateConfig, resources: &ManifestResources)
    ensures
        final(config).max_heap_size_bytes == (match resources.max_heap_mi_b {
            Some(m) => if (m as usize) * 1048576 > usize::MAX { usize::MAX as int } else { (m as usize) * 1048576 },
            None => old(config).max_heap_size_bytes as int,
        }),
        final(config).cpu_time_limit_ms == (match resources.cpu_time_ms { Some(c) => c, None => old(config).cpu_time_limit_ms }),
        final(config).wall_clock_timeout_ms == (match resources.wall_clock_timeout_ms {
            Some(w) => w,
            None => old(config).wall_clock_timeout_ms,
        }),
        *final(config) == (IsolateConfig {
            max_heap_size_bytes: final(config).max_heap_size_bytes,
            cpu_time_limit_ms: final(config).cpu_time_limit_ms,
            wall_clock_timeout_ms: final(config).wall_clock_timeout_ms,
            ..*old(config)
        }),
        *final(config) == with_manifest(*old(config), Some(*resources)),
{
    if let Some(mib) = resources.max_heap_mi_b {
        let m: usize = mib as usize;
        let bytes: usize = if m > usize::MAX / 1048576 { usize::MAX } else { m * 1048576 };
        proof {
            if m > usize::MAX / 1048576 {
                assert(m * 1048576 > usize::MAX) by (nonlinear_arith) requires m > usize::MAX / 1048576;
            }
        }
        config.max_heap_size_bytes = bytes;
    }
    if let Some(cpu) = resources.cpu_time_ms {
        config.cpu_time_limit_ms = cpu;
    }
    if let Some(wall) = resources.wall_clock_timeout_ms {
        config.wall_clock_timeout_ms = wall;
    }
}

proof fn lemma_sum_pool_nonneg(entries: Map<Seq<char>, FunctionEntry>, ns: Seq<Seq<char>>)
    ensures
        sum_pool(entries, ns) >= 0,
    decreases ns.len(),
{
    if ns.len() > 0 {
        lemma_sum_pool_nonneg(entries, ns.drop_last());
    }
}

proof fn lemma_alive_only_all_alive(hs: Seq<IsolateHandle>)
    ensures
        forall|i: int| 0 <= i < alive_only(hs).len() ==> #[trigger] alive_only(hs)[i].alive,
    decreases hs.len(),
{
    if hs.len() > 0 {
        lemma_alive_only_all_alive(hs.drop_last());
        let prev = alive_only(hs.drop_last());
        if hs.last().alive {
            assert(alive_only(hs) == prev.push(hs.last()));
            assert forall|i: int| 0 <= i < alive_only(hs).len() implies #[trigger] alive_only(hs)[i].alive by {
                if i < prev.len() {
                    assert(alive_only(hs)[i] == prev[i]);
                }
            }
        }
    }
}

/// A function left running after its dead replicas are dropped always has
/// an isolate to route to, and every isolate it routes to is alive.
pub proof fn lemma_running_entry_is_routable(e: FunctionEntry, e2: FunctionEntry, now_ms: i64)
    requires
        is_reconciled(e, e2, now_ms),
        e2.status == FunctionStatus::Running,
    ensures
        live_handles(e2).len() > 0,
        forall|i: int| 0 <= i < live_handles(e2).len() ==> #[trigger] live_handles(e2)[i].alive,
{
    lemma_alive_only_all_alive(e.extra_isolate_handles@);
    assert(live_count(e) > 0);
    let head = if primary_alive(e2) { seq![e2.isolate_handle->0] } else { Seq::<IsolateHandle>::empty() };
    assert(live_handles(e2) == head + e2.extra_isolate_handles@);
    assert(primary_alive(e2) == primary_alive(e));
    assert(live_handles(e2).len() == live_count(e));
    assert forall|i: int| 0 <= i < live_handles(e2).len() implies #[trigger] live_handles(e2)[i].alive by {
        if i >= head.len() {
            assert(live_handles(e2)[i] == e2.extra_isolate_handles@[i - head.len()]);
        }
    }
}

/// The isolates of `e` that are alive, in routing order: the primary, then
/// the replicas.
pub open spec fn serving(e: FunctionEntry) -> Seq<IsolateHandle> {
    (if primary_alive(e) { seq![e.isolate_handle->0] } else { Seq::empty() }) + alive_only(e.extra_isolate_handles@)
}

/// The isolate a request for `e` goes to: none unless the function is
/// running once its dead isolates are dropped; otherwise its live isolates
/// take turns from the round-robin cursor.
pub open spec fn picked(e: FunctionEntry) -> Option<IsolateHandle> {
    let hs = serving(e);
    if status_after_reconcile(e) != FunctionStatus::Running || hs.len() == 0 {
        None
    } else {
        Some(hs[((e.next_handle_index as usize) as int) % (hs.len() as int)])
    }
}

proof fn lemma_sum_pool_remove(e: Map<Seq<char>, FunctionEntry>, s: Seq<Seq<char>>, j: int)
    requires
        0 <= j < s.len(),
    ensures
        sum_pool(e, s) == sum_pool(e, s.remove(j)) + capped_pool_size(e[s[j]]),
    decreases s.len(),
{
    if j == s.len() - 1 {
        assert(s.remove(j) =~= s.drop_last());
    } else {
        lemma_sum_pool_remove(e, s.drop_last(), j);
        assert(s.remove(j).drop_last() =~= s.drop_last().remove(j));
        assert(s.remove(j).last() == s.last());
    }
}

proof fn lemma_sum_pool_same_set(e: Map<Seq<char>, FunctionEntry>, ns: Seq<Seq<char>>, ms: Seq<Seq<char>>)
    requires
        ns.no_duplicates(),
        ms.no_duplicates(),
        ns.to_set() == ms.to_set(),
    ensures
        sum_pool(e, ns) == sum_pool(e, ms),
    decreases ns.len(),
{
    if ns.len() == 0 {
        if ms.len() > 0 {
            assert(ms.to_set().contains(ms[0]));
        }
    } else {
        let x = ns.last();
        assert(ns.to_set().contains(x));
        assert(ms.to_set().contains(x));
        let j = choose|j: int| 0 <= j < ms.len() && ms[j] == x;
        lemma_sum_pool_remove(e, ms, j);
        let ms2 = ms.remove(j);
        let ns2 = ns.drop_last();
        assert(ms2.no_duplicates()) by {
            assert forall|a: int, b: int| 0 <= a < ms2.len() && 0 <= b < ms2.len() && a != b implies ms2[a] != ms2[b] by {
                let a2 = if a < j { a } else { a + 1 };
                let b2 = if b < j { b } else { b + 1 };
                assert(ms2[a] == ms[a2] && ms2[b] == ms[b2]);
            }
        }
        assert(ns2.no_duplicates()) by {
            assert forall|a: int, b: int| 0 <= a < ns2.len() && 0 <= b < ns2.len() && a != b implies ns2[a] != ns2[b] by {
                assert(ns2[a] == ns[a] && ns2[b] == ns[b]);
            }
        }
        assert(ns2.to_set() =~= ms2.to_set()) by {
            assert forall|k: Seq<char>| ns2.to_set().contains(k) <==> ms2.to_set().contains(k) by {
                if ns2.to_set().contains(k) {
                    let a = choose|a: int| 0 <= a < ns2.len() && ns2[a] == k;
                    assert(ns[a] == k);
                    assert(k != x) by { assert(ns[ns.len() - 1] == x); }
                    assert(ns.to_set().contains(k));
                    assert(ms.to_set().contains(k));
                    let b = choose|b: int| 0 <= b < ms.len() && ms[b] == k;
                    assert(b != j);
                    if b < j { assert(ms2[b] == k); } else { assert(ms2[b - 1] == k); }
                }
                if ms2.to_set().contains(k) {
                    let b = choose|b: int| 0 <= b < ms2.len() && ms2[b] == k;
                    let b2 = if b < j { b } else { b + 1 };
                    assert(ms[b2] == k);
                    assert(b2 != j);
                    assert(k != x);
                    assert(ms.to_set().contains(k));
                    assert(ns.to_set().contains(k));
                    let a = choose|a: int| 0 <= a < ns.len() && ns[a] == k;
                    assert(a != ns.len() - 1);
                    assert(ns2[a] == k);
                }
            }
        }
        lemma_sum_pool_same_set(e, ns2, ms2);
    }
}

/// The isolate count of a registry does not depend on the order its
/// functions are listed in: `total_is` names one number.
pub proof fn lemma_total_is_unique(e: Map<Seq<char>, FunctionEntry>, a: int, b: int)
    requires
        total_is(e, a),
        total_is(e, b),
    ensures
        a == b,
{
    let ns = choose|ns: Seq<Seq<char>>| enumerates(e, ns)
        && a == (if sum_pool(e, ns) > usize::MAX { usize::MAX as int } else { sum_pool(e, ns) });
    let ms = choose|ms: Seq<Seq<char>>| enumerates(e, ms)
        && b == (if sum_pool(e, ms) > usize::MAX { usize::MAX as int } else { sum_pool(e, ms) });
    assert(ns.to_set() =~= ms.to_set()) by {
        assert forall|k: Seq<char>| ns.to_set().contains(k) <==> ms.to_set().contains(k) by {
            if ns.to_set().contains(k) {
                let i = choose|i: int| 0 <= i < ns.len() && ns[i] == k;
                assert(e.contains_key(ns[i]));
            }
            if ms.to_set().contains(k) {
                let i = choose|i: int| 0 <= i < ms.len() && ms[i] == k;
                assert(e.contains_key(ms[i]));
            }
        }
    }
    lemma_sum_pool_same_set(e, ns, ms);
}

/// `h` with its liveness set to `alive` when it is isolate `id`.
pub open spec fn with_liveness(h: IsolateHandle, id: u128, alive: bool) -> IsolateHandle {
    if h.id == id { IsolateHandle { alive, ..h } } else { h }
}

/// Thread-safe registry of all deployed functions.
pub struct FunctionRegistry {
    functions: FunctionTable,
    default_config: IsolateConfig,
    pool_config: PoolRuntimeConfig,
    default_pool_limits: PoolLimits,
    usage_clock: u64,
    handle_last_used: UsageTable,
}

impl FunctionRegistry {
    /// The deployed functions, by name.
    pub closed spec fn entries(&self) -> Map<Seq<char>, FunctionEntry> {
        function_table(self.functions)
    }

    /// Each isolate's last-use tick.
    pub closed spec fn usage(&self) -> Map<u128, u64> {
        usage_table(self.handle_last_used)
    }

    /// The usage clock.
    pub closed spec fn clock(&self) -> u64 {
        self.usage_clock
    }

    pub closed spec fn pool_settings(&self) -> PoolRuntimeConfig {
        self.pool_config
    }

    pub closed spec fn default_limits(&self) -> PoolLimits {
        self.default_pool_limits
    }

    pub closed spec fn defaults(&self) -> IsolateConfig {
        self.default_config
    }

    /// A registry with pooling off and single-isolate limits.
    pub fn new(default_config: IsolateConfig) -> (r: Self)
        ensures
            r.entries().dom().is_empty(),
            r.usage().dom().is_empty(),
            r.clock() == 0,
            r.pool_settings() == (PoolRuntimeConfig { enabled: false, global_max_isolates: 1024, min_free_memory_mib: 256 }),
            r.default_limits() == (PoolLimits { min: 1, max: 1 }),
            r.defaults() == default_config,
    {
        Self::new_with_pool(
            default_config,
            PoolRuntimeConfig { enabled: false, global_max_isolates: 1024, min_free_memory_mib: 256 },
            PoolLimits { min: 1, max: 1 },
        )
    }

    /// A registry with the given pooling settings.
    pub fn new_with_pool(default_config: IsolateConfig, pool_config: PoolRuntimeConfig, default_pool_limits: PoolLimits) -> (r: Self)
        ensures
            r.entries().dom().is_empty(),
            r.usage().dom().is_empty(),
            r.clock() == 0,
            r.pool_settings() == pool_config,
            r.default_limits() == default_pool_limits,
            r.defaults() == default_config,
    {
        FunctionRegistry {
            functions: functions_new(),
            default_config,
            pool_config,
            default_pool_limits,
            usage_clock: 0,
            handle_last_used: usage_new(),
        }
    }

    /// Number of deployed functions.
    pub fn count(&self) -> (n: usize)
        ensures
            n == self.entries().dom().len(),
    {
        functions_len(&self.functions)
    }

    /// Whether a function of that name is deployed.
    pub fn contains(&self, name: &str) -> (r: bool)
        ensures
            r == self.entries().contains_key(name@),
    {
        functions_contains(&self.functions, name)
    }

    /// The pool limits of a function.
    pub fn get_pool_limits(&self, name: &str) -> (r: Option<PoolLimits>)
        ensures
            r == (if self.entries().contains_key(name@) {
                Some(self.entries()[name@].pool_limits)
            } else {
                None::<PoolLimits>
            }),
    {
        functions_pool_limits(&self.functions, name)
    }

    /// The configuration of a function.
    pub fn get_config(&mut self, name: &str) -> (r: Option<IsolateConfig>)
        ensures
            final(self).entries() == old(self).entries(),
            final(self).usage() == old(self).usage(),
            final(self).clock() == old(self).clock(),
            final(self).pool_settings() == old(self).pool_settings(),
            final(self).default_limits() == old(self).default_limits(),
            final(self).defaults() == old(self).defaults(),
            r is Some == old(self).entries().contains_key(name@),
            r matches Some(c) ==> same_config(c, old(self).entries()[name@].config),
    {
        let taken = functions_take(&mut self.functions, name);
        match taken {
            None => {
                proof {
                    assert(function_table(self.functions) =~= function_table(old(self).functions));
                }
                None
            },
            Some(e) => {
                let c = e.config.duplicate();
                functions_put(&mut self.functions, name.to_string(), e);
                proof {
                    assert(function_table(self.functions) =~= function_table(old(self).functions));
                }
                Some(c)
            },
        }
    }

    /// Records a use of isolate `id` at the next tick.
    pub fn mark_handle_used(&mut self, id: u128)
        ensures
            final(self).usage() == old(self).usage().insert(id, tick_after(old(self).clock())),
            final(self).clock() == clock_after(old(self).clock()),
            final(self).entries() == old(self).entries(),
            final(self).pool_settings() == old(self).pool_settings(),
            final(self).default_limits() == old(self).default_limits(),
            final(self).defaults() == old(self).defaults(),
    {
        let tick = self.usage_clock.saturating_add(1);
        self.usage_clock = self.usage_clock.wrapping_add(1);
        usage_insert(&mut self.handle_last_used, id, tick);
    }

    /// Forgets the uses of the isolates `ids`.
    fn forget_usage(&mut self, ids: &Vec<u128>)
        ensures
            final(self).usage() == old(self).usage().remove_keys(ids@.to_set()),
            final(self).clock() == old(self).clock(),
            final(self).entries() == old(self).entries(),
            final(self).pool_settings() == old(self).pool_settings(),
            final(self).default_limits() == old(self).default_limits(),
            final(self).defaults() == old(self).defaults(),
    {
        let ghost start = self.usage();
        let mut i: usize = 0;
        while i < ids.len()
            invariant
                i <= ids.len(),
                self.usage() == start.remove_keys(ids@.take(i as int).to_set()),
                self.clock() == old(self).clock(),
                self.entries() == old(self).entries(),
                self.pool_settings() == old(self).pool_settings(),
                self.default_limits() == old(self).default_limits(),
                self.defaults() == old(self).defaults(),
            decreases ids.len() - i,
        {
            usage_remove(&mut self.handle_last_used, ids[i]);
            proof {
                assert(ids@.take(i + 1) =~= ids@.take(i as int).push(ids@[i as int]));
                ids@.take(i as int).lemma_push_to_set_commute(ids@[i as int]);
                assert(start.remove_keys(ids@.take(i + 1).to_set()) =~= start.remove_keys(ids@.take(i as int).to_set()).remove(ids@[i as int]));
            }
            i = i + 1;
        }
        proof {
            assert(ids@.take(ids.len() as int) =~= ids@);
        }
    }

    /// The description of `name` at time `now_ms` on V8 `runtime_v8_version`,
    /// after its dead isolates are dropped (and forgotten).
    pub fn get_info_at(&mut self, name: &str, now_ms: i64, runtime_v8_version: &str) -> (r: Option<FunctionInfo>)
        ensures
            final(self).pool_settings() == old(self).pool_settings(),
            final(self).default_limits() == old(self).default_limits(),
            final(self).defaults() == old(self).defaults(),
            final(self).clock() == old(self).clock(),
            !old(self).entries().contains_key(name@) ==> r is None && final(self).entries() == old(self).entries()
                && final(self).usage() == old(self).usage(),
            old(self).entries().contains_key(name@) ==> ({
                let e = old(self).entries()[name@];
                let e2 = final(self).entries()[name@];
                &&& final(self).entries() == old(self).entries().insert(name@, e2)
                &&& is_reconciled(e, e2, now_ms)
                &&& final(self).usage() == old(self).usage().remove_keys(removed_ids(e).to_set())
                &&& r matches Some(info) && describes(info, e2, runtime_v8_version@)
            }),
    {
        let taken = functions_take(&mut self.functions, name);
        let mut entry = match taken {
            None => return None,
            Some(e) => e,
        };
        let removed = reconcile_entry_status(&mut entry, now_ms);
        self.forget_usage(&removed);
        let info = entry.to_info(runtime_v8_version);
        functions_put(&mut self.functions, name.to_string(), entry);
        Some(info)
    }

    /// The description of every deployed function at time `now_ms`, each
    /// reconciled first, in no stated order.
    pub fn list_at(&mut self, now_ms: i64, runtime_v8_version: &str) -> (infos: Vec<FunctionInfo>)
        ensures
            final(self).entries().dom() == old(self).entries().dom(),
            infos.len() == old(self).entries().dom().len(),
            forall|i: int| 0 <= i < infos.len() ==> #[trigger] listed(final(self).entries(), infos@[i], runtime_v8_version@),
            exists|ns: Seq<Seq<char>>| #[trigger] enumerates(old(self).entries(), ns) && ns.len() == infos.len()
                && forall|i: int| 0 <= i < infos.len() ==> #[trigger] describes(infos@[i], final(self).entries()[ns[i]], runtime_v8_version@),
            forall|k: Seq<char>| #[trigger] old(self).entries().contains_key(k)
                ==> is_reconciled(old(self).entries()[k], final(self).entries()[k], now_ms),
            final(self).clock() == old(self).clock(),
            final(self).pool_settings() == old(self).pool_settings(),
    {
        let names = functions_names(&self.functions);
        let ghost dom0 = self.entries().dom();
        proof {
            assert(name_views(names@).to_set() =~= dom0) by {
                assert forall|k: Seq<char>| name_views(names@).to_set().contains(k) <==> dom0.contains(k) by {
                    if dom0.contains(k) {
                        let i = choose|i: int| 0 <= i < names.len() && names@[i]@ == k;
                        assert(name_views(names@)[i] == k);
                    }
                    if name_views(names@).to_set().contains(k) {
                        let i = choose|i: int| 0 <= i < names.len() && #[trigger] name_views(names@)[i] == k;
                        assert(self.entries().contains_key(names@[i]@));
                    }
                }
            }
            assert(name_views(names@).no_duplicates()) by {
                assert forall|i: int, j: int| 0 <= i < name_views(names@).len() && 0 <= j < name_views(names@).len() && i != j
                    implies name_views(names@)[i] != name_views(names@)[j] by {
                    if i < j { assert(names@[i]@ != names@[j]@); } else { assert(names@[j]@ != names@[i]@); }
                }
            }
            name_views(names@).unique_seq_to_set();
            assert(names.len() == dom0.len());
        }
        let mut infos: Vec<FunctionInfo> = Vec::new();
        let mut k: usize = 0;
        while k < names.len()
            invariant
                k <= names.len(),
                infos.len() == k,
                names.len() == dom0.len(),
                dom0 == old(self).entries().dom(),
                self.entries().dom() == dom0,
                forall|a: int| 0 <= a < names.len() ==> #[trigger] dom0.contains(names@[a]@),
                forall|a: int, b: int| 0 <= a < b < names.len() ==> names@[a]@ != names@[b]@,
                forall|i: int| 0 <= i < k ==> #[trigger] describes(infos@[i], self.entries()[names@[i]@], runtime_v8_version@),
                forall|a: int| #![trigger names@[a]] 0 <= a < k
                    ==> is_reconciled(old(self).entries()[names@[a]@], self.entries()[names@[a]@], now_ms),
                forall|a: int| #![trigger names@[a]] k <= a < names.len()
                    ==> self.entries()[names@[a]@] == old(self).entries()[names@[a]@],
                self.clock() == old(self).clock(),
                self.pool_settings() == old(self).pool_settings(),
            decreases names.len() - k,
        {
            let ghost before = self.entries();
            let info = self.get_info_at(names[k].as_str(), now_ms, runtime_v8_version);
            proof {
                assert(before.contains_key(names@[k as int]@));
                assert(self.entries().dom() =~= dom0);
                assert forall|i: int| 0 <= i < k implies #[trigger] describes(infos@[i], self.entries()[names@[i]@], runtime_v8_version@) by {
                    assert(names@[i]@ != names@[k as int]@);
                }
                assert forall|a: int| #![trigger names@[a]] 0 <= a < k + 1
                    implies is_reconciled(old(self).entries()[names@[a]@], self.entries()[names@[a]@], now_ms) by {
                    if a < k { assert(names@[a]@ != names@[k as int]@); }
                }
                assert forall|a: int| #![trigger names@[a]] k + 1 <= a < names.len()
                    implies self.entries()[names@[a]@] == old(self).entries()[names@[a]@] by {
                    assert(names@[a]@ != names@[k as int]@);
                }
            }
            match info {
                Some(i) => infos.push(i),
                None => {
                    proof { assert(false); }
                    return infos;
                },
            }
            k = k + 1;
        }
        proof {
            assert forall|i: int| 0 <= i < infos.len() implies #[trigger] listed(self.entries(), infos@[i], runtime_v8_version@) by {
                assert(self.entries().contains_key(names@[i]@));
                assert(describes(infos@[i], self.entries()[names@[i]@], runtime_v8_version@));
            }
            let ns = name_views(names@);
            assert(enumerates(old(self).entries(), ns)) by {
                assert forall|i: int| 0 <= i < ns.len() implies #[trigger] old(self).entries().contains_key(ns[i]) by {
                    assert(ns[i] == names@[i]@);
                }
                assert forall|key: Seq<char>| #[trigger] old(self).entries().contains_key(key) implies ns.contains(key) by {
                    assert(ns.to_set().contains(key));
                }
            }
            assert forall|i: int| 0 <= i < infos.len() implies #[trigger] describes(infos@[i], self.entries()[ns[i]], runtime_v8_version@) by {
                assert(ns[i] == names@[i]@);
            }
            assert forall|key: Seq<char>| #[trigger] old(self).entries().contains_key(key)
                implies is_reconciled(old(self).entries()[key], self.entries()[key], now_ms) by {
                assert(ns.to_set().contains(key));
                let a = choose|a: int| 0 <= a < ns.len() && ns[a] == key;
                assert(names@[a]@ == key);
            }
        }
        infos
    }

    /// Records that isolate `id` of function `name` is alive (or has died),
    /// as its supervisor reports; true when the function has such an isolate.
    pub fn set_handle_liveness(&mut self, name: &str, id: u128, alive: bool) -> (found: bool)
        ensures
            final(self).pool_settings() == old(self).pool_settings(),
            final(self).default_limits() == old(self).default_limits(),
            final(self).defaults() == old(self).defaults(),
            final(self).usage() == old(self).usage(),
            final(self).clock() == old(self).clock(),
            !old(self).entries().contains_key(name@) ==> !found && final(self).entries() == old(self).entries(),
            old(self).entries().contains_key(name@) ==> ({
                let e = old(self).entries()[name@];
                let e2 = final(self).entries()[name@];
                &&& final(self).entries() == old(self).entries().insert(name@, e2)
                &&& e2 == (FunctionEntry {
                    isolate_handle: e2.isolate_handle,
                    extra_isolate_handles: e2.extra_isolate_handles,
                    ..e
                })
                &&& e2.isolate_handle == (match e.isolate_handle {
                    Some(h) => Some(with_liveness(h, id, alive)),
                    None => None::<IsolateHandle>,
                })
                &&& e2.extra_isolate_handles@ == e.extra_isolate_handles@.map_values(
                    |h: IsolateHandle| with_liveness(h, id, alive))
                &&& found == routable(e).map_values(|h: IsolateHandle| h.id).contains(id)
            }),
    {
        let taken = functions_take(&mut self.functions, name);
        let mut entry = match taken {
            None => {
                proof {
                    assert(self.entries() =~= old(self).entries());
                }
                return false;
            },
            Some(e) => e,
        };
        let ghost e0 = entry;
        let mut found = false;
        match entry.isolate_handle {
            Some(h) => {
                if h.id == id {
                    entry.isolate_handle = Some(IsolateHandle { alive, ..h });
                    found = true;
                }
            },
            None => {},
        }
        let mut updated: Vec<IsolateHandle> = Vec::new();
        let mut i: usize = 0;
        proof {
            let off: int = if e0.isolate_handle is Some { 1int } else { 0int };
            let t = entry_ids(e0).take(off);
            if e0.isolate_handle is Some {
                assert(t =~= seq![e0.isolate_handle->0.id]);
                assert(t.contains(id) == (e0.isolate_handle->0.id == id)) by {
                    if e0.isolate_handle->0.id == id { assert(t[0] == id); }
                }
            } else {
                assert(t =~= Seq::<u128>::empty());
            }
            assert(e0.extra_isolate_handles@.take(0).map_values(|h: IsolateHandle| with_liveness(h, id, alive)) =~= updated@);
        }
        while i < entry.extra_isolate_handles.len()
            invariant
                i <= entry.extra_isolate_handles.len(),
                entry.extra_isolate_handles == e0.extra_isolate_handles,
                updated@ == e0.extra_isolate_handles@.take(i as int).map_values(|h: IsolateHandle| with_liveness(h, id, alive)),
                found == (entry_ids(e0).take((if e0.isolate_handle is Some { 1int } else { 0int }) + i).contains(id)),
            decreases entry.extra_isolate_handles.len() - i,
        {
            let h = entry.extra_isolate_handles[i];
            let ghost before = updated@;
            if h.id == id {
                updated.push(IsolateHandle { alive, ..h });
                found = true;
            } else {
                updated.push(h);
            }
            proof {
                let hs = e0.extra_isolate_handles@;
                assert(hs.take(i + 1) =~= hs.take(i as int).push(h));
                assert(updated@ =~= hs.take(i + 1).map_values(|x: IsolateHandle| with_liveness(x, id, alive)));
                let off: int = if e0.isolate_handle is Some { 1int } else { 0int };
                let ids = entry_ids(e0);
                assert(routable(e0)[off + i] == h);
                assert(ids[off + i] == h.id);
                assert(ids.take(off + i + 1) =~= ids.take(off + i).push(h.id));
                let t0 = ids.take(off + i);
                assert(t0.push(h.id).contains(id) == (t0.contains(id) || h.id == id)) by {
                    if t0.contains(id) {
                        let w = choose|w: int| 0 <= w < t0.len() && t0[w] == id;
                        assert(t0.push(h.id)[w] == id);
                    }
                    if h.id == id { assert(t0.push(h.id)[t0.len() as int] == id); }
                    if t0.push(h.id).contains(id) {
                        let w = choose|w: int| 0 <= w < t0.len() + 1 && t0.push(h.id)[w] == id;
                        if w < t0.len() { assert(t0[w] == id); }
                    }
                }
            }
            i = i + 1;
        }
        proof {
            let hs = e0.extra_isolate_handles@;
            assert(hs.take(i as int) =~= hs);
            let off: int = if e0.isolate_handle is Some { 1int } else { 0int };
            assert(entry_ids(e0).take(off + i) =~= entry_ids(e0));
        }
        entry.extra_isolate_handles = updated;
        functions_put(&mut self.functions, name.to_string(), entry);
        proof {
            assert(self.entries() =~= old(self).entries().insert(name@, entry));
        }
        found
    }

    /// Removes `name`; the removed entry is handed back so its isolates can
    /// be shut down. Its isolates' uses are forgotten.
    pub fn delete(&mut self, name: &str) -> (r: Result<FunctionEntry, RegistryError>)
        ensures
            final(self).pool_settings() == old(self).pool_settings(),
            final(self).default_limits() == old(self).default_limits(),
            final(self).defaults() == old(self).defaults(),
            final(self).clock() == old(self).clock(),
            final(self).entries() == old(self).entries().remove(name@),
            !old(self).entries().contains_key(name@) ==> (r matches Err(RegistryError::NotFound(n)) && n@ == name@)
                && final(self).usage() == old(self).usage(),
            old(self).entries().contains_key(name@) ==> r == Ok::<FunctionEntry, RegistryError>(old(self).entries()[name@])
                && final(self).usage() == old(self).usage().remove_keys(entry_ids(old(self).entries()[name@]).to_set()),
    {
        let taken = functions_take(&mut self.functions, name);
        match taken {
            None => Err(RegistryError::NotFound(name.to_string())),
            Some(entry) => {
                let ids = handle_ids(&entry);
                self.forget_usage(&ids);
                Ok(entry)
            },
        }
    }

    /// Evicts one least-recently-used replica (never a primary isolate) of a
    /// function holding more isolates than its minimum, to free pool
    /// capacity; its use is forgotten. False when there is none to evict.
    pub fn evict_lru_replica_for_capacity(&mut self) -> (evicted: bool)
        ensures
            final(self).pool_settings() == old(self).pool_settings(),
            final(self).default_limits() == old(self).default_limits(),
            final(self).defaults() == old(self).defaults(),
            final(self).clock() == old(self).clock(),
            !evicted ==> final(self).entries() == old(self).entries() && final(self).usage() == old(self).usage()
                && nothing_evictable(old(self).entries(), old(self).usage()),
            evicted ==> exists|n: Seq<char>, i: int| {
                &&& is_lru_replica(old(self).entries(), old(self).usage(), n, i)
                &&& final(self).entries().contains_key(n)
                &&& final(self).entries() == old(self).entries().insert(n, final(self).entries()[n])
                &&& without_replica(old(self).entries()[n], final(self).entries()[n], i)
                &&& final(self).usage() == old(self).usage().remove(old(self).entries()[n].extra_isolate_handles@[i].id)
            },
    {
        let ghost entries = self.entries();
        let ghost usage = self.usage();
        let names = functions_names(&self.functions);
        let mut best_tick: u64 = u64::MAX;
        let mut best_name: Option<String> = None;
        let mut best_id: u128 = 0;
        let mut k: usize = 0;
        while k < names.len()
            invariant
                k <= names.len(),
                self.entries() == entries,
                self.usage() == usage,
                self.clock() == old(self).clock(),
                self.pool_settings() == old(self).pool_settings(),
                self.default_limits() == old(self).default_limits(),
                self.defaults() == old(self).defaults(),
                forall|a: int| 0 <= a < names.len() ==> #[trigger] entries.contains_key(names@[a]@),
                best_name is None ==> best_tick == u64::MAX,
                best_name matches Some(bn) ==> {
                    &&& entries.contains_key(bn@)
                    &&& can_shrink(entries[bn@])
                    &&& best_tick < u64::MAX
                    &&& exists|j: int| 0 <= j < entries[bn@].extra_isolate_handles@.len()
                        && #[trigger] entries[bn@].extra_isolate_handles@[j].id == best_id
                    &&& tick_of(usage, best_id) == best_tick
                },
                forall|a: int, j: int| #![trigger entries[names@[a]@].extra_isolate_handles@[j]]
                    0 <= a < k && can_shrink(entries[names@[a]@]) && 0 <= j < entries[names@[a]@].extra_isolate_handles@.len()
                    ==> tick_of(usage, entries[names@[a]@].extra_isolate_handles@[j].id) >= best_tick,
            decreases names.len() - k,
        {
            let name = names[k].clone();
            proof {
                assert(entries.contains_key(names@[k as int]@));
            }
            let taken = functions_take(&mut self.functions, name.as_str());
            let e = match taken {
                Some(e) => e,
                None => {
                    proof { assert(false); }
                    return false;
                },
            };
            let ghost bt0 = best_tick;
            if shrinkable(&e) {
                let mut j: usize = 0;
                while j < e.extra_isolate_handles.len()
                    invariant
                        j <= e.extra_isolate_handles.len(),
                        e == entries[name@],
                        name@ == names@[k as int]@,
                        entries.contains_key(name@),
                        can_shrink(e),
                        best_tick <= bt0,
                        self.usage() == usage,
                        best_name is None ==> best_tick == u64::MAX,
                        best_name matches Some(bn) ==> {
                            &&& entries.contains_key(bn@)
                            &&& can_shrink(entries[bn@])
                            &&& best_tick < u64::MAX
                            &&& exists|jj: int| 0 <= jj < entries[bn@].extra_isolate_handles@.len()
                                && #[trigger] entries[bn@].extra_isolate_handles@[jj].id == best_id
                            &&& tick_of(usage, best_id) == best_tick
                        },
                        forall|jj: int| 0 <= jj < j ==> tick_of(usage, #[trigger] e.extra_isolate_handles@[jj].id) >= best_tick,
                    decreases e.extra_isolate_handles.len() - j,
                {
                    let id = e.extra_isolate_handles[j].id;
                    let tick = match usage_get(&self.handle_last_used, id) {
                        Some(t) => t,
                        None => 0,
                    };
                    if tick < best_tick {
                        best_tick = tick;
                        best_name = Some(name.clone());
                        best_id = id;
                        proof {
                            assert(entries[name@].extra_isolate_handles@[j as int].id == best_id);
                        }
                    }
                    j = j + 1;
                }
            }
            functions_put(&mut self.functions, name, e);
            proof {
                assert(self.entries() =~= entries);
                assert forall|a: int, j: int| #![trigger entries[names@[a]@].extra_isolate_handles@[j]]
                    0 <= a < k + 1 && can_shrink(entries[names@[a]@]) && 0 <= j < entries[names@[a]@].extra_isolate_handles@.len()
                    implies tick_of(usage, entries[names@[a]@].extra_isolate_handles@[j].id) >= best_tick by {
                    if a < k {
                    } else {
                        assert(names@[a]@ == name@);
                    }
                }
            }
            k = k + 1;
        }
        let bn = match best_name {
            None => {
                proof {
                    assert forall|m: Seq<char>, j: int| #![trigger entries[m].extra_isolate_handles@[j]]
                        entries.contains_key(m) && can_shrink(entries[m]) && 0 <= j < entries[m].extra_isolate_handles@.len()
                        implies tick_of(usage, entries[m].extra_isolate_handles@[j].id) == u64::MAX by {
                        let a = choose|a: int| 0 <= a < names.len() && names@[a]@ == m;
                        assert(entries[names@[a]@].extra_isolate_handles@[j] == entries[m].extra_isolate_handles@[j]);
                    }
                }
                return false;
            },
            Some(n) => n,
        };
        let taken = functions_take(&mut self.functions, bn.as_str());
        let mut e = match taken {
            Some(e) => e,
            None => {
                proof { assert(false); }
                return false;
            },
        };
        let mut pos: usize = 0;
        while pos < e.extra_isolate_handles.len() && e.extra_isolate_handles[pos].id != best_id
            invariant
                pos <= e.extra_isolate_handles.len(),
                e == entries[bn@],
                forall|q: int| 0 <= q < pos ==> #[trigger] e.extra_isolate_handles@[q].id != best_id,
                entries.contains_key(bn@),
                can_shrink(entries[bn@]),
                best_tick < u64::MAX,
                exists|j: int| 0 <= j < entries[bn@].extra_isolate_handles@.len()
                    && #[trigger] entries[bn@].extra_isolate_handles@[j].id == best_id,
                tick_of(usage, best_id) == best_tick,
                self.usage() == usage,
                self.clock() == old(self).clock(),
                self.pool_settings() == old(self).pool_settings(),
                self.default_limits() == old(self).default_limits(),
                self.defaults() == old(self).defaults(),
                self.entries() == entries.remove(bn@),
                forall|a: int| 0 <= a < names.len() ==> #[trigger] entries.contains_key(names@[a]@),
                forall|m: Seq<char>| #[trigger] entries.contains_key(m) ==> exists|a: int| 0 <= a < names.len() && names@[a]@ == m,
                forall|a: int, j: int| #![trigger entries[names@[a]@].extra_isolate_handles@[j]]
                    0 <= a < names.len() && can_shrink(entries[names@[a]@]) && 0 <= j < entries[names@[a]@].extra_isolate_handles@.len()
                    ==> tick_of(usage, entries[names@[a]@].extra_isolate_handles@[j].id) >= best_tick,
            decreases e.extra_isolate_handles.len() - pos,
        {
            pos = pos + 1;
        }
        if pos == e.extra_isolate_handles.len() {
            proof {
                let jj = choose|jj: int| 0 <= jj < entries[bn@].extra_isolate_handles@.len()
                    && #[trigger] entries[bn@].extra_isolate_handles@[jj].id == best_id;
                assert(false);
            }
            return false;
        }
        let ghost before = e;
        let removed = e.extra_isolate_handles.remove(pos);
        usage_remove(&mut self.handle_last_used, removed.id);
        functions_put(&mut self.functions, bn, e);
        proof {
            assert(self.entries() =~= entries.insert(bn@, e));
            assert(without_replica(before, e, pos as int));
            assert forall|m: Seq<char>, j: int| #![trigger entries[m].extra_isolate_handles@[j]]
                entries.contains_key(m) && can_shrink(entries[m]) && 0 <= j < entries[m].extra_isolate_handles@.len()
                implies tick_of(usage, entries[m].extra_isolate_handles@[j].id) >= tick_of(usage, entries[bn@].extra_isolate_handles@[pos as int].id) by {
                let a = choose|a: int| 0 <= a < names.len() && names@[a]@ == m;
                assert(entries[names@[a]@].extra_isolate_handles@[j] == entries[m].extra_isolate_handles@[j]);
            }
            assert(is_lru_replica(entries, usage, bn@, pos as int));
        }
        true
    }

    /// Number of isolates the registry runs.
    pub fn current_total_isolates(&mut self) -> (n: usize)
        ensures
            final(self).entries() == old(self).entries(),
            final(self).usage() == old(self).usage(),
            final(self).clock() == old(self).clock(),
            final(self).pool_settings() == old(self).pool_settings(),
            final(self).default_limits() == old(self).default_limits(),
            final(self).defaults() == old(self).defaults(),
            total_is(old(self).entries(), n as int),
    {
        let names = functions_names(&self.functions);
        let ghost ns = name_views(names@);
        let mut total: usize = 0;
        let mut k: usize = 0;
        while k < names.len()
            invariant
                k <= names.len(),
                ns == name_views(names@),
                self.entries() == old(self).entries(),
                self.usage() == old(self).usage(),
                self.clock() == old(self).clock(),
                self.pool_settings() == old(self).pool_settings(),
                self.default_limits() == old(self).default_limits(),
                self.defaults() == old(self).defaults(),
                forall|i: int| 0 <= i < names.len() ==> #[trigger] self.entries().contains_key(names@[i]@),
                total == (if sum_pool(self.entries(), ns.take(k as int)) > usize::MAX { usize::MAX as int }
                    else { sum_pool(self.entries(), ns.take(k as int)) }),
            decreases names.len() - k,
        {
            let taken = functions_take(&mut self.functions, names[k].as_str());
            let size = match taken {
                Some(e) => {
                    let n = e.current_pool_size();
                    functions_put(&mut self.functions, names[k].clone(), e);
                    n
                },
                None => 0,
            };
            proof {
                assert(function_table(self.functions) =~= function_table(old(self).functions));
            }
            proof {
                assert(self.entries().contains_key(names@[k as int]@));
                assert(ns.take(k + 1).drop_last() =~= ns.take(k as int));
                assert(ns.take(k + 1).last() == names@[k as int]@);
                assert(sum_pool(self.entries(), ns.take(k as int)) >= 0) by {
                    lemma_sum_pool_nonneg(self.entries(), ns.take(k as int));
                }
            }
            total = total.saturating_add(size);
            k = k + 1;
        }
        proof {
            assert(ns.take(names.len() as int) =~= ns);
            assert(ns.no_duplicates()) by {
                assert forall|i: int, j: int| 0 <= i < ns.len() && 0 <= j < ns.len() && i != j implies ns[i] != ns[j] by {
                    if i < j { } else { }
                }
            }
            assert forall|i: int| 0 <= i < ns.len() implies #[trigger] self.entries().contains_key(ns[i]) by {
                assert(ns[i] == names@[i]@);
            }
            assert forall|key: Seq<char>| #[trigger] self.entries().contains_key(key) implies ns.contains(key) by {
                let i = choose|i: int| 0 <= i < names.len() && names@[i]@ == key;
                assert(ns[i] == key);
            }
            assert(enumerates(self.entries(), ns));
        }
        total
    }

    /// Whether the machine has the configured free memory for another
    /// replica, with the reading of the machine that decided it: yes exactly
    /// when the reading succeeded and leaves at least `min_free_memory_mib`
    /// whole MiB.
    pub fn can_scale_with_memory(&self) -> (r: (bool, MemoryReading))
        ensures
            r.0 == memory_permits(r.1.bytes(), self.pool_settings().min_free_memory_mib),
    {
        let reading = available_memory_bytes();
        let ok = memory_allows_replica(reading.available_bytes(), self.pool_config.min_free_memory_mib);
        (ok, reading)
    }

    /// Whether another replica may be booted: pooling must be on; at the
    /// global isolate limit one least-recently-used replica is evicted first
    /// (none evictable, or still at the limit, refuses); and the machine must
    /// have the configured free memory.
    pub fn admit_replica(&mut self) -> (r: bool)
        ensures
            final(self).pool_settings() == old(self).pool_settings(),
            final(self).default_limits() == old(self).default_limits(),
            final(self).defaults() == old(self).defaults(),
            final(self).clock() == old(self).clock(),
            !old(self).pool_settings().enabled ==> !r && final(self).entries() == old(self).entries()
                && final(self).usage() == old(self).usage(),
            r ==> old(self).pool_settings().enabled && exists|n: int| total_is(final(self).entries(), n)
                && n < old(self).pool_settings().global_max_isolates,
            final(self).entries() == old(self).entries() || exists|n: Seq<char>, i: int|
                is_lru_replica(old(self).entries(), old(self).usage(), n, i)
                && final(self).entries() == old(self).entries().insert(n, final(self).entries()[n])
                && without_replica(old(self).entries()[n], final(self).entries()[n], i),
            forall|n: int| #[trigger] total_is(old(self).entries(), n) && n < old(self).pool_settings().global_max_isolates
                ==> final(self).entries() == old(self).entries() && final(self).usage() == old(self).usage(),
            forall|n: int| #[trigger] total_is(old(self).entries(), n) && n >= old(self).pool_settings().global_max_isolates
                && nothing_evictable(old(self).entries(), old(self).usage())
                ==> !r && final(self).entries() == old(self).entries() && final(self).usage() == old(self).usage(),
            r ==> exists|b: u64| #[trigger] enough_memory(b, old(self).pool_settings().min_free_memory_mib),
    {
        if !self.pool_config.enabled {
            return false;
        }
        let total = self.current_total_isolates();
        proof {
            assert forall|n: int| #[trigger] total_is(old(self).entries(), n) implies n == total by {
                lemma_total_is_unique(old(self).entries(), n, total as int);
            }
        }
        if total >= self.pool_config.global_max_isolates {
            if !self.evict_lru_replica_for_capacity() {
                return false;
            }
            let again = self.current_total_isolates();
            if again >= self.pool_config.global_max_isolates {
                return false;
            }
        }
        self.can_scale_with_memory().0
    }

    /// Whether `entry` should get another replica now: pooling is on, its
    /// maximum exceeds one, and it holds fewer isolates than both its
    /// minimum and its maximum.
    pub fn wants_replica(&self, entry: &FunctionEntry) -> (r: bool)
        ensures
            r == (self.pool_settings().enabled && entry.pool_limits.max > 1
                && capped_pool_size(*entry) < entry.pool_limits.min && capped_pool_size(*entry) < entry.pool_limits.max),
    {
        let size = entry.current_pool_size();
        self.pool_config.enabled && entry.pool_limits.max > 1 && size < entry.pool_limits.min
            && size < entry.pool_limits.max
    }

    /// The configuration a deployment of `name` runs with, unless the name is
    /// taken: the given one (or the default), with the manifest's resource
    /// overrides applied.
    pub fn begin_deploy(&self, name: &str, config: Option<IsolateConfig>, manifest: &Option<ManifestResources>)
        -> (r: Result<IsolateConfig, RegistryError>)
        ensures
            self.entries().contains_key(name@) ==> (r matches Err(RegistryError::AlreadyExists(n)) && n@ == name@),
            !self.entries().contains_key(name@) ==> (r matches Ok(c) && same_config(c, with_manifest(
                match config { Some(given) => given, None => self.defaults() },
                *manifest,
            ))),
    {
        if functions_contains(&self.functions, name) {
            return Err(RegistryError::AlreadyExists(name.to_string()));
        }
        let mut c = match &config {
            Some(given) => given.duplicate(),
            None => self.default_config.duplicate(),
        };
        proof {
            lemma_with_manifest_same(c, given_or(config, self.defaults()), *manifest);
        }
        if let Some(res) = manifest {
            apply_manifest_resources(&mut c, res);
        }
        Ok(c)
    }

    /// A freshly booted entry gets the registry's default pool limits when
    /// pooling is on, single-isolate limits otherwise.
    pub fn prepare_deployed_entry(&self, entry: &mut FunctionEntry)
        ensures
            *final(entry) == (FunctionEntry {
                pool_limits: if self.pool_settings().enabled { self.default_limits() } else { PoolLimits { min: 1, max: 1 } },
                ..*old(entry)
            }),
    {
        entry.pool_limits = if self.pool_config.enabled { self.default_pool_limits } else { PoolLimits { min: 1, max: 1 } };
    }

    /// Records a use of every isolate of `entry`, primary first.
    #[verifier::rlimit(30)]
    #[verifier::spinoff_prover]
    fn mark_entry_handles_used(&mut self, entry: &FunctionEntry)
        ensures
            final(self).entries() == old(self).entries(),
            final(self).pool_settings() == old(self).pool_settings(),
            final(self).default_limits() == old(self).default_limits(),
            final(self).defaults() == old(self).defaults(),
            forall|id: u128| #[trigger] entry_ids(*entry).contains(id)
                ==> final(self).usage().contains_key(id),
            forall|id: u128| !entry_ids(*entry).contains(id)
                ==> #[trigger] final(self).usage().contains_key(id) == old(self).usage().contains_key(id)
                && (old(self).usage().contains_key(id) ==> final(self).usage()[id] == old(self).usage()[id]),
    {
        let ids = handle_ids(entry);
        let mut i: usize = 0;
        while i < ids.len()
            invariant
                i <= ids.len(),
                ids@ == entry_ids(*entry),
                self.entries() == old(self).entries(),
                self.pool_settings() == old(self).pool_settings(),
                self.default_limits() == old(self).default_limits(),
                self.defaults() == old(self).defaults(),
                forall|j: int| 0 <= j < i ==> #[trigger] self.usage().contains_key(ids@[j]),
                forall|id: u128| !ids@.take(i as int).contains(id)
                    ==> #[trigger] self.usage().contains_key(id) == old(self).usage().contains_key(id)
                    && (old(self).usage().contains_key(id) ==> self.usage()[id] == old(self).usage()[id]),
            decreases ids.len() - i,
        {
            let id = ids[i];
            let ghost u_before = self.usage();
            let ghost c0 = self.clock();
            self.mark_handle_used(id);
            proof {
                let u1 = u_before.insert(id, tick_after(c0));
                assert(self.usage() == u1);
                assert forall|j: int| 0 <= j < i + 1 implies #[trigger] self.usage().contains_key(ids@[j]) by {
                    if j < i {
                        assert(u_before.contains_key(ids@[j]));
                        assert(u1.contains_key(ids@[j]));
                    } else {
                        assert(ids@[j] == id);
                    }
                }
                assert forall|id2: u128| !ids@.take(i + 1).contains(id2) implies
                    #[trigger] self.usage().contains_key(id2) == old(self).usage().contains_key(id2)
                    && (old(self).usage().contains_key(id2) ==> self.usage()[id2] == old(self).usage()[id2]) by {
                    assert(ids@.take(i + 1)[i as int] == id);
                    assert(id2 != id);
                    if ids@.take(i as int).contains(id2) {
                        let w = choose|w: int| 0 <= w < i && #[trigger] ids@.take(i as int)[w] == id2;
                        assert(ids@.take(i + 1)[w] == id2);
                    }
                    assert(!ids@.take(i as int).contains(id2));
                    assert(u_before.contains_key(id2) == old(self).usage().contains_key(id2));
                    assert(self.usage().contains_key(id2) == u_before.contains_key(id2));
                    if u_before.contains_key(id2) {
                        assert(self.usage()[id2] == u_before[id2]);
                    }
                }
            }
            i = i + 1;
        }
        proof {
            assert(ids@.take(ids.len() as int) =~= ids@);
        }
    }

    /// Stores `entry` under `name`, its isolates marked used, and describes
    /// it on V8 `runtime_v8_version`.
    pub fn finish_entry(&mut self, name: String, entry: FunctionEntry, runtime_v8_version: &str) -> (info: FunctionInfo)
        ensures
            final(self).entries() == old(self).entries().insert(name@, entry),
            describes(info, entry, runtime_v8_version@),
            final(self).pool_settings() == old(self).pool_settings(),
            final(self).default_limits() == old(self).default_limits(),
            final(self).defaults() == old(self).defaults(),
            forall|id: u128| #[trigger] entry_ids(entry).contains(id)
                ==> final(self).usage().contains_key(id),
    {
        let info = entry.to_info(runtime_v8_version);
        self.mark_entry_handles_used(&entry);
        functions_put(&mut self.functions, name, entry);
        info
    }

    /// Takes `name` out for an update: its old entry (its isolates'
    /// uses forgotten), the configuration the new version runs with (the
    /// given one, else the old one, else the default; then the manifest's
    /// overrides) and the manifest resources (the given ones, else the old).
    pub fn begin_update(&mut self, name: &str, config: Option<IsolateConfig>, manifest: Option<ManifestResources>)
        -> (r: (Option<FunctionEntry>, IsolateConfig, Option<ManifestResources>))
        ensures
            final(self).entries() == old(self).entries().remove(name@),
            r.0 == (if old(self).entries().contains_key(name@) { Some(old(self).entries()[name@]) } else { None::<FunctionEntry> }),
            r.2 == (match manifest {
                Some(m) => Some(m),
                None => match r.0 { Some(e) => e.manifest_resources, None => None::<ManifestResources> },
            }),
            same_config(r.1, with_manifest(
                match config {
                    Some(given) => given,
                    None => match r.0 { Some(e) => e.config, None => old(self).defaults() },
                },
                r.2,
            )),
            final(self).pool_settings() == old(self).pool_settings(),
            final(self).default_limits() == old(self).default_limits(),
            final(self).defaults() == old(self).defaults(),
    {
        let old_entry = functions_take(&mut self.functions, name);
        let base = match &config {
            Some(given) => given.duplicate(),
            None => match &old_entry {
                Some(e) => e.config.duplicate(),
                None => self.default_config.duplicate(),
            },
        };
        let res = match manifest {
            Some(m) => Some(m),
            None => match &old_entry {
                Some(e) => e.manifest_resources,
                None => None,
            },
        };
        if let Some(e) = &old_entry {
            let ids = handle_ids(e);
            self.forget_usage(&ids);
        }
        let mut c = base;
        proof {
            lemma_with_manifest_same(c, given_or(config, entry_config_or(old_entry, old(self).defaults())), res);
        }
        if let Some(m) = &res {
            apply_manifest_resources(&mut c, m);
        }
        (old_entry, c, res)
    }

    /// Takes `name` out to resize its pool: limits `min..=max` when pooling
    /// is on (single-isolate limits otherwise), then replicas are dropped from
    /// the end while the entry holds more than its maximum; the dropped
    /// replicas are handed back (their uses forgotten) to be shut down.
    pub fn begin_pool_resize(&mut self, name: &str, min: usize, max: usize)
        -> (r: Result<(FunctionEntry, Vec<IsolateHandle>), RegistryError>)
        ensures
            final(self).pool_settings() == old(self).pool_settings(),
            final(self).default_limits() == old(self).default_limits(),
            final(self).defaults() == old(self).defaults(),
            min > max ==> r == Err::<(FunctionEntry, Vec<IsolateHandle>), RegistryError>(RegistryError::InvalidPoolLimits)
                && final(self).entries() == old(self).entries(),
            min <= max && !old(self).entries().contains_key(name@) ==> (r matches Err(RegistryError::NotFound(n)) && n@ == name@)
                && final(self).entries() == old(self).entries(),
            min <= max && old(self).entries().contains_key(name@) ==> (r matches Ok((e, dropped)) && {
                let o = old(self).entries()[name@];
                let limits = if old(self).pool_settings().enabled { PoolLimits { min, max } } else { PoolLimits { min: 1, max: 1 } };
                &&& final(self).entries() == old(self).entries().remove(name@)
                &&& e == (FunctionEntry { pool_limits: limits, extra_isolate_handles: e.extra_isolate_handles, ..o })
                &&& e.extra_isolate_handles@ + dropped@.reverse() == o.extra_isolate_handles@
                &&& (capped_pool_size(e) <= limits.max || e.extra_isolate_handles@.len() == 0)
                &&& (dropped@.len() > 0 ==> capped_pool_size(e) >= limits.max)
            }),
    {
        if min > max {
            return Err(RegistryError::InvalidPoolLimits);
        }
        let taken = functions_take(&mut self.functions, name);
        let mut entry = match taken {
            None => {
                proof {
                    assert(self.entries() =~= old(self).entries());
                }
                return Err(RegistryError::NotFound(name.to_string()));
            },
            Some(e) => e,
        };
        let ghost o = entry;
        entry.pool_limits = if self.pool_config.enabled { PoolLimits { min, max } } else { PoolLimits { min: 1, max: 1 } };
        let mut dropped: Vec<IsolateHandle> = Vec::new();
        proof {
            assert(entry.extra_isolate_handles@ + dropped@.reverse() =~= o.extra_isolate_handles@);
        }
        while entry.current_pool_size() > entry.pool_limits.max && entry.extra_isolate_handles.len() > 0
            invariant
                entry == (FunctionEntry { pool_limits: entry.pool_limits, extra_isolate_handles: entry.extra_isolate_handles, ..o }),
                entry.pool_limits == (if self.pool_settings().enabled { PoolLimits { min, max } } else { PoolLimits { min: 1, max: 1 } }),
                entry.extra_isolate_handles@ + dropped@.reverse() == o.extra_isolate_handles@,
                dropped@.len() > 0 ==> capped_pool_size(entry) >= entry.pool_limits.max,
                self.entries() == old(self).entries().remove(name@),
                self.pool_settings() == old(self).pool_settings(),
                self.default_limits() == old(self).default_limits(),
                self.defaults() == old(self).defaults(),
            decreases entry.extra_isolate_handles.len(),
        {
            let ghost before = entry.extra_isolate_handles@;
            let ghost before_dropped = dropped@;
            let h = entry.extra_isolate_handles.pop().unwrap();
            usage_remove(&mut self.handle_last_used, h.id);
            dropped.push(h);
            proof {
                assert(before == entry.extra_isolate_handles@.push(h));
                assert(dropped@.reverse() =~= seq![h] + before_dropped.reverse());
                assert(entry.extra_isolate_handles@ + dropped@.reverse() =~= before + before_dropped.reverse());
            }
        }
        Ok((entry, dropped))
    }

    /// Adds a booted replica to `entry`, marking it used when `mark` is set.
    pub fn attach_replica(&mut self, entry: &mut FunctionEntry, handle: IsolateHandle, mark: bool)
        ensures
            *final(entry) == (FunctionEntry {
                extra_isolate_handles: final(entry).extra_isolate_handles,
                ..*old(entry)
            }),
            final(entry).extra_isolate_handles@ == old(entry).extra_isolate_handles@.push(handle),
            final(self).entries() == old(self).entries(),
            mark ==> final(self).usage() == old(self).usage().insert(handle.id, tick_after(old(self).clock())),
            !mark ==> final(self).usage() == old(self).usage(),
    {
        if mark {
            self.mark_handle_used(handle.id);
        }
        entry.extra_isolate_handles.push(handle);
    }

    /// Starts shutting every function down at time `now_ms`: each entry is
    /// marked shutting down and its isolates' uses forgotten; every isolate
    /// is handed back to be stopped.
    pub fn begin_shutdown(&mut self, now_ms: i64) -> (handles: Vec<IsolateHandle>)
        ensures
            final(self).entries().dom() == old(self).entries().dom(),
            forall|k: Seq<char>| #[trigger] old(self).entries().contains_key(k) ==> final(self).entries()[k] == (FunctionEntry {
                status: FunctionStatus::ShuttingDown,
                updated_at_ms: now_ms,
                ..old(self).entries()[k]
            }),
            forall|k: Seq<char>, i: int| old(self).entries().contains_key(k) && 0 <= i < routable(old(self).entries()[k]).len()
                ==> !final(self).usage().contains_key(#[trigger] routable(old(self).entries()[k])[i].id),
    {
        let ghost start = self.entries();
        let names = functions_names(&self.functions);
        let mut handles: Vec<IsolateHandle> = Vec::new();
        let mut k: usize = 0;
        while k < names.len()
            invariant
                k <= names.len(),
                self.entries().dom() == start.dom(),
                forall|a: int| 0 <= a < names.len() ==> #[trigger] start.contains_key(names@[a]@),
                forall|a: int, b: int| 0 <= a < b < names.len() ==> names@[a]@ != names@[b]@,
                forall|a: int| #![trigger names@[a]] 0 <= a < k ==> self.entries()[names@[a]@] == (FunctionEntry {
                    status: FunctionStatus::ShuttingDown,
                    updated_at_ms: now_ms,
                    ..start[names@[a]@]
                }),
                forall|a: int| #![trigger names@[a]] k <= a < names.len() ==> self.entries()[names@[a]@] == start[names@[a]@],
                forall|a: int, i: int| 0 <= a < k && 0 <= i < routable(start[names@[a]@]).len()
                    ==> !self.usage().contains_key(#[trigger] routable(start[names@[a]@])[i].id),
            decreases names.len() - k,
        {
            let name = names[k].clone();
            proof {
                assert(start.contains_key(names@[k as int]@));
            }
            let taken = functions_take(&mut self.functions, name.as_str());
            let mut e = match taken {
                Some(e) => e,
                None => {
                    proof { assert(false); }
                    return handles;
                },
            };
            e.status = FunctionStatus::ShuttingDown;
            e.updated_at_ms = now_ms;
            let ids = handle_ids(&e);
            let ghost u0 = self.usage();
            self.forget_usage(&ids);
            match e.isolate_handle {
                Some(h) => handles.push(h),
                None => {},
            }
            let mut j: usize = 0;
            while j < e.extra_isolate_handles.len()
                invariant
                    j <= e.extra_isolate_handles.len(),
                decreases e.extra_isolate_handles.len() - j,
            {
                handles.push(e.extra_isolate_handles[j]);
                j = j + 1;
            }
            let ghost updated = e;
            functions_put(&mut self.functions, name, e);
            proof {
                assert(routable(updated) == routable(start[names@[k as int]@]));
                assert forall|a: int, i: int| 0 <= a < k + 1 && 0 <= i < routable(start[names@[a]@]).len()
                    implies !self.usage().contains_key(#[trigger] routable(start[names@[a]@])[i].id) by {
                    if a == k {
                        assert(ids@[i] == routable(updated)[i].id);
                        assert(ids@.to_set().contains(ids@[i]));
                    }
                }
                assert forall|a: int| #![trigger names@[a]] 0 <= a < k + 1 implies self.entries()[names@[a]@] == (FunctionEntry {
                    status: FunctionStatus::ShuttingDown,
                    updated_at_ms: now_ms,
                    ..start[names@[a]@]
                }) by {
                    if a < k { assert(names@[a]@ != names@[k as int]@); }
                }
                assert forall|a: int| #![trigger names@[a]] k + 1 <= a < names.len() implies self.entries()[names@[a]@] == start[names@[a]@] by {
                    assert(names@[a]@ != names@[k as int]@);
                }
                assert(self.entries().dom() =~= start.dom());
            }
            k = k + 1;
        }
        proof {
            assert forall|key: Seq<char>| #[trigger] start.contains_key(key) implies self.entries()[key] == (FunctionEntry {
                status: FunctionStatus::ShuttingDown,
                updated_at_ms: now_ms,
                ..start[key]
            }) by {
                let a = choose|a: int| 0 <= a < names.len() && names@[a]@ == key;
                assert(names@[a]@ == key);
            }
            assert forall|key: Seq<char>, i: int| start.contains_key(key) && 0 <= i < routable(start[key]).len()
                implies !self.usage().contains_key(#[trigger] routable(start[key])[i].id) by {
                let a = choose|a: int| 0 <= a < names.len() && names@[a]@ == key;
                assert(routable(start[names@[a]@])[i] == routable(start[key])[i]);
            }
        }
        handles
    }

    /// Drops every function and every recorded use.
    pub fn clear_all(&mut self)
        ensures
            final(self).entries().dom().is_empty(),
            final(self).usage().dom().is_empty(),
            final(self).pool_settings() == old(self).pool_settings(),
    {
        functions_clear(&mut self.functions);
        usage_clear(&mut self.handle_last_used);
    }

    /// The names of the deployed functions, each once, in no stated order.
    pub fn names(&self) -> (r: Vec<String>)
        ensures
            forall|i: int| 0 <= i < r.len() ==> #[trigger] self.entries().contains_key(r@[i]@),
            forall|i: int, j: int| 0 <= i < j < r.len() ==> r@[i]@ != r@[j]@,
            forall|k: Seq<char>| #[trigger] self.entries().contains_key(k) ==> exists|i: int| 0 <= i < r.len() && r@[i]@ == k,
    {
        functions_names(&self.functions)
    }

    /// `get_handle_at` at the current time. Which isolate is chosen does not
    /// depend on the time; only the entry's update time does.
    pub fn get_handle(&mut self, name: &str) -> (r: Option<IsolateHandle>)
        ensures
            final(self).pool_settings() == old(self).pool_settings(),
            final(self).default_limits() == old(self).default_limits(),
            final(self).defaults() == old(self).defaults(),
            !old(self).entries().contains_key(name@) ==> r is None && final(self).entries() == old(self).entries()
                && final(self).usage() == old(self).usage() && final(self).clock() == old(self).clock(),
            old(self).entries().contains_key(name@) ==> ({
                let e = old(self).entries()[name@];
                let e2 = final(self).entries()[name@];
                let cleaned = old(self).usage().remove_keys(removed_ids(e).to_set());
                &&& r == picked(e)
                &&& final(self).entries().dom() == old(self).entries().dom()
                &&& forall|k: Seq<char>| k != name@ && #[trigger] old(self).entries().contains_key(k)
                    ==> final(self).entries()[k] == old(self).entries()[k]
                &&& exists|t: i64| is_reconciled(e, FunctionEntry { next_handle_index: e.next_handle_index, ..e2 }, t)
                &&& match r {
                    None => {
                        &&& e2.next_handle_index == e.next_handle_index
                        &&& final(self).usage() == cleaned
                        &&& final(self).clock() == old(self).clock()
                    },
                    Some(h) => {
                        &&& e2.next_handle_index == (if e.next_handle_index == u64::MAX { 0 } else { (e.next_handle_index + 1) as u64 })
                        &&& final(self).usage() == cleaned.insert(h.id, tick_after(old(self).clock()))
                        &&& final(self).clock() == clock_after(old(self).clock())
                    },
                }
            }),
    {
        let now = now_unix_ms();
        let r = self.get_handle_at(name, now);
        proof {
            if old(self).entries().contains_key(name@) {
                let e = old(self).entries()[name@];
                let e2 = self.entries()[name@];
                let e3 = FunctionEntry { next_handle_index: e.next_handle_index, ..e2 };
                assert(is_reconciled(e, e3, now));
                assert(live_handles(e2) == live_handles(e3));
                assert(live_handles(e3) =~= serving(e));
                assert(status_after_reconcile(e) == e2.status);
            }
        }
        r
    }

    /// The isolate a request for `name` is routed to at time `now_ms`: the
    /// entry's dead isolates are dropped first (and forgotten); a function
    /// that is not running gets none; otherwise its isolates take turns,
    /// primary first, and the one chosen is marked used.
    pub fn get_handle_at(&mut self, name: &str, now_ms: i64) -> (r: Option<IsolateHandle>)
        ensures
            final(self).pool_settings() == old(self).pool_settings(),
            final(self).default_limits() == old(self).default_limits(),
            final(self).defaults() == old(self).defaults(),
            !old(self).entries().contains_key(name@) ==> r is None && final(self).entries() == old(self).entries()
                && final(self).usage() == old(self).usage() && final(self).clock() == old(self).clock(),
            old(self).entries().contains_key(name@) ==> ({
                let e = old(self).entries()[name@];
                let e2 = final(self).entries()[name@];
                let cleaned = old(self).usage().remove_keys(removed_ids(e).to_set());
                &&& final(self).entries().dom() == old(self).entries().dom()
                &&& forall|k: Seq<char>| k != name@ && #[trigger] old(self).entries().contains_key(k)
                    ==> final(self).entries()[k] == old(self).entries()[k]
                &&& is_reconciled(e, FunctionEntry { next_handle_index: e.next_handle_index, ..e2 }, now_ms)
                &&& if status_after_reconcile(e) != FunctionStatus::Running || live_handles(e2).len() == 0 {
                    &&& r is None
                    &&& e2.next_handle_index == e.next_handle_index
                    &&& final(self).usage() == cleaned
                    &&& final(self).clock() == old(self).clock()
                } else {
                    let hs = live_handles(e2);
                    let h = hs[((e.next_handle_index as usize) as int) % (hs.len() as int)];
                    &&& r == Some(h)
                    &&& e2.next_handle_index == (if e.next_handle_index == u64::MAX { 0 } else { (e.next_handle_index + 1) as u64 })
                    &&& final(self).usage() == cleaned.insert(h.id, tick_after(old(self).clock()))
                    &&& final(self).clock() == clock_after(old(self).clock())
                }
            }),
    {
        let taken = functions_take(&mut self.functions, name);
        let mut entry = match taken {
            None => return None,
            Some(e) => e,
        };
        let ghost e0 = entry;
        let removed = reconcile_entry_status(&mut entry, now_ms);
        self.forget_usage(&removed);
        proof {
            assert(removed@.to_set() == removed_ids(e0).to_set());
        }
        if entry.status != FunctionStatus::Running {
            functions_put(&mut self.functions, name.to_string(), entry);
            proof {
                assert(self.entries() =~= old(self).entries().insert(name@, entry));
            }
            return None;
        }
        let mut handles: Vec<IsolateHandle> = Vec::new();
        match entry.isolate_handle {
            Some(h) => {
                if h.alive {
                    handles.push(h);
                }
            },
            None => {},
        }
        let mut i: usize = 0;
        let ghost base = handles@;
        while i < entry.extra_isolate_handles.len()
            invariant
                i <= entry.extra_isolate_handles.len(),
                handles@ == base + entry.extra_isolate_handles@.take(i as int),
            decreases entry.extra_isolate_handles.len() - i,
        {
            handles.push(entry.extra_isolate_handles[i]);
            proof {
                assert(entry.extra_isolate_handles@.take(i + 1) =~= entry.extra_isolate_handles@.take(i as int).push(entry.extra_isolate_handles@[i as int]));
            }
            i = i + 1;
        }
        proof {
            assert(entry.extra_isolate_handles@.take(i as int) =~= entry.extra_isolate_handles@);
            assert(handles@ =~= live_handles(entry));
        }
        if handles.len() == 0 {
            functions_put(&mut self.functions, name.to_string(), entry);
            proof {
                assert(self.entries() =~= old(self).entries().insert(name@, entry));
            }
            return None;
        }
        let idx = (entry.next_handle_index as usize) % handles.len();
        let ghost before_bump = entry;
        entry.next_handle_index = entry.next_handle_index.wrapping_add(1);
        let selected = handles[idx];
        proof {
            assert(live_handles(entry) == live_handles(before_bump));
            assert(FunctionEntry { next_handle_index: e0.next_handle_index, ..entry } == before_bump);
        }
        functions_put(&mut self.functions, name.to_string(), entry);
        self.mark_handle_used(selected.id);
        proof {
            assert(self.entries() =~= old(self).entries().insert(name@, entry));
        }
        Some(selected)
    }
}

} // verus!
