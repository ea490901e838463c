//! Admission control for outbound connections ("egress leases").
//!
//! A lease is granted to a (tenant, execution) pair when the process still has
//! file-descriptor headroom, the adaptive active-lease limit is not reached,
//! the tenant is below its own cap and the token bucket has a token. The
//! manager keeps, at every step, the number of active leases and the per-tenant
//! counts equal to what the lease table holds.
//!
//! Time is handed in by the caller as microseconds on a monotonic clock, and
//! the file-descriptor figures as plain counts; the token bucket counts in
//! millionths of a token.

use vstd::prelude::*;
use std::collections::HashMap;
use vstd::std_specs::iter::IteratorSpec;

use crate::metrics::add_wrap;
use crate::tenant_table::{
    TenantTable, tenant_table, table_entries, table_get, table_insert, table_len, table_new, table_remove,
};

verus! {

broadcast use vstd::std_specs::hash::group_hash_axioms;

/// Millionths of a token in one token.
pub const MICROS_PER_TOKEN: u128 = 1_000_000;

/// Tuning of the connection manager.
#[derive(Debug, Clone, Copy)]
pub struct ConnectionManagerConfig {
    /// File descriptors always held back from outbound use.
    pub fd_reserved_absolute: usize,
    /// Share of the soft descriptor limit held back, in thousandths.
    pub fd_reserved_ratio_permille: u64,
    /// Waiters allowed in the acquisition queue before new callers are refused.
    pub queue_max_waiters: usize,
    /// Time a caller waits for a lease when it gives no timeout of its own.
    pub default_wait_timeout_ms: u64,
    /// Leases one tenant may hold at once.
    pub per_tenant_max_active: usize,
    /// Age after which a lease is reaped.
    pub lease_hard_ttl_ms: u64,
    /// Lowest token refill rate of the admission bucket (tokens per second).
    pub min_token_refill_per_sec: u64,
}

impl ConnectionManagerConfig {
    /// The production defaults.
    pub fn default_config() -> (c: Self)
        ensures
            c.fd_reserved_absolute == 512,
            c.fd_reserved_ratio_permille == 200,
            c.queue_max_waiters == 50_000,
            c.default_wait_timeout_ms == 75,
            c.per_tenant_max_active == 2_048,
            c.lease_hard_ttl_ms == 300_000,
            c.min_token_refill_per_sec == 256,
    {
        ConnectionManagerConfig {
            fd_reserved_absolute: 512,
            fd_reserved_ratio_permille: 200,
            queue_max_waiters: 50_000,
            default_wait_timeout_ms: 75,
            per_tenant_max_active: 2_048,
            lease_hard_ttl_ms: 300_000,
            min_token_refill_per_sec: 256,
        }
    }
}

/// Why a lease was not granted.
#[derive(Debug, PartialEq, Eq)]
pub enum AcquireError {
    Backpressure,
    Timeout,
    Internal(String),
}

/// One granted lease.
#[derive(Debug)]
pub struct LeaseMeta {
    pub tenant: String,
    pub execution_id: String,
    pub created_at_us: u64,
}

/// Admission token bucket; `tokens_micro` counts millionths of a token.
#[derive(Debug, Clone, Copy, PartialEq, Eq)]
pub struct TokenBucketState {
    pub tokens_micro: u128,
    pub capacity: u64,
    pub refill_per_sec: u64,
    pub last_refill_us: u64,
}

/// Leases held per tenant, as reported by `snapshot`.
#[derive(Debug, Clone, PartialEq, Eq)]
pub struct TenantActiveSnapshot {
    pub tenant: String,
    pub active: u64,
}

/// The token bucket as reported by `snapshot`.
#[derive(Debug, Clone, Copy, PartialEq, Eq)]
pub struct TokenBucketSnapshot {
    pub tokens_micro: u128,
    pub capacity: u64,
    pub refill_per_sec: u64,
}

/// Everything `snapshot` reports.
#[derive(Debug, Clone)]
pub struct ConnectionManagerSnapshot {
    pub soft_limit: u64,
    pub open_fd_count: u64,
    pub reserved_fd: u64,
    pub outbound_fd_budget: u64,
    pub adaptive_active_limit: u64,
    pub active_leases: u64,
    pub queued_waiters: u64,
    pub total_acquired: u64,
    pub total_released: u64,
    pub total_rejected: u64,
    pub total_timeouts: u64,
    pub total_reaped: u64,
    pub known_tenants: u64,
    pub top_tenants_by_active: Vec<TenantActiveSnapshot>,
    pub token_bucket: TokenBucketSnapshot,
}

pub open spec fn min_int(a: int, b: int) -> int {
    if a <= b { a } else { b }
}

pub open spec fn max_int(a: int, b: int) -> int {
    if a >= b { a } else { b }
}

/// Descriptors reserved for the rest of the process under soft limit `soft`.
pub open spec fn spec_reserved_fd(cfg: ConnectionManagerConfig, soft: usize) -> int {
    if soft == 0 {
        cfg.fd_reserved_absolute as int
    } else {
        max_int(
            cfg.fd_reserved_absolute as int,
            min_int(usize::MAX as int, (soft * cfg.fd_reserved_ratio_permille + 500) / 1000),
        )
    }
}

/// The descriptors held back for the process are the larger of the two
/// floors: never fewer than `fd_reserved_absolute`, never fewer than the
/// soft limit's share `soft * permille / 1000` rounded half up (unless that
/// share does not fit a `usize`, when all are held back), and no more than
/// the larger of the two.
pub proof fn lemma_reserved_fd_is_larger_floor(cfg: ConnectionManagerConfig, soft: usize)
    ensures
        spec_reserved_fd(cfg, soft) >= cfg.fd_reserved_absolute,
        soft > 0 ==> (spec_reserved_fd(cfg, soft) == usize::MAX
            || 1000 * spec_reserved_fd(cfg, soft) + 500 > soft * cfg.fd_reserved_ratio_permille),
        spec_reserved_fd(cfg, soft) == cfg.fd_reserved_absolute
            || (soft > 0 && 1000 * spec_reserved_fd(cfg, soft) <= soft * cfg.fd_reserved_ratio_permille + 500),
        spec_reserved_fd(cfg, soft) <= usize::MAX,
        soft == 0 ==> spec_reserved_fd(cfg, soft) == cfg.fd_reserved_absolute,
{
    if soft > 0 {
        let x = soft * cfg.fd_reserved_ratio_permille + 500;
        let q = x / 1000;
        assert(1000 * q <= x && x < 1000 * q + 1000) by (nonlinear_arith)
            requires q == x / 1000, x >= 0;
    }
}

/// Quarters of the outbound budget usable under the current descriptor pressure.
pub open spec fn spec_pressure_quarters(soft: usize, open: usize) -> int {
    if 10 * open >= 9 * soft {
        1
    } else if 10 * open >= 8 * soft {
        2
    } else if 10 * open >= 7 * soft {
        3
    } else {
        4
    }
}

/// The adaptive cap on concurrently active leases.
pub open spec fn spec_adaptive_limit(soft: usize, open: usize, reserved: int) -> int {
    if soft == 0 {
        1024
    } else {
        let budget = if soft > reserved { soft - reserved } else { 0 };
        if budget == 0 {
            1
        } else {
            max_int(1, (budget * spec_pressure_quarters(soft, open) + 2) / 4)
        }
    }
}

impl TokenBucketState {
    pub open spec fn wf(self) -> bool {
        &&& self.capacity >= 1
        &&& self.tokens_micro <= self.capacity * MICROS_PER_TOKEN
    }

    /// The bucket after refilling up to `now_us`.
    pub open spec fn refilled(self, now_us: u64) -> TokenBucketState {
        if now_us > self.last_refill_us {
            let elapsed = now_us - self.last_refill_us;
            TokenBucketState {
                tokens_micro: min_int(
                    self.tokens_micro + elapsed * self.refill_per_sec,
                    self.capacity * MICROS_PER_TOKEN,
                ) as u128,
                last_refill_us: now_us,
                ..self
            }
        } else {
            self
        }
    }

    /// The bucket after its capacity and rate are set (both at least 1).
    pub open spec fn profiled(self, capacity: u64, refill_per_sec: u64) -> TokenBucketState {
        let cap = max_int(capacity as int, 1);
        TokenBucketState {
            capacity: cap as u64,
            refill_per_sec: max_int(refill_per_sec as int, 1) as u64,
            tokens_micro: min_int(self.tokens_micro as int, cap * MICROS_PER_TOKEN) as u128,
            last_refill_us: self.last_refill_us,
        }
    }

    /// Whether taking one token at `now_us` succeeds.
    pub open spec fn grants(self, now_us: u64) -> bool {
        self.refilled(now_us).tokens_micro >= MICROS_PER_TOKEN
    }

    /// The bucket after an attempt to take one token at `now_us`.
    pub open spec fn after_take(self, now_us: u64) -> TokenBucketState {
        let r = self.refilled(now_us);
        if r.tokens_micro >= MICROS_PER_TOKEN {
            TokenBucketState { tokens_micro: (r.tokens_micro - MICROS_PER_TOKEN) as u128, ..r }
        } else {
            r
        }
    }

    fn new(now_us: u64) -> (b: Self)
        ensures
            b.wf(),
            b.tokens_micro == MICROS_PER_TOKEN,
            b.capacity == 1,
            b.refill_per_sec == 1,
            b.last_refill_us == now_us,
    {
        TokenBucketState {
            tokens_micro: MICROS_PER_TOKEN,
            capacity: 1,
            refill_per_sec: 1,
            last_refill_us: now_us,
        }
    }

    fn refill(&mut self, now_us: u64)
        requires
            old(self).wf(),
        ensures
            *final(self) == old(self).refilled(now_us),
            final(self).wf(),
    {
        let elapsed = now_us.saturating_sub(self.last_refill_us);
        if elapsed > 0 {
            let cap_micro = (self.capacity as u128) * MICROS_PER_TOKEN;
            assert((elapsed as u128) * (self.refill_per_sec as u128) <= u64::MAX as int * u64::MAX as int)
                by (nonlinear_arith)
                requires elapsed <= u64::MAX, self.refill_per_sec <= u64::MAX;
            let added = (elapsed as u128) * (self.refill_per_sec as u128);
            let total = match self.tokens_micro.checked_add(added) {
                Some(t) => if t < cap_micro { t } else { cap_micro },
                None => cap_micro,
            };
            self.tokens_micro = total;
            self.last_refill_us = now_us;
        }
    }

    fn set_profile(&mut self, capacity: u64, refill_per_sec: u64)
        requires
            old(self).wf(),
        ensures
            *final(self) == old(self).profiled(capacity, refill_per_sec),
            final(self).wf(),
    {
        self.capacity = if capacity >= 1 { capacity } else { 1 };
        self.refill_per_sec = if refill_per_sec >= 1 { refill_per_sec } else { 1 };
        let cap_micro = (self.capacity as u128) * MICROS_PER_TOKEN;
        if self.tokens_micro > cap_micro {
            self.tokens_micro = cap_micro;
        }
    }

    fn try_take(&mut self, now_us: u64) -> (granted: bool)
        requires
            old(self).wf(),
        ensures
            granted == old(self).grants(now_us),
            *final(self) == old(self).after_take(now_us),
            final(self).wf(),
    {
        self.refill(now_us);
        if self.tokens_micro >= MICROS_PER_TOKEN {
            self.tokens_micro = self.tokens_micro - MICROS_PER_TOKEN;
            true
        } else {
            false
        }
    }
}

/// Ids of the leases in `leases` held by `tenant`.
pub open spec fn tenant_lease_ids(leases: Map<u64, LeaseMeta>, tenant: Seq<char>) -> Set<u64> {
    leases.dom().filter(|id: u64| leases[id].tenant@ == tenant)
}

/// Number of leases in `leases` held by `tenant`.
pub open spec fn lease_count(leases: Map<u64, LeaseMeta>, tenant: Seq<char>) -> nat {
    tenant_lease_ids(leases, tenant).len()
}

/// Ids of the leases in `leases` that belong to execution `execution_id`.
pub open spec fn execution_lease_ids(leases: Map<u64, LeaseMeta>, execution_id: Seq<char>) -> Set<u64> {
    leases.dom().filter(|id: u64| leases[id].execution_id@ == execution_id)
}

/// Ids of the leases in `leases` older than `ttl_ms` at `now_us`.
pub open spec fn stale_lease_ids(leases: Map<u64, LeaseMeta>, ttl_ms: u64, now_us: u64) -> Set<u64> {
    leases.dom().filter(
        |id: u64| now_us > leases[id].created_at_us && now_us - leases[id].created_at_us > ttl_ms * 1000,
    )
}

/// Reaping takes exactly the leases held longer than the TTL: a lease created
/// at `c` is gone when `now_us` is past `c + ttl`, and otherwise stays as it
/// was; nothing else changes, and the count is the number of leases gone.
pub proof fn lemma_reap_removes_exactly_expired(
    before: Map<u64, LeaseMeta>,
    after: Map<u64, LeaseMeta>,
    ttl_ms: u64,
    now_us: u64,
    count: int,
)
    requires
        before.dom().finite(),
        after == before.remove_keys(stale_lease_ids(before, ttl_ms, now_us)),
        count == stale_lease_ids(before, ttl_ms, now_us).len(),
    ensures
        forall|id: u64| #[trigger] before.contains_key(id)
            ==> (after.contains_key(id) <==> before[id].created_at_us + ttl_ms * 1000 >= now_us),
        forall|id: u64| #[trigger] after.contains_key(id) ==> before.contains_key(id) && after[id] == before[id],
        count == before.dom().len() - after.dom().len(),
{
    let gone = stale_lease_ids(before, ttl_ms, now_us);
    assert(gone.subset_of(before.dom()));
    assert(after.dom() =~= before.dom().difference(gone));
    assert(before.dom().intersect(gone) =~= gone);
    vstd::set_lib::lemma_set_difference_len(before.dom(), gone);
    vstd::set_lib::lemma_len_subset(gone, before.dom());
}

/// The tenant table agrees with the lease table: a tenant has an entry exactly
/// when it holds a lease, and the entry is the number of leases it holds.
pub open spec fn tenant_counts_match(table: Map<Seq<char>, usize>, leases: Map<u64, LeaseMeta>) -> bool {
    &&& table.dom().finite()
    &&& forall|t: Seq<char>| #[trigger] table.contains_key(t) <==> lease_count(leases, t) > 0
    &&& forall|t: Seq<char>| #[trigger] table.contains_key(t) ==> table[t] == lease_count(leases, t)
}

proof fn lemma_lease_count_insert(leases: Map<u64, LeaseMeta>, id: u64, meta: LeaseMeta, t: Seq<char>)
    requires
        leases.dom().finite(),
        !leases.contains_key(id),
    ensures
        lease_count(leases.insert(id, meta), t) == lease_count(leases, t) + (if meta.tenant@ == t { 1int } else { 0 }),
{
    let m2 = leases.insert(id, meta);
    let f1 = tenant_lease_ids(leases, t);
    let f2 = tenant_lease_ids(m2, t);
    vstd::set_lib::lemma_len_subset(f1, leases.dom());
    if meta.tenant@ == t {
        assert(f2 =~= f1.insert(id));
        assert(!f1.contains(id));
    } else {
        assert(f2 =~= f1);
    }
}

proof fn lemma_lease_count_remove(leases: Map<u64, LeaseMeta>, id: u64, t: Seq<char>)
    requires
        leases.dom().finite(),
        leases.contains_key(id),
    ensures
        lease_count(leases.remove(id), t) == lease_count(leases, t) - (if leases[id].tenant@ == t { 1int } else { 0 }),
{
    let m2 = leases.remove(id);
    let f1 = tenant_lease_ids(leases, t);
    let f2 = tenant_lease_ids(m2, t);
    vstd::set_lib::lemma_len_subset(f1, leases.dom());
    if leases[id].tenant@ == t {
        assert(f2 =~= f1.remove(id));
        assert(f1.contains(id));
    } else {
        assert(f2 =~= f1);
    }
}

proof fn lemma_lease_count_le_len(leases: Map<u64, LeaseMeta>, t: Seq<char>)
    requires
        leases.dom().finite(),
    ensures
        lease_count(leases, t) <= leases.dom().len(),
{
    vstd::set_lib::lemma_len_subset(tenant_lease_ids(leases, t), leases.dom());
}

/// The outbound connection manager.
pub struct ConnectionManager {
    config: ConnectionManagerConfig,
    next_lease_id: u64,
    active_leases: usize,
    queued_waiters: usize,
    total_acquired: u64,
    total_released: u64,
    total_rejected: u64,
    total_timeouts: u64,
    total_reaped: u64,
    leases: HashMap<u64, LeaseMeta>,
    tenant_active: TenantTable,
    token_bucket: TokenBucketState,
}

impl ConnectionManager {
    pub closed spec fn config(&self) -> ConnectionManagerConfig {
        self.config
    }

    /// The lease table: lease id to lease.
    pub closed spec fn leases(&self) -> Map<u64, LeaseMeta> {
        self.leases@
    }

    /// The per-tenant table: tenant to the number of leases it holds.
    pub closed spec fn tenants(&self) -> Map<Seq<char>, usize> {
        tenant_table(self.tenant_active)
    }

    pub closed spec fn active_leases(&self) -> usize {
        self.active_leases
    }

    pub closed spec fn queued_waiters(&self) -> usize {
        self.queued_waiters
    }

    pub closed spec fn next_lease_id(&self) -> u64 {
        self.next_lease_id
    }

    pub closed spec fn total_acquired(&self) -> u64 {
        self.total_acquired
    }

    pub closed spec fn total_released(&self) -> u64 {
        self.total_released
    }

    pub closed spec fn total_rejected(&self) -> u64 {
        self.total_rejected
    }

    pub closed spec fn total_timeouts(&self) -> u64 {
        self.total_timeouts
    }

    pub closed spec fn total_reaped(&self) -> u64 {
        self.total_reaped
    }

    pub closed spec fn token_bucket(&self) -> TokenBucketState {
        self.token_bucket
    }

    /// The manager's invariant: the active count is the size of the lease
    /// table, the tenant table matches the leases, no tenant holds more than
    /// its cap, every lease acquired is either still active or released,
    /// every lease id lies below the next id to hand out, and the token
    /// bucket is well formed.
    pub closed spec fn wf(&self) -> bool {
        &&& self.leases@.dom().finite()
        &&& self.active_leases == self.leases@.len()
        &&& self.next_lease_id >= 1
        &&& forall|id: u64| #[trigger] self.leases@.contains_key(id) ==> 1 <= id < self.next_lease_id
        &&& tenant_counts_match(tenant_table(self.tenant_active), self.leases@)
        &&& forall|t: Seq<char>| #[trigger] tenant_table(self.tenant_active).contains_key(t)
            ==> tenant_table(self.tenant_active)[t] <= self.config.per_tenant_max_active
        &&& self.total_acquired == add_wrap(self.total_released, self.active_leases as int)
        &&& self.token_bucket.wf()
    }

    /// What the invariant promises callers: every lease acquired is active or
    /// released (counted as the atomic counters wrap), the active count is
    /// the number of leases, and every tenant listed holds between one lease
    /// and its cap, as many as the lease table gives it.
    pub proof fn lemma_invariant_counts(&self)
        requires
            self.wf(),
        ensures
            self.total_acquired() == add_wrap(self.total_released(), self.active_leases() as int),
            self.active_leases() == self.leases().len(),
            forall|t: Seq<char>| #[trigger] self.tenants().contains_key(t) ==> {
                &&& 1 <= self.tenants()[t] <= self.config().per_tenant_max_active
                &&& self.tenants()[t] == lease_count(self.leases(), t)
            },
    {
    }

    /// Everything but the queue and the timeout counter is as in `other`.
    pub open spec fn same_leasing(&self, other: &ConnectionManager) -> bool {
        &&& self.config() == other.config()
        &&& self.leases() == other.leases()
        &&& self.tenants() == other.tenants()
        &&& self.active_leases() == other.active_leases()
        &&& self.next_lease_id() == other.next_lease_id()
        &&& self.total_acquired() == other.total_acquired()
        &&& self.total_released() == other.total_released()
        &&& self.total_reaped() == other.total_reaped()
        &&& self.token_bucket() == other.token_bucket()
    }

    /// A fresh manager created at time `now_us`.
    pub fn new(config: ConnectionManagerConfig, now_us: u64) -> (m: Self)
        ensures
            m.wf(),
            m.config() == config,
            m.leases() == Map::<u64, LeaseMeta>::empty(),
            m.tenants() == Map::<Seq<char>, usize>::empty(),
            m.active_leases() == 0,
            m.queued_waiters() == 0,
            m.next_lease_id() == 1,
            m.total_acquired() == 0,
            m.total_released() == 0,
            m.total_rejected() == 0,
            m.total_timeouts() == 0,
            m.total_reaped() == 0,
            m.token_bucket().tokens_micro == MICROS_PER_TOKEN,
            m.token_bucket().capacity == 1,
            m.token_bucket().refill_per_sec == 1,
            m.token_bucket().last_refill_us == now_us,
    {
        let leases: HashMap<u64, LeaseMeta> = HashMap::new();
        let tenant_active = table_new();
        proof {
            assert forall|t: Seq<char>| #[trigger] tenant_table(tenant_active).contains_key(t)
                <==> lease_count(leases@, t) > 0 by {
                assert(leases@.dom().filter(|id: u64| leases@[id].tenant@ == t) =~= Set::<u64>::empty());
            }
        }
        ConnectionManager {
            config,
            next_lease_id: 1,
            active_leases: 0,
            queued_waiters: 0,
            total_acquired: 0,
            total_released: 0,
            total_rejected: 0,
            total_timeouts: 0,
            total_reaped: 0,
            leases,
            tenant_active,
            token_bucket: TokenBucketState::new(now_us),
        }
    }

    /// The wait deadline a caller gets, and its place in the queue: refused
    /// with `Backpressure` when the queue is full.
    pub fn begin_acquire(&mut self, now_us: u64, timeout_override_ms: Option<u64>) -> (r: Result<u64, AcquireError>)
        requires
            old(self).wf(),
        ensures
            final(self).wf(),
            final(self).same_leasing(old(self)),
            final(self).total_timeouts() == old(self).total_timeouts(),
            old(self).queued_waiters() >= old(self).config().queue_max_waiters ==> {
                &&& r == Err::<u64, AcquireError>(AcquireError::Backpressure)
                &&& final(self).total_rejected() == add_wrap(old(self).total_rejected(), 1)
                &&& final(self).queued_waiters() == old(self).queued_waiters()
            },
            old(self).queued_waiters() < old(self).config().queue_max_waiters ==> {
                let timeout_ms = match timeout_override_ms {
                    Some(t) => t,
                    None => old(self).config().default_wait_timeout_ms,
                };
                &&& r == Ok::<u64, AcquireError>(
                    min_int(now_us + timeout_ms * 1000, u64::MAX as int) as u64)
                &&& final(self).total_rejected() == old(self).total_rejected()
                &&& final(self).queued_waiters() == old(self).queued_waiters() + 1
            },
    {
        if self.queued_waiters >= self.config.queue_max_waiters {
            self.total_rejected = self.total_rejected.wrapping_add(1);
            return Err(AcquireError::Backpressure);
        }
        self.queued_waiters = self.queued_waiters + 1;
        let timeout_ms = match timeout_override_ms {
            Some(t) => t,
            None => self.config.default_wait_timeout_ms,
        };
        let deadline = (now_us as u128) + (timeout_ms as u128) * 1000;
        Ok(if deadline > u64::MAX as u128 { u64::MAX } else { deadline as u64 })
    }

    /// Leaves the acquisition queue.
    pub fn end_acquire(&mut self)
        requires
            old(self).wf(),
            old(self).queued_waiters() > 0,
        ensures
            final(self).wf(),
            final(self).same_leasing(old(self)),
            final(self).total_rejected() == old(self).total_rejected(),
            final(self).total_timeouts() == old(self).total_timeouts(),
            final(self).queued_waiters() == old(self).queued_waiters() - 1,
    {
        self.queued_waiters = self.queued_waiters - 1;
    }

    /// After an attempt was refused with backpressure: `None` (and one more
    /// timeout counted) once the deadline has passed, otherwise how long to
    /// wait before the next attempt (at most 10 ms).
    pub fn after_backpressure(&mut self, now_us: u64, deadline_us: u64) -> (r: Option<u64>)
        requires
            old(self).wf(),
        ensures
            final(self).wf(),
            final(self).same_leasing(old(self)),
            final(self).total_rejected() == old(self).total_rejected(),
            final(self).queued_waiters() == old(self).queued_waiters(),
            now_us >= deadline_us ==> r is None && final(self).total_timeouts() == add_wrap(old(self).total_timeouts(), 1),
            now_us < deadline_us ==> r == Some(min_int(deadline_us - now_us, 10_000) as u64)
                && final(self).total_timeouts() == old(self).total_timeouts(),
    {
        if now_us >= deadline_us {
            self.total_timeouts = self.total_timeouts.wrapping_add(1);
            return None;
        }
        let remaining = deadline_us - now_us;
        Some(if remaining < 10_000 { remaining } else { 10_000 })
    }

    /// Descriptors reserved for the rest of the process.
    fn reserved_fd(&self, soft_limit: usize) -> (r: usize)
        ensures
            r == spec_reserved_fd(self.config, soft_limit),
    {
        if soft_limit == 0 {
            return self.config.fd_reserved_absolute;
        }
        let permille = self.config.fd_reserved_ratio_permille;
        assert((soft_limit as u128) * (permille as u128) <= u64::MAX as int * u64::MAX as int)
            by (nonlinear_arith)
            requires soft_limit <= u64::MAX, permille <= u64::MAX;
        let scaled = (soft_limit as u128) * (permille as u128) + 500;
        let ratio_reserved_wide = scaled / 1000;
        let ratio_reserved: usize = if ratio_reserved_wide > usize::MAX as u128 {
            usize::MAX
        } else {
            ratio_reserved_wide as usize
        };
        if self.config.fd_reserved_absolute >= ratio_reserved {
            self.config.fd_reserved_absolute
        } else {
            ratio_reserved
        }
    }

    /// The adaptive cap on concurrently active leases.
    fn adaptive_active_limit(soft_limit: usize, open_fd_count: usize, reserved_fd: usize) -> (r: usize)
        ensures
            r == spec_adaptive_limit(soft_limit, open_fd_count, reserved_fd as int),
            r >= 1,
    {
        if soft_limit == 0 {
            return 1024;
        }
        let budget = soft_limit.saturating_sub(reserved_fd);
        if budget == 0 {
            return 1;
        }
        let open_w = open_fd_count as u128;
        let soft_w = soft_limit as u128;
        let quarters: u128 = if 10 * open_w >= 9 * soft_w {
            1
        } else if 10 * open_w >= 8 * soft_w {
            2
        } else if 10 * open_w >= 7 * soft_w {
            3
        } else {
            4
        };
        let scaled = (budget as u128) * quarters + 2;
        let limit = scaled / 4;
        assert(limit <= budget) by (nonlinear_arith)
            requires limit == ((budget as u128) * quarters + 2) / 4, 1 <= quarters <= 4, budget >= 1;
        if limit >= 1 { limit as usize } else { 1 }
    }

    /// One admission attempt for `tenant` / `execution_id` at `now_us`, with
    /// the process's soft descriptor limit and open descriptor count.
    pub fn try_acquire_now(
        &mut self,
        tenant: &str,
        execution_id: &str,
        soft_limit: usize,
        open_fds: usize,
        now_us: u64,
    ) -> (r: Result<u64, AcquireError>)
        requires
            old(self).wf(),
        ensures
            final(self).wf(),
            final(self).config() == old(self).config(),
            final(self).queued_waiters() == old(self).queued_waiters(),
            final(self).total_timeouts() == old(self).total_timeouts(),
            final(self).total_released() == old(self).total_released(),
            final(self).total_reaped() == old(self).total_reaped(),
            ({
                let cfg = old(self).config();
                let reserved = spec_reserved_fd(cfg, soft_limit);
                let limit = spec_adaptive_limit(soft_limit, open_fds, reserved);
                let capacity = max_int(limit, 1) as u64;
                let bucket = old(self).token_bucket().profiled(
                    capacity, max_int(capacity as int, cfg.min_token_refill_per_sec as int) as u64);
                let blocked = (soft_limit > 0 && min_int(open_fds + reserved + 1, usize::MAX as int) > soft_limit)
                    || old(self).active_leases() >= limit
                    || lease_count(old(self).leases(), tenant@) >= cfg.per_tenant_max_active;
                if blocked {
                    &&& r == Err::<u64, AcquireError>(AcquireError::Backpressure)
                    &&& final(self).leases() == old(self).leases()
                    &&& final(self).tenants() == old(self).tenants()
                    &&& final(self).next_lease_id() == old(self).next_lease_id()
                    &&& final(self).total_acquired() == old(self).total_acquired()
                    &&& final(self).total_rejected() == add_wrap(old(self).total_rejected(), 1)
                    &&& final(self).token_bucket() == old(self).token_bucket()
                } else if !bucket.grants(now_us) {
                    &&& r == Err::<u64, AcquireError>(AcquireError::Backpressure)
                    &&& final(self).leases() == old(self).leases()
                    &&& final(self).tenants() == old(self).tenants()
                    &&& final(self).next_lease_id() == old(self).next_lease_id()
                    &&& final(self).total_acquired() == old(self).total_acquired()
                    &&& final(self).total_rejected() == add_wrap(old(self).total_rejected(), 1)
                    &&& final(self).token_bucket() == bucket.after_take(now_us)
                } else if old(self).next_lease_id() == u64::MAX {
                    &&& r is Err && r->Err_0 is Internal
                    &&& final(self).leases() == old(self).leases()
                    &&& final(self).tenants() == old(self).tenants()
                    &&& final(self).next_lease_id() == old(self).next_lease_id()
                    &&& final(self).total_acquired() == old(self).total_acquired()
                    &&& final(self).total_rejected() == old(self).total_rejected()
                    &&& final(self).token_bucket() == bucket.after_take(now_us)
                } else {
                    let id = old(self).next_lease_id();
                    &&& r == Ok::<u64, AcquireError>(id)
                    &&& !old(self).leases().contains_key(id)
                    &&& final(self).leases().dom() == old(self).leases().dom().insert(id)
                    &&& forall|k: u64| #[trigger] old(self).leases().contains_key(k)
                            ==> final(self).leases()[k] == old(self).leases()[k]
                    &&& final(self).leases()[id].tenant@ == tenant@
                    &&& final(self).leases()[id].execution_id@ == execution_id@
                    &&& final(self).leases()[id].created_at_us == now_us
                    &&& final(self).next_lease_id() == id + 1
                    &&& final(self).active_leases() == old(self).active_leases() + 1
                    &&& final(self).total_acquired() == add_wrap(old(self).total_acquired(), 1)
                    &&& final(self).total_rejected() == old(self).total_rejected()
                    &&& final(self).token_bucket() == bucket.after_take(now_us)
                    &&& lease_count(final(self).leases(), tenant@) == lease_count(old(self).leases(), tenant@) + 1
                    &&& lease_count(final(self).leases(), tenant@) <= cfg.per_tenant_max_active
                }
            }),
    {
        let reserved_fd = self.reserved_fd(soft_limit);

        if soft_limit > 0 && open_fds.saturating_add(reserved_fd).saturating_add(1) > soft_limit {
            self.total_rejected = self.total_rejected.wrapping_add(1);
            return Err(AcquireError::Backpressure);
        }

        let adaptive_limit = Self::adaptive_active_limit(soft_limit, open_fds, reserved_fd);
        if self.active_leases >= adaptive_limit {
            self.total_rejected = self.total_rejected.wrapping_add(1);
            return Err(AcquireError::Backpressure);
        }

        let tenant_active = match table_get(&self.tenant_active, tenant) {
            Some(v) => v,
            None => 0,
        };
        if tenant_active >= self.config.per_tenant_max_active {
            self.total_rejected = self.total_rejected.wrapping_add(1);
            return Err(AcquireError::Backpressure);
        }

        let capacity = adaptive_limit as u64;
        let refill_per_sec = if capacity >= self.config.min_token_refill_per_sec {
            capacity
        } else {
            self.config.min_token_refill_per_sec
        };
        self.token_bucket.set_profile(capacity, refill_per_sec);
        if !self.token_bucket.try_take(now_us) {
            self.total_rejected = self.total_rejected.wrapping_add(1);
            return Err(AcquireError::Backpressure);
        }

        if self.next_lease_id == u64::MAX {
            return Err(AcquireError::Internal("lease id space exhausted".to_string()));
        }
        let lease_id = self.next_lease_id;
        self.next_lease_id = self.next_lease_id + 1;

        let ghost old_leases = self.leases@;
        let ghost old_table = tenant_table(self.tenant_active);
        let meta = LeaseMeta {
            tenant: tenant.to_string(),
            execution_id: execution_id.to_string(),
            created_at_us: now_us,
        };
        proof {
            lemma_lease_count_le_len(old_leases, tenant@);
        }
        self.leases.insert(lease_id, meta);
        table_insert(&mut self.tenant_active, tenant.to_string(), tenant_active + 1);
        self.active_leases = self.active_leases + 1;
        self.total_acquired = self.total_acquired.wrapping_add(1);

        proof {
            let new_leases = self.leases@;
            let new_table = tenant_table(self.tenant_active);
            assert(new_leases == old_leases.insert(lease_id, meta));
            assert forall|t: Seq<char>| #[trigger] new_table.contains_key(t)
                <==> lease_count(new_leases, t) > 0 by {
                lemma_lease_count_insert(old_leases, lease_id, meta, t);
            }
            assert forall|t: Seq<char>| #[trigger] new_table.contains_key(t)
                implies new_table[t] == lease_count(new_leases, t) by {
                lemma_lease_count_insert(old_leases, lease_id, meta, t);
            }
            lemma_lease_count_insert(old_leases, lease_id, meta, tenant@);
        }
        Ok(lease_id)
    }

    /// Releases lease `lease_id`; false when no such lease is held.
    pub fn release_lease(&mut self, lease_id: u64) -> (released: bool)
        requires
            old(self).wf(),
        ensures
            final(self).wf(),
            final(self).config() == old(self).config(),
            final(self).queued_waiters() == old(self).queued_waiters(),
            final(self).next_lease_id() == old(self).next_lease_id(),
            final(self).total_acquired() == old(self).total_acquired(),
            final(self).total_rejected() == old(self).total_rejected(),
            final(self).total_timeouts() == old(self).total_timeouts(),
            final(self).total_reaped() == old(self).total_reaped(),
            final(self).token_bucket() == old(self).token_bucket(),
            released == old(self).leases().contains_key(lease_id),
            released ==> {
                &&& final(self).leases() == old(self).leases().remove(lease_id)
                &&& final(self).active_leases() == old(self).active_leases() - 1
                &&& final(self).total_released() == add_wrap(old(self).total_released(), 1)
            },
            !released ==> {
                &&& final(self).leases() == old(self).leases()
                &&& final(self).tenants() == old(self).tenants()
                &&& final(self).active_leases() == old(self).active_leases()
                &&& final(self).total_released() == old(self).total_released()
            },
    {
        let ghost old_leases = self.leases@;
        let removed = self.leases.remove(&lease_id);
        let meta = match removed {
            Some(meta) => meta,
            None => {
                proof {
                    assert(self.leases@ =~= old_leases);
                }
                return false;
            },
        };
        proof {
            lemma_lease_count_remove(old_leases, lease_id, meta.tenant@);
        }
        let ghost mid_table = tenant_table(self.tenant_active);
        match table_get(&self.tenant_active, meta.tenant.as_str()) {
            Some(count) => {
                if count > 1 {
                    table_insert(&mut self.tenant_active, meta.tenant.clone(), count - 1);
                } else {
                    table_remove(&mut self.tenant_active, meta.tenant.as_str());
                }
            },
            None => {},
        }
        self.active_leases = self.active_leases - 1;
        self.total_released = self.total_released.wrapping_add(1);
        proof {
            let new_leases = self.leases@;
            let new_table = tenant_table(self.tenant_active);
            assert forall|t: Seq<char>| #[trigger] new_table.contains_key(t)
                <==> lease_count(new_leases, t) > 0 by {
                lemma_lease_count_remove(old_leases, lease_id, t);
            }
            assert forall|t: Seq<char>| #[trigger] new_table.contains_key(t)
                implies new_table[t] == lease_count(new_leases, t) by {
                lemma_lease_count_remove(old_leases, lease_id, t);
            }
        }
        true
    }

    /// Releases every lease whose id is in `ids` (distinct ids, all held).
    fn release_all(&mut self, ids: &Vec<u64>) -> (count: usize)
        requires
            old(self).wf(),
            ids@.no_duplicates(),
            forall|i: int| 0 <= i < ids.len() ==> #[trigger] old(self).leases().contains_key(ids[i]),
        ensures
            final(self).wf(),
            final(self).config() == old(self).config(),
            final(self).queued_waiters() == old(self).queued_waiters(),
            final(self).next_lease_id() == old(self).next_lease_id(),
            final(self).total_acquired() == old(self).total_acquired(),
            final(self).total_rejected() == old(self).total_rejected(),
            final(self).total_timeouts() == old(self).total_timeouts(),
            final(self).total_reaped() == old(self).total_reaped(),
            final(self).token_bucket() == old(self).token_bucket(),
            count == ids.len(),
            final(self).leases() == old(self).leases().remove_keys(ids@.to_set()),
            final(self).total_released() == add_wrap(old(self).total_released(), ids.len() as int),
    {
        let mut count: usize = 0;
        let n = ids.len();
        while count < n
            invariant
                self.wf(),
                n == ids.len(),
                count <= n,
                ids@.no_duplicates(),
                forall|i: int| 0 <= i < ids.len() ==> #[trigger] old(self).leases().contains_key(ids[i]),
                self.config() == old(self).config(),
                self.queued_waiters() == old(self).queued_waiters(),
                self.next_lease_id() == old(self).next_lease_id(),
                self.total_acquired() == old(self).total_acquired(),
                self.total_rejected() == old(self).total_rejected(),
                self.total_timeouts() == old(self).total_timeouts(),
                self.total_reaped() == old(self).total_reaped(),
                self.token_bucket() == old(self).token_bucket(),
                self.leases() == old(self).leases().remove_keys(ids@.take(count as int).to_set()),
                self.total_released() == add_wrap(old(self).total_released(), count as int),
            decreases n - count,
        {
            let id = ids[count];
            proof {
                assert(!ids@.take(count as int).contains(id)) by {
                    if ids@.take(count as int).contains(id) {
                        let j = choose|j: int| 0 <= j < count && ids@.take(count as int)[j] == id;
                        assert(ids@[j] == ids@[count as int]);
                    }
                }
                assert(self.leases().contains_key(id));
            }
            let ok = self.release_lease(id);
            proof {
                assert(ok);
                assert(ids@.take(count + 1) == ids@.take(count as int).push(id));
                assert(ids@.take(count + 1).to_set() =~= ids@.take(count as int).to_set().insert(id)) by {
                    broadcast use vstd::seq_lib::group_seq_properties;
                }
                assert(self.leases() =~= old(self).leases().remove_keys(ids@.take(count + 1).to_set()));
                assert(add_wrap(add_wrap(old(self).total_released(), count as int), 1)
                    == add_wrap(old(self).total_released(), count + 1));
            }
            count = count + 1;
        }
        proof {
            assert(ids@.take(n as int) == ids@);
        }
        count
    }

    /// The ids of all held leases, each once.
    fn lease_ids(&self) -> (r: Vec<u64>)
        ensures
            r@.to_set() == self.leases@.dom(),
            r@.no_duplicates(),
    {
        let mut r: Vec<u64> = Vec::new();
        let ghost ks = vstd::std_specs::hash::spec_keys_iter(&self.leases).remaining();
        for k in it: self.leases.keys()
            invariant
                it.seq() == ks,
                r@ == ks.take(it.index()).map_values(|x: &u64| *x),
        {
            r.push(*k);
        }
        proof {
            assert(ks.take(ks.len() as int) == ks);
            assert(r@ == ks.unref());
        }
        r
    }

    /// Releases every lease held by execution `execution_id`; returns how many.
    pub fn release_execution_leases(&mut self, execution_id: &str) -> (count: usize)
        requires
            old(self).wf(),
        ensures
            final(self).wf(),
            final(self).config() == old(self).config(),
            final(self).queued_waiters() == old(self).queued_waiters(),
            final(self).next_lease_id() == old(self).next_lease_id(),
            final(self).total_acquired() == old(self).total_acquired(),
            final(self).total_rejected() == old(self).total_rejected(),
            final(self).total_timeouts() == old(self).total_timeouts(),
            final(self).total_reaped() == old(self).total_reaped(),
            final(self).token_bucket() == old(self).token_bucket(),
            count == execution_lease_ids(old(self).leases(), execution_id@).len(),
            final(self).leases() == old(self).leases().remove_keys(
                execution_lease_ids(old(self).leases(), execution_id@)),
            final(self).total_released() == add_wrap(old(self).total_released(), count as int),
    {
        let ghost target = execution_lease_ids(self.leases@, execution_id@);
        let wanted = execution_id.to_owned();
        let keys = self.lease_ids();
        let mut ids: Vec<u64> = Vec::new();
        let n = keys.len();
        let mut i: usize = 0;
        while i < n
            invariant
                n == keys.len(),
                i <= n,
                wanted@ == execution_id@,
                keys@.to_set() == self.leases@.dom(),
                keys@.no_duplicates(),
                target == execution_lease_ids(self.leases@, execution_id@),
                ids@.no_duplicates(),
                forall|j: int| 0 <= j < ids.len() ==> #[trigger] target.contains(ids[j]),
                forall|j: int| 0 <= j < ids.len() ==> exists|k: int| 0 <= k < i && keys[k] == #[trigger] ids[j],
                forall|k: int| 0 <= k < i && #[trigger] target.contains(keys[k]) ==> ids@.contains(keys[k]),
            decreases n - i,
        {
            let id = keys[i];
            let ghost old_ids = ids@;
            proof {
                assert(keys@.contains(id));
                assert(keys@.to_set().contains(id));
            }
            let matches = match self.leases.get(&id) {
                Some(meta) => meta.execution_id == wanted,
                None => false,
            };
            proof {
                assert(matches == target.contains(id));
            }
            if matches {
                proof {
                    assert(!ids@.contains(id)) by {
                        if ids@.contains(id) {
                            let j = choose|j: int| 0 <= j < ids.len() && ids[j] == id;
                            let k = choose|k: int| 0 <= k < i && keys[k] == ids[j];
                            assert(keys[k] == keys[i as int]);
                        }
                    }
                }
                ids.push(id);
            }
            proof {
                assert forall|k: int| 0 <= k < i + 1 && #[trigger] target.contains(keys[k])
                    implies ids@.contains(keys[k]) by {
                    if k < i {
                        let j = choose|j: int| 0 <= j < old_ids.len() && old_ids[j] == keys[k];
                        assert(ids@[j] == keys[k]);
                    } else {
                        assert(ids@[ids.len() - 1] == id);
                    }
                }
            }
            i = i + 1;
        }
        proof {
            assert(ids@.to_set() =~= target) by {
                assert forall|x: u64| target.contains(x) implies ids@.to_set().contains(x) by {
                    assert(keys@.to_set().contains(x));
                    let k = choose|k: int| 0 <= k < keys.len() && keys[k] == x;
                    assert(target.contains(keys[k]));
                }
                assert forall|x: u64| ids@.to_set().contains(x) implies target.contains(x) by {
                    let j = choose|j: int| 0 <= j < ids.len() && ids[j] == x;
                    assert(target.contains(ids[j]));
                }
            }
            ids@.unique_seq_to_set();
        }
        self.release_all(&ids)
    }

    /// Releases every lease older than `ttl_ms` at `now_us`, counting them as reaped.
    pub fn reap_stale_leases(&mut self, ttl_ms: u64, now_us: u64) -> (count: usize)
        requires
            old(self).wf(),
        ensures
            final(self).wf(),
            final(self).config() == old(self).config(),
            final(self).queued_waiters() == old(self).queued_waiters(),
            final(self).next_lease_id() == old(self).next_lease_id(),
            final(self).total_acquired() == old(self).total_acquired(),
            final(self).total_rejected() == old(self).total_rejected(),
            final(self).total_timeouts() == old(self).total_timeouts(),
            final(self).token_bucket() == old(self).token_bucket(),
            count == stale_lease_ids(old(self).leases(), ttl_ms, now_us).len(),
            final(self).leases() == old(self).leases().remove_keys(
                stale_lease_ids(old(self).leases(), ttl_ms, now_us)),
            final(self).total_released() == add_wrap(old(self).total_released(), count as int),
            final(self).total_reaped() == add_wrap(old(self).total_reaped(), count as int),
            forall|id: u64| #[trigger] old(self).leases().contains_key(id) ==> (final(self).leases().contains_key(id)
                <==> old(self).leases()[id].created_at_us + ttl_ms * 1000 >= now_us),
    {
        let ghost target = stale_lease_ids(self.leases@, ttl_ms, now_us);
        let ttl_us: u128 = (ttl_ms as u128) * 1000;
        let keys = self.lease_ids();
        let mut ids: Vec<u64> = Vec::new();
        let n = keys.len();
        let mut i: usize = 0;
        while i < n
            invariant
                n == keys.len(),
                i <= n,
                ttl_us == ttl_ms * 1000,
                keys@.to_set() == self.leases@.dom(),
                keys@.no_duplicates(),
                target == stale_lease_ids(self.leases@, ttl_ms, now_us),
                ids@.no_duplicates(),
                forall|j: int| 0 <= j < ids.len() ==> #[trigger] target.contains(ids[j]),
                forall|j: int| 0 <= j < ids.len() ==> exists|k: int| 0 <= k < i && keys[k] == #[trigger] ids[j],
                forall|k: int| 0 <= k < i && #[trigger] target.contains(keys[k]) ==> ids@.contains(keys[k]),
            decreases n - i,
        {
            let id = keys[i];
            let ghost old_ids = ids@;
            proof {
                assert(keys@.contains(id));
                assert(keys@.to_set().contains(id));
            }
            let stale = match self.leases.get(&id) {
                Some(meta) => (now_us.saturating_sub(meta.created_at_us) as u128) > ttl_us,
                None => false,
            };
            proof {
                assert(stale == target.contains(id));
            }
            if stale {
                proof {
                    assert(!ids@.contains(id)) by {
                        if ids@.contains(id) {
                            let j = choose|j: int| 0 <= j < ids.len() && ids[j] == id;
                            let k = choose|k: int| 0 <= k < i && keys[k] == ids[j];
                            assert(keys[k] == keys[i as int]);
                        }
                    }
                }
                ids.push(id);
            }
            proof {
                assert forall|k: int| 0 <= k < i + 1 && #[trigger] target.contains(keys[k])
                    implies ids@.contains(keys[k]) by {
                    if k < i {
                        let j = choose|j: int| 0 <= j < old_ids.len() && old_ids[j] == keys[k];
                        assert(ids@[j] == keys[k]);
                    } else {
                        assert(ids@[ids.len() - 1] == id);
                    }
                }
            }
            i = i + 1;
        }
        proof {
            assert(ids@.to_set() =~= target) by {
                assert forall|x: u64| target.contains(x) implies ids@.to_set().contains(x) by {
                    assert(keys@.to_set().contains(x));
                    let k = choose|k: int| 0 <= k < keys.len() && keys[k] == x;
                    assert(target.contains(keys[k]));
                }
                assert forall|x: u64| ids@.to_set().contains(x) implies target.contains(x) by {
                    let j = choose|j: int| 0 <= j < ids.len() && ids[j] == x;
                    assert(target.contains(ids[j]));
                }
            }
            ids@.unique_seq_to_set();
        }
        let ghost before = self.leases@;
        let count = self.release_all(&ids);
        self.total_reaped = self.total_reaped.wrapping_add(count as u64);
        proof {
            lemma_reap_removes_exactly_expired(before, self.leases@, ttl_ms, now_us, count as int);
        }
        count
    }
}


/// `top` lists the `k` tenants with the most leases in `table`, most first:
/// each listed tenant with its count, no tenant twice, and no unlisted tenant
/// holding more than a listed one.
pub open spec fn is_top_tenants(top: Seq<TenantActiveSnapshot>, table: Map<Seq<char>, usize>, k: nat) -> bool {
    &&& top.len() == min_int(k as int, table.dom().len() as int)
    &&& forall|i: int| 0 <= i < top.len() ==>
        #[trigger] table.contains_key(top[i].tenant@) && top[i].active == table[top[i].tenant@]
    &&& forall|i: int, j: int| 0 <= i < j < top.len() ==> top[i].tenant@ != top[j].tenant@
    &&& forall|i: int, j: int| 0 <= i < j < top.len() ==> top[i].active >= top[j].active
    &&& forall|t: Seq<char>, i: int| #[trigger] table.contains_key(t) && 0 <= i < top.len()
        && (forall|j: int| 0 <= j < top.len() ==> top[j].tenant@ != t)
        ==> table[t] <= #[trigger] top[i].active
}

/// Index of the first entry with the largest count.
fn index_of_max(entries: &Vec<(String, usize)>) -> (best: usize)
    requires
        entries.len() > 0,
    ensures
        best < entries.len(),
        forall|j: int| 0 <= j < entries.len() ==> #[trigger] entries[j].1 <= entries[best as int].1,
{
    let mut best: usize = 0;
    let mut i: usize = 1;
    while i < entries.len()
        invariant
            entries.len() > 0,
            best < entries.len(),
            1 <= i <= entries.len(),
            forall|j: int| 0 <= j < i ==> #[trigger] entries[j].1 <= entries[best as int].1,
        decreases entries.len() - i,
    {
        if entries[i].1 > entries[best].1 {
            best = i;
        }
        i = i + 1;
    }
    best
}

/// The `k` tenants with the most leases, most first.
fn top_tenants(table: &TenantTable, k: usize) -> (top: Vec<TenantActiveSnapshot>)
    ensures
        is_top_tenants(top@, tenant_table(*table), k as nat),
{
    let ghost tbl = tenant_table(*table);
    let mut rest = table_entries(table);
    let n = rest.len();
    let mut top: Vec<TenantActiveSnapshot> = Vec::new();
    let want = if k < n { k } else { n };
    while top.len() < want
        invariant
            want <= n,
            want == min_int(k as int, tbl.dom().len() as int),
            n == tbl.dom().len(),
            top.len() + rest.len() == n,
            top.len() <= want,
            forall|i: int| 0 <= i < rest.len() ==>
                #[trigger] tbl.contains_key(rest[i].0@) && tbl[rest[i].0@] == rest[i].1,
            forall|i: int| 0 <= i < top.len() ==>
                #[trigger] tbl.contains_key(top[i].tenant@) && top[i].active == tbl[top[i].tenant@],
            forall|i: int, j: int| 0 <= i < j < rest.len() ==> rest[i].0@ != rest[j].0@,
            forall|i: int, j: int| 0 <= i < j < top.len() ==> top[i].tenant@ != top[j].tenant@,
            forall|i: int, j: int| 0 <= i < top.len() && 0 <= j < rest.len() ==> top[i].tenant@ != rest[j].0@,
            forall|t: Seq<char>| #[trigger] tbl.contains_key(t) ==>
                (exists|i: int| 0 <= i < top.len() && top[i].tenant@ == t)
                || (exists|j: int| 0 <= j < rest.len() && rest[j].0@ == t),
            forall|i: int, j: int| 0 <= i < j < top.len() ==> top[i].active >= top[j].active,
            forall|i: int, j: int| 0 <= i < top.len() && 0 <= j < rest.len() ==> rest[j].1 <= top[i].active,
        decreases want - top.len(),
    {
        let best = index_of_max(&rest);
        let ghost old_rest = rest@;
        let ghost old_top = top@;
        let (tenant, active) = rest.remove(best);
        proof {
            assert(old_rest[best as int] == (tenant, active));
        }
        top.push(TenantActiveSnapshot { tenant, active: active as u64 });
        proof {
            assert forall|i: int| 0 <= i < rest.len() implies
                #[trigger] tbl.contains_key(rest[i].0@) && tbl[rest[i].0@] == rest[i].1 by {
                if i < best { assert(rest[i] == old_rest[i]); } else { assert(rest[i] == old_rest[i + 1]); }
            }
            assert forall|i: int, j: int| 0 <= i < j < rest.len() implies rest[i].0@ != rest[j].0@ by {
                let oi = if i < best { i } else { i + 1 };
                let oj = if j < best { j } else { j + 1 };
                assert(rest[i] == old_rest[oi]);
                assert(rest[j] == old_rest[oj]);
            }
            assert forall|i: int, j: int| 0 <= i < top.len() && 0 <= j < rest.len()
                implies top[i].tenant@ != rest[j].0@ by {
                let oj = if j < best { j } else { j + 1 };
                assert(rest[j] == old_rest[oj]);
                if i < old_top.len() {
                    assert(top[i] == old_top[i]);
                }
            }
            assert forall|i: int, j: int| 0 <= i < j < top.len() implies top[i].tenant@ != top[j].tenant@ by {
                if j < old_top.len() {
                    assert(top[i] == old_top[i]);
                    assert(top[j] == old_top[j]);
                } else {
                    assert(top[i] == old_top[i]);
                }
            }
            assert forall|t: Seq<char>| #[trigger] tbl.contains_key(t) implies
                (exists|i: int| 0 <= i < top.len() && top[i].tenant@ == t)
                || (exists|j: int| 0 <= j < rest.len() && rest[j].0@ == t) by {
                if exists|i: int| 0 <= i < old_top.len() && old_top[i].tenant@ == t {
                    let i = choose|i: int| 0 <= i < old_top.len() && old_top[i].tenant@ == t;
                    assert(top[i] == old_top[i]);
                } else {
                    let j = choose|j: int| 0 <= j < old_rest.len() && old_rest[j].0@ == t;
                    if j < best {
                        assert(rest[j] == old_rest[j]);
                    } else if j == best {
                        assert(top[top.len() - 1].tenant@ == t);
                    } else {
                        assert(rest[j - 1] == old_rest[j]);
                    }
                }
            }
            assert forall|i: int, j: int| 0 <= i < j < top.len() implies top[i].active >= top[j].active by {
                if j < old_top.len() {
                    assert(top[i] == old_top[i]);
                    assert(top[j] == old_top[j]);
                } else {
                    assert(top[i] == old_top[i]);
                    assert(old_rest[best as int].1 <= old_top[i].active);
                }
            }
            assert forall|i: int, j: int| 0 <= i < top.len() && 0 <= j < rest.len()
                implies rest[j].1 <= top[i].active by {
                let oj = if j < best { j } else { j + 1 };
                assert(rest[j] == old_rest[oj]);
                if i < old_top.len() {
                    assert(top[i] == old_top[i]);
                } else {
                    assert(old_rest[oj].1 <= old_rest[best as int].1);
                }
            }
        }
    }
    proof {
        assert forall|t: Seq<char>, i: int| #[trigger] tbl.contains_key(t) && 0 <= i < top.len()
            && (forall|j: int| 0 <= j < top.len() ==> top[j].tenant@ != t)
            implies tbl[t] <= #[trigger] top[i].active by {
            let j = choose|j: int| 0 <= j < rest.len() && rest[j].0@ == t;
            assert(tbl.contains_key(rest[j].0@));
        }
    }
    top
}

impl ConnectionManager {
    /// Reports the manager's state under the given descriptor figures.
    pub fn snapshot(&self, soft_limit: usize, open_fd_count: usize) -> (s: ConnectionManagerSnapshot)
        requires
            self.wf(),
        ensures
            ({
                let reserved = spec_reserved_fd(self.config(), soft_limit);
                &&& s.soft_limit == soft_limit
                &&& s.open_fd_count == open_fd_count
                &&& s.reserved_fd == reserved
                &&& s.outbound_fd_budget == (if soft_limit > reserved { soft_limit - reserved } else { 0 })
                &&& s.adaptive_active_limit == spec_adaptive_limit(soft_limit, open_fd_count, reserved)
            }),
            s.active_leases == self.active_leases(),
            s.active_leases == self.leases().len(),
            s.queued_waiters == self.queued_waiters(),
            s.total_acquired == self.total_acquired(),
            s.total_released == self.total_released(),
            s.total_rejected == self.total_rejected(),
            s.total_timeouts == self.total_timeouts(),
            s.total_reaped == self.total_reaped(),
            s.known_tenants == self.tenants().dom().len(),
            is_top_tenants(s.top_tenants_by_active@, self.tenants(), 10),
            s.token_bucket.tokens_micro == self.token_bucket().tokens_micro,
            s.token_bucket.capacity == self.token_bucket().capacity,
            s.token_bucket.refill_per_sec == self.token_bucket().refill_per_sec,
            s.total_acquired == add_wrap(s.total_released, s.active_leases as int),
            forall|i: int| 0 <= i < s.top_tenants_by_active.len()
                ==> #[trigger] s.top_tenants_by_active[i].active >= 1,
    {
        proof {
            self.lemma_invariant_counts();
        }
        let reserved_fd = self.reserved_fd(soft_limit);
        let outbound_fd_budget = soft_limit.saturating_sub(reserved_fd);
        let adaptive_active_limit = Self::adaptive_active_limit(soft_limit, open_fd_count, reserved_fd);
        let top_tenants_by_active = top_tenants(&self.tenant_active, 10);
        proof {
            assert forall|i: int| 0 <= i < top_tenants_by_active.len()
                implies #[trigger] top_tenants_by_active[i].active >= 1 by {
                assert(self.tenants().contains_key(top_tenants_by_active[i].tenant@));
            }
        }
        ConnectionManagerSnapshot {
            soft_limit: soft_limit as u64,
            open_fd_count: open_fd_count as u64,
            reserved_fd: reserved_fd as u64,
            outbound_fd_budget: outbound_fd_budget as u64,
            adaptive_active_limit: adaptive_active_limit as u64,
            active_leases: self.active_leases as u64,
            queued_waiters: self.queued_waiters as u64,
            total_acquired: self.total_acquired,
            total_released: self.total_released,
            total_rejected: self.total_rejected,
            total_timeouts: self.total_timeouts,
            total_reaped: self.total_reaped,
            known_tenants: table_len(&self.tenant_active) as u64,
            top_tenants_by_active,
            token_bucket: TokenBucketSnapshot {
                tokens_micro: self.token_bucket.tokens_micro,
                capacity: self.token_bucket.capacity,
                refill_per_sec: self.token_bucket.refill_per_sec,
            },
        }
    }
}

/// Two well-formed managers with the same leases have the same tenant table.
proof fn lemma_tenants_determined_by_leases(a: ConnectionManager, b: ConnectionManager)
    requires
        a.wf(),
        b.wf(),
        a.leases() == b.leases(),
    ensures
        a.tenants() == b.tenants(),
{
    reveal(ConnectionManager::wf);
    assert(a.tenants() =~= b.tenants()) by {
        assert forall|t: Seq<char>| a.tenants().contains_key(t) <==> b.tenants().contains_key(t) by {}
        assert forall|t: Seq<char>| a.tenants().contains_key(t) implies a.tenants()[t] == b.tenants()[t] by {}
    }
}

/// Releasing a lease right after it was granted gives back the lease table,
/// the tenant table and the active count from before the grant.
pub proof fn lemma_release_undoes_acquire(
    before: ConnectionManager,
    granted: ConnectionManager,
    after: ConnectionManager,
    id: u64,
)
    requires
        before.wf(),
        granted.wf(),
        after.wf(),
        !before.leases().contains_key(id),
        granted.leases().dom() == before.leases().dom().insert(id),
        forall|k: u64| #[trigger] before.leases().contains_key(k) ==> granted.leases()[k] == before.leases()[k],
        after.leases() == granted.leases().remove(id),
    ensures
        after.leases() == before.leases(),
        after.tenants() == before.tenants(),
        after.active_leases() == before.active_leases(),
{
    reveal(ConnectionManager::wf);
    assert(after.leases() =~= before.leases());
    lemma_tenants_determined_by_leases(after, before);
}

} // verus!
