//! Request/response counters: global ones and per function.
//!
//! Counters grow as an atomic `fetch_add` makes them grow, wrapping at 2^64.

use vstd::prelude::*;

verus! {

/// `x + n`, wrapping at 2^64 as an atomic `fetch_add` does.
pub open spec fn add_wrap(x: u64, n: int) -> u64 {
    ((x + n) % 0x1_0000_0000_0000_0000int) as u64
}

/// `x - n`, wrapping at 0 as an atomic `fetch_sub` does.
pub open spec fn sub_wrap(x: u64, n: int) -> u64 {
    ((x - n) % 0x1_0000_0000_0000_0000int) as u64
}

/// Integer mean of `total` over `count` samples; 0 when there are none.
pub open spec fn mean(total: u64, count: u64) -> u64 {
    if count > 0 { (total / count) as u64 } else { 0 }
}

/// Global runtime metrics aggregated from all functions.
#[derive(Debug)]
pub struct GlobalMetrics {
    pub total_requests: u64,
    pub total_errors: u64,
}

impl Default for GlobalMetrics {
    fn default() -> (m: Self)
        ensures
            m.total_requests == 0,
            m.total_errors == 0,
    {
        GlobalMetrics { total_requests: 0, total_errors: 0 }
    }
}

/// Point-in-time copy of the global counters.
#[derive(Debug, Clone, Copy, PartialEq, Eq)]
pub struct GlobalMetricsSnapshot {
    pub total_requests: u64,
    pub total_errors: u64,
}

impl GlobalMetrics {
    /// Reads both counters.
    pub fn snapshot(&self) -> (snap: GlobalMetricsSnapshot)
        ensures
            snap.total_requests == self.total_requests,
            snap.total_errors == self.total_errors,
    {
        GlobalMetricsSnapshot { total_requests: self.total_requests, total_errors: self.total_errors }
    }
}

/// Per-function request/response metrics.
#[derive(Debug)]
pub struct FunctionMetrics {
    pub total_requests: u64,
    pub active_requests: u64,
    pub total_errors: u64,
    pub total_cpu_time_ms: u64,
    /// Number of cold starts (isolate boots).
    pub cold_start_count: u64,
    /// Accumulated cold start time (ms).
    pub total_cold_start_time_ms: u64,
    /// Accumulated cold start time (us).
    pub total_cold_start_time_us: u64,
    /// Accumulated time of requests served after boot (ms).
    pub total_warm_start_time_ms: u64,
    /// Accumulated time of requests served after boot (us).
    pub total_warm_start_time_us: u64,
    pub current_heap_used_bytes: u64,
    pub peak_heap_used_bytes: u64,
}

impl Default for FunctionMetrics {
    fn default() -> (m: Self)
        ensures
            m.total_requests == 0,
            m.active_requests == 0,
            m.total_errors == 0,
            m.total_cpu_time_ms == 0,
            m.cold_start_count == 0,
            m.total_cold_start_time_ms == 0,
            m.total_cold_start_time_us == 0,
            m.total_warm_start_time_ms == 0,
            m.total_warm_start_time_us == 0,
            m.current_heap_used_bytes == 0,
            m.peak_heap_used_bytes == 0,
    {
        FunctionMetrics {
            total_requests: 0,
            active_requests: 0,
            total_errors: 0,
            total_cpu_time_ms: 0,
            cold_start_count: 0,
            total_cold_start_time_ms: 0,
            total_cold_start_time_us: 0,
            total_warm_start_time_ms: 0,
            total_warm_start_time_us: 0,
            current_heap_used_bytes: 0,
            peak_heap_used_bytes: 0,
        }
    }
}

/// Snapshot of function metrics. Every figure is an integer; the sub-millisecond
/// means and the MiB figures of the reported form are computed from these by the
/// caller (`avg_*_ms_precise` from `total_*_time_us` and the count, the heap
/// MiB from the byte counts).
#[derive(Debug, Clone, Copy, PartialEq, Eq)]
pub struct FunctionMetricsSnapshot {
    pub total_requests: u64,
    pub active_requests: u64,
    pub total_errors: u64,
    pub total_cpu_time_ms: u64,
    pub cold_starts: u64,
    pub avg_cold_start_ms: u64,
    pub total_cold_start_time_ms: u64,
    pub total_cold_start_time_us: u64,
    pub avg_cold_start_us: u64,
    pub total_warm_start_time_ms: u64,
    pub total_warm_start_time_us: u64,
    pub avg_warm_request_ms: u64,
    pub avg_warm_request_us: u64,
    pub current_heap_used_bytes: u64,
    pub peak_heap_used_bytes: u64,
}

/// The snapshot `m` reads as: every counter, and the integer means.
pub open spec fn snapshot_of(m: FunctionMetrics) -> FunctionMetricsSnapshot {
    FunctionMetricsSnapshot {
        total_requests: m.total_requests,
        active_requests: m.active_requests,
        total_errors: m.total_errors,
        total_cpu_time_ms: m.total_cpu_time_ms,
        cold_starts: m.cold_start_count,
        avg_cold_start_ms: mean(m.total_cold_start_time_ms, m.cold_start_count),
        total_cold_start_time_ms: m.total_cold_start_time_ms,
        total_cold_start_time_us: m.total_cold_start_time_us,
        avg_cold_start_us: mean(m.total_cold_start_time_us, m.cold_start_count),
        total_warm_start_time_ms: m.total_warm_start_time_ms,
        total_warm_start_time_us: m.total_warm_start_time_us,
        avg_warm_request_ms: mean(m.total_warm_start_time_ms, m.total_requests),
        avg_warm_request_us: mean(m.total_warm_start_time_us, m.total_requests),
        current_heap_used_bytes: m.current_heap_used_bytes,
        peak_heap_used_bytes: m.peak_heap_used_bytes,
    }
}

fn mean_of(total: u64, count: u64) -> (r: u64)
    ensures
        r == mean(total, count),
{
    if count > 0 { total / count } else { 0 }
}

impl FunctionMetrics {
    /// Reads every counter and derives the integer means.
    pub fn snapshot(&self) -> (s: FunctionMetricsSnapshot)
        ensures
            s.total_requests == self.total_requests,
            s.active_requests == self.active_requests,
            s.total_errors == self.total_errors,
            s.total_cpu_time_ms == self.total_cpu_time_ms,
            s.cold_starts == self.cold_start_count,
            s.avg_cold_start_ms == mean(self.total_cold_start_time_ms, self.cold_start_count),
            s.total_cold_start_time_ms == self.total_cold_start_time_ms,
            s.total_cold_start_time_us == self.total_cold_start_time_us,
            s.avg_cold_start_us == mean(self.total_cold_start_time_us, self.cold_start_count),
            s.total_warm_start_time_ms == self.total_warm_start_time_ms,
            s.total_warm_start_time_us == self.total_warm_start_time_us,
            s.avg_warm_request_ms == mean(self.total_warm_start_time_ms, self.total_requests),
            s.avg_warm_request_us == mean(self.total_warm_start_time_us, self.total_requests),
            s.current_heap_used_bytes == self.current_heap_used_bytes,
            s.peak_heap_used_bytes == self.peak_heap_used_bytes,
            s == snapshot_of(*self),
    {
        FunctionMetricsSnapshot {
            total_requests: self.total_requests,
            active_requests: self.active_requests,
            total_errors: self.total_errors,
            total_cpu_time_ms: self.total_cpu_time_ms,
            cold_starts: self.cold_start_count,
            avg_cold_start_ms: mean_of(self.total_cold_start_time_ms, self.cold_start_count),
            total_cold_start_time_ms: self.total_cold_start_time_ms,
            total_cold_start_time_us: self.total_cold_start_time_us,
            avg_cold_start_us: mean_of(self.total_cold_start_time_us, self.cold_start_count),
            total_warm_start_time_ms: self.total_warm_start_time_ms,
            total_warm_start_time_us: self.total_warm_start_time_us,
            avg_warm_request_ms: mean_of(self.total_warm_start_time_ms, self.total_requests),
            avg_warm_request_us: mean_of(self.total_warm_start_time_us, self.total_requests),
            current_heap_used_bytes: self.current_heap_used_bytes,
            peak_heap_used_bytes: self.peak_heap_used_bytes,
        }
    }

    /// An isolate finished booting after `duration_ms`.
    pub fn record_cold_start(&mut self, duration_ms: u64)
        ensures
            final(self).cold_start_count == add_wrap(old(self).cold_start_count, 1),
            final(self).total_cold_start_time_ms == add_wrap(old(self).total_cold_start_time_ms, duration_ms as int),
            final(self).total_requests == old(self).total_requests,
            final(self).active_requests == old(self).active_requests,
            final(self).total_errors == old(self).total_errors,
            final(self).total_cpu_time_ms == old(self).total_cpu_time_ms,
            final(self).total_cold_start_time_us == old(self).total_cold_start_time_us,
            final(self).total_warm_start_time_ms == old(self).total_warm_start_time_ms,
            final(self).total_warm_start_time_us == old(self).total_warm_start_time_us,
            final(self).current_heap_used_bytes == old(self).current_heap_used_bytes,
            final(self).peak_heap_used_bytes == old(self).peak_heap_used_bytes,
    {
        self.cold_start_count = self.cold_start_count.wrapping_add(1);
        self.total_cold_start_time_ms = self.total_cold_start_time_ms.wrapping_add(duration_ms);
    }

    /// A request entered the isolate.
    pub fn record_request_start(&mut self)
        ensures
            final(self).active_requests == add_wrap(old(self).active_requests, 1),
            final(self).total_requests == add_wrap(old(self).total_requests, 1),
            final(self).total_errors == old(self).total_errors,
            final(self).total_cpu_time_ms == old(self).total_cpu_time_ms,
            final(self).cold_start_count == old(self).cold_start_count,
            final(self).total_cold_start_time_ms == old(self).total_cold_start_time_ms,
            final(self).total_cold_start_time_us == old(self).total_cold_start_time_us,
            final(self).total_warm_start_time_ms == old(self).total_warm_start_time_ms,
            final(self).total_warm_start_time_us == old(self).total_warm_start_time_us,
            final(self).current_heap_used_bytes == old(self).current_heap_used_bytes,
            final(self).peak_heap_used_bytes == old(self).peak_heap_used_bytes,
    {
        self.active_requests = self.active_requests.wrapping_add(1);
        self.total_requests = self.total_requests.wrapping_add(1);
    }

    /// One more error (a forced timeout, a failed dispatch or an exhausted heap).
    pub fn record_error(&mut self)
        ensures
            final(self).total_errors == add_wrap(old(self).total_errors, 1),
            final(self).total_requests == old(self).total_requests,
            final(self).active_requests == old(self).active_requests,
            final(self).total_cpu_time_ms == old(self).total_cpu_time_ms,
            final(self).cold_start_count == old(self).cold_start_count,
            final(self).total_cold_start_time_ms == old(self).total_cold_start_time_ms,
            final(self).total_cold_start_time_us == old(self).total_cold_start_time_us,
            final(self).total_warm_start_time_ms == old(self).total_warm_start_time_ms,
            final(self).total_warm_start_time_us == old(self).total_warm_start_time_us,
            final(self).current_heap_used_bytes == old(self).current_heap_used_bytes,
            final(self).peak_heap_used_bytes == old(self).peak_heap_used_bytes,
    {
        self.total_errors = self.total_errors.wrapping_add(1);
    }

    /// A request left the isolate after `warm_ms` of wall time and `cpu_ms`
    /// of CPU time; `failed` when the dispatch returned an error.
    pub fn record_request_end(&mut self, warm_ms: u64, cpu_ms: u64, failed: bool)
        ensures
            final(self).active_requests == sub_wrap(old(self).active_requests, 1),
            final(self).total_warm_start_time_ms == add_wrap(old(self).total_warm_start_time_ms, warm_ms as int),
            final(self).total_cpu_time_ms == add_wrap(old(self).total_cpu_time_ms, cpu_ms as int),
            final(self).total_errors == (if failed { add_wrap(old(self).total_errors, 1) } else { old(self).total_errors }),
            final(self).total_requests == old(self).total_requests,
            final(self).cold_start_count == old(self).cold_start_count,
            final(self).total_cold_start_time_ms == old(self).total_cold_start_time_ms,
            final(self).total_cold_start_time_us == old(self).total_cold_start_time_us,
            final(self).total_warm_start_time_us == old(self).total_warm_start_time_us,
            final(self).current_heap_used_bytes == old(self).current_heap_used_bytes,
            final(self).peak_heap_used_bytes == old(self).peak_heap_used_bytes,
    {
        self.active_requests = self.active_requests.wrapping_sub(1);
        self.total_warm_start_time_ms = self.total_warm_start_time_ms.wrapping_add(warm_ms);
        self.total_cpu_time_ms = self.total_cpu_time_ms.wrapping_add(cpu_ms);
        if failed {
            self.total_errors = self.total_errors.wrapping_add(1);
        }
    }
}

/// A request that starts and then ends leaves the active-request count as it
/// was and adds exactly one request to the total.
pub proof fn lemma_request_start_end_balances(before: u64, total_before: u64)
    ensures
        sub_wrap(add_wrap(before, 1), 1) == before,
        add_wrap(total_before, 1) == (if total_before == u64::MAX { 0 } else { total_before + 1 }),
{
}

} // verus!
