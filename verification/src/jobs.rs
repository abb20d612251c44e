//! Scheduling rules for jobs: retry backoff, timeouts, free slots, the
//! node's health verdict and the aggregate of recorded job resources.

use vstd::prelude::*;

verus! {

/// How the delay before a retry grows with the number of retries.
#[derive(Clone, Copy, Debug, PartialEq, Eq, Structural)]
pub enum RetryStrategy {
    ExponentialBackoff,
    LinearBackoff,
    FixedDelay,
}

impl Default for RetryStrategy {
    fn default() -> (res: Self)
        ensures
            res == RetryStrategy::ExponentialBackoff,
    {
        RetryStrategy::ExponentialBackoff
    }
}

/// The base delay before a retry, in milliseconds, unless configured.
pub const BASE_RETRY_BACKOFF_MS: u64 = 5000;

/// A running job is timed out after this many milliseconds.
pub const JOB_TIMEOUT_MS: u64 = 300_000;

/// 2 to the power `e`.
pub open spec fn pow2(e: nat) -> nat
    decreases e,
{
    if e == 0 { 1 } else { 2 * pow2((e - 1) as nat) }
}

/// The delay before retry number `retry_count` (counting from 1):
/// `base * 2^(min(retry_count, 10) - 1)`, `base * retry_count`, or `base`.
pub open spec fn spec_backoff(strategy: RetryStrategy, base: u64, retry_count: u32) -> int {
    match strategy {
        RetryStrategy::ExponentialBackoff => base * pow2(((if retry_count < 10 { retry_count } else { 10 }) - 1) as nat),
        RetryStrategy::LinearBackoff => base * retry_count,
        RetryStrategy::FixedDelay => base as int,
    }
}

proof fn lemma_shift_is_pow2(e: u64)
    requires
        e < 10,
    ensures
        1u64 << e == pow2(e as nat),
{
    assert(pow2(0) == 1);
    assert(pow2(1) == 2);
    assert(pow2(2) == 4);
    assert(pow2(3) == 8);
    assert(pow2(4) == 16);
    assert(pow2(5) == 32);
    assert(pow2(6) == 64);
    assert(pow2(7) == 128);
    assert(pow2(8) == 256);
    assert(pow2(9) == 512);
    assert(1u64 << 0u64 == 1u64) by (bit_vector);
    assert(1u64 << 1u64 == 2u64) by (bit_vector);
    assert(1u64 << 2u64 == 4u64) by (bit_vector);
    assert(1u64 << 3u64 == 8u64) by (bit_vector);
    assert(1u64 << 4u64 == 16u64) by (bit_vector);
    assert(1u64 << 5u64 == 32u64) by (bit_vector);
    assert(1u64 << 6u64 == 64u64) by (bit_vector);
    assert(1u64 << 7u64 == 128u64) by (bit_vector);
    assert(1u64 << 8u64 == 256u64) by (bit_vector);
    assert(1u64 << 9u64 == 512u64) by (bit_vector);
}

/// The delay before retry number `retry_count` under a strategy.
pub fn calculate_backoff(strategy: RetryStrategy, base: u64, retry_count: u32) -> (res: u64)
    requires
        strategy == RetryStrategy::ExponentialBackoff ==> retry_count >= 1,
        spec_backoff(strategy, base, retry_count) <= u64::MAX,
    ensures
        res == spec_backoff(strategy, base, retry_count),
{
    match strategy {
        RetryStrategy::ExponentialBackoff => {
            let capped: u32 = if retry_count < 10 { retry_count } else { 10 };
            let shift: u64 = (capped - 1) as u64;
            proof {
                lemma_shift_is_pow2(shift);
            }
            let factor: u64 = 1u64 << shift;
            base * factor
        },
        RetryStrategy::LinearBackoff => base * (retry_count as u64),
        RetryStrategy::FixedDelay => base,
    }
}

/// The backoff never shrinks as retries accumulate.
pub proof fn lemma_backoff_monotonic(strategy: RetryStrategy, base: u64, a: u32, b: u32)
    requires
        1 <= a <= b,
    ensures
        spec_backoff(strategy, base, a) <= spec_backoff(strategy, base, b),
{
    let ea: nat = ((if a < 10 { a } else { 10 }) - 1) as nat;
    let eb: nat = ((if b < 10 { b } else { 10 }) - 1) as nat;
    lemma_pow2_monotonic(ea, eb);
    assert(base * pow2(ea) <= base * pow2(eb)) by (nonlinear_arith)
        requires
            pow2(ea) <= pow2(eb),
    ;
    assert(base * a <= base * b) by (nonlinear_arith)
        requires
            a <= b,
    ;
}

proof fn lemma_pow2_monotonic(a: nat, b: nat)
    requires
        a <= b,
    ensures
        pow2(a) <= pow2(b),
    decreases b,
{
    if a < b {
        lemma_pow2_monotonic(a, (b - 1) as nat);
    }
}

/// Whether a pending job may be queued at `now_ms`: at once when it has
/// never been retried, else once its backoff since creation has passed.
pub fn ready_for_retry(retry_count: u32, created_at_ms: u64, backoff_ms: u64, now_ms: u64) -> (res: bool)
    requires
        retry_count > 0 ==> created_at_ms + backoff_ms <= u64::MAX,
    ensures
        res == (retry_count == 0 || now_ms >= created_at_ms + backoff_ms),
{
    if retry_count > 0 {
        let retry_after = created_at_ms + backoff_ms;
        if now_ms < retry_after {
            return false;
        }
    }
    true
}

/// Whether a running job has run longer than the timeout at `now_ms`.
pub fn is_timed_out(started_at_ms: Option<u64>, now_ms: u64) -> (res: bool)
    ensures
        res == (match started_at_ms {
            Some(s) => (if now_ms >= s { now_ms - s } else { 0 }) > JOB_TIMEOUT_MS,
            None => false,
        }),
{
    match started_at_ms {
        Some(started) => now_ms.saturating_sub(started) > JOB_TIMEOUT_MS,
        None => false,
    }
}

/// How many more jobs may start.
pub fn available_slots(max_concurrent: usize, running: usize) -> (res: usize)
    ensures
        res == (if running <= max_concurrent { max_concurrent - running } else { 0 }),
{
    max_concurrent.saturating_sub(running)
}

/// Whether a node can take more jobs.
#[derive(Clone, Copy, Debug, PartialEq, Eq, Structural)]
pub enum HealthStatus {
    Ready,
    Degraded,
    Unavailable,
}

/// A node's job capacity as it reports it.
#[derive(Clone, Copy, Debug, PartialEq, Eq)]
pub struct NodeCapacity {
    pub max_concurrent_jobs: usize,
    pub current_jobs: usize,
    pub queue_depth: usize,
    pub cpu_cores: usize,
    pub total_memory_bytes: u64,
}

/// Degraded when every job slot is taken, ready otherwise.
pub fn health_status(current_jobs: usize, max_concurrent: usize) -> (res: HealthStatus)
    ensures
        res == (if current_jobs >= max_concurrent { HealthStatus::Degraded } else { HealthStatus::Ready }),
{
    if current_jobs >= max_concurrent {
        HealthStatus::Degraded
    } else {
        HealthStatus::Ready
    }
}

/// The number of execution times kept for the average.
pub const EXECUTION_WINDOW: usize = 1000;

/// Record an execution time in the window of the latest ones: it is
/// appended, and the oldest is dropped when the window overflows.
pub fn record_execution_time(times: &mut Vec<u64>, duration_ms: u64)
    ensures
        old(times)@.len() < EXECUTION_WINDOW ==> final(times)@ == old(times)@.push(duration_ms),
        old(times)@.len() >= EXECUTION_WINDOW ==> final(times)@ == old(times)@.push(duration_ms).drop_first(),
{
    times.push(duration_ms);
    if times.len() > EXECUTION_WINDOW {
        times.remove(0);
    }
    proof {
        if old(times)@.len() >= EXECUTION_WINDOW {
            assert(final(times)@ =~= old(times)@.push(duration_ms).drop_first());
        }
    }
}

/// The integer figures recorded for one finished job.
#[derive(Clone, Copy, Debug, PartialEq, Eq)]
pub struct ResourceSample {
    pub fuel_consumed: u64,
    pub execution_duration_ms: u64,
    pub peak_memory_bytes: u64,
    pub storage_read_bytes: u64,
    pub storage_write_bytes: u64,
}

/// Totals and per-job averages over the recorded jobs.
#[derive(Clone, Copy, Debug, PartialEq, Eq)]
pub struct AggregateResourceStats {
    pub total_jobs: u64,
    pub total_fuel_consumed: u64,
    pub total_execution_time_ms: u64,
    pub total_storage_read_bytes: u64,
    pub total_storage_write_bytes: u64,
    pub average_fuel_per_job: u64,
    pub average_duration_per_job_ms: u64,
    pub average_memory_per_job_bytes: u64,
}

impl Default for AggregateResourceStats {
    fn default() -> (res: Self)
        ensures
            res.total_jobs == 0 && res.total_fuel_consumed == 0 && res.total_execution_time_ms == 0
                && res.total_storage_read_bytes == 0 && res.total_storage_write_bytes == 0
                && res.average_fuel_per_job == 0 && res.average_duration_per_job_ms == 0
                && res.average_memory_per_job_bytes == 0,
    {
        AggregateResourceStats {
            total_jobs: 0,
            total_fuel_consumed: 0,
            total_execution_time_ms: 0,
            total_storage_read_bytes: 0,
            total_storage_write_bytes: 0,
            average_fuel_per_job: 0,
            average_duration_per_job_ms: 0,
            average_memory_per_job_bytes: 0,
        }
    }
}

/// The sums of the five figures over the samples.
pub open spec fn spec_sums(s: Seq<ResourceSample>) -> (int, int, int, int, int)
    decreases s.len(),
{
    if s.len() == 0 {
        (0, 0, 0, 0, 0)
    } else {
        let p = spec_sums(s.drop_last());
        let x = s.last();
        (p.0 + x.fuel_consumed, p.1 + x.execution_duration_ms, p.2 + x.peak_memory_bytes,
            p.3 + x.storage_read_bytes, p.4 + x.storage_write_bytes)
    }
}

proof fn lemma_sums_prefix(s: Seq<ResourceSample>, n: int)
    requires
        0 <= n <= s.len(),
    ensures
        spec_sums(s.take(n)).0 <= spec_sums(s).0,
        spec_sums(s.take(n)).1 <= spec_sums(s).1,
        spec_sums(s.take(n)).2 <= spec_sums(s).2,
        spec_sums(s.take(n)).3 <= spec_sums(s).3,
        spec_sums(s.take(n)).4 <= spec_sums(s).4,
    decreases s.len() - n,
{
    if n < s.len() {
        lemma_sums_prefix(s, n + 1);
        assert(s.take(n + 1).drop_last() =~= s.take(n));
    } else {
        assert(s.take(n) =~= s);
    }
}

proof fn lemma_sums_nonneg(s: Seq<ResourceSample>)
    ensures
        spec_sums(s).0 >= 0 && spec_sums(s).1 >= 0 && spec_sums(s).2 >= 0 && spec_sums(s).3 >= 0 && spec_sums(s).4 >= 0,
    decreases s.len(),
{
    if s.len() > 0 {
        lemma_sums_nonneg(s.drop_last());
    }
}

/// Totals and per-job averages (rounded down) of the recorded jobs; all
/// zero when there are none.
pub fn compute_aggregate_stats(samples: &[ResourceSample]) -> (res: AggregateResourceStats)
    requires
        spec_sums(samples@).0 <= u64::MAX,
        spec_sums(samples@).1 <= u64::MAX,
        spec_sums(samples@).2 <= u64::MAX,
        spec_sums(samples@).3 <= u64::MAX,
        spec_sums(samples@).4 <= u64::MAX,
    ensures
        samples@.len() == 0 ==> res.total_jobs == 0 && res.total_fuel_consumed == 0 && res.total_execution_time_ms == 0
            && res.total_storage_read_bytes == 0 && res.total_storage_write_bytes == 0
            && res.average_fuel_per_job == 0 && res.average_duration_per_job_ms == 0
            && res.average_memory_per_job_bytes == 0,
        samples@.len() > 0 ==> {
            let t = spec_sums(samples@);
            let n = samples@.len() as int;
            &&& res.total_jobs == n
            &&& res.total_fuel_consumed == t.0
            &&& res.total_execution_time_ms == t.1
            &&& res.total_storage_read_bytes == t.3
            &&& res.total_storage_write_bytes == t.4
            &&& res.average_fuel_per_job == t.0 / n
            &&& res.average_duration_per_job_ms == t.1 / n
            &&& res.average_memory_per_job_bytes == t.2 / n
        },
{
    if samples.len() == 0 {
        return AggregateResourceStats::default();
    }
    let mut fuel: u64 = 0;
    let mut duration: u64 = 0;
    let mut memory: u64 = 0;
    let mut read: u64 = 0;
    let mut write: u64 = 0;
    let mut i: usize = 0;
    while i < samples.len()
        invariant
            i <= samples@.len(),
            spec_sums(samples@).0 <= u64::MAX,
            spec_sums(samples@).1 <= u64::MAX,
            spec_sums(samples@).2 <= u64::MAX,
            spec_sums(samples@).3 <= u64::MAX,
            spec_sums(samples@).4 <= u64::MAX,
            (fuel as int, duration as int, memory as int, read as int, write as int) == spec_sums(samples@.take(i as int)),
        decreases samples@.len() - i,
    {
        proof {
            lemma_sums_prefix(samples@, i + 1);
            assert(samples@.take(i + 1).drop_last() =~= samples@.take(i as int));
        }
        let s = samples[i];
        fuel = fuel + s.fuel_consumed;
        duration = duration + s.execution_duration_ms;
        memory = memory + s.peak_memory_bytes;
        read = read + s.storage_read_bytes;
        write = write + s.storage_write_bytes;
        i = i + 1;
    }
    assert(samples@.take(samples@.len() as int) =~= samples@);
    let total_jobs = samples.len() as u64;
    AggregateResourceStats {
        total_jobs,
        total_fuel_consumed: fuel,
        total_execution_time_ms: duration,
        total_storage_read_bytes: read,
        total_storage_write_bytes: write,
        average_fuel_per_job: fuel / total_jobs,
        average_duration_per_job_ms: duration / total_jobs,
        average_memory_per_job_bytes: memory / total_jobs,
    }
}

/// The job totals a node reports, with the window of recent execution
/// times; the counters wrap around as atomic counters do.
#[derive(Clone, Debug, PartialEq, Eq)]
pub struct JobTotals {
    pub total_jobs_completed: u64,
    pub total_jobs_failed: u64,
    pub total_jobs_cancelled: u64,
    pub total_fuel_consumed: u64,
    pub execution_times: Vec<u64>,
}

/// A counter after adding `n`, wrapping around.
pub open spec fn spec_wrapping_add(a: u64, n: u64) -> u64 {
    if a + n <= u64::MAX { (a + n) as u64 } else { (a + n - u64::MAX - 1) as u64 }
}

impl JobTotals {
    /// Totals at zero, with no execution times.
    pub fn new() -> (res: Self)
        ensures
            res.total_jobs_completed == 0,
            res.total_jobs_failed == 0,
            res.total_jobs_cancelled == 0,
            res.total_fuel_consumed == 0,
            res.execution_times@.len() == 0,
    {
        JobTotals {
            total_jobs_completed: 0,
            total_jobs_failed: 0,
            total_jobs_cancelled: 0,
            total_fuel_consumed: 0,
            execution_times: Vec::new(),
        }
    }

    /// A job completed, using `fuel`, in `duration_ms`.
    pub fn record_job_completed(&mut self, fuel: u64, duration_ms: u64)
        ensures
            final(self).total_jobs_completed == spec_wrapping_add(old(self).total_jobs_completed, 1),
            final(self).total_fuel_consumed == spec_wrapping_add(old(self).total_fuel_consumed, fuel),
            final(self).total_jobs_failed == old(self).total_jobs_failed,
            final(self).total_jobs_cancelled == old(self).total_jobs_cancelled,
            old(self).execution_times@.len() < EXECUTION_WINDOW ==> final(self).execution_times@
                == old(self).execution_times@.push(duration_ms),
            old(self).execution_times@.len() >= EXECUTION_WINDOW ==> final(self).execution_times@
                == old(self).execution_times@.push(duration_ms).drop_first(),
    {
        self.total_jobs_completed = self.total_jobs_completed.wrapping_add(1);
        self.total_fuel_consumed = self.total_fuel_consumed.wrapping_add(fuel);
        record_execution_time(&mut self.execution_times, duration_ms);
    }

    /// A job failed.
    pub fn record_job_failed(&mut self)
        ensures
            final(self).total_jobs_failed == spec_wrapping_add(old(self).total_jobs_failed, 1),
            final(self).total_jobs_completed == old(self).total_jobs_completed,
            final(self).total_jobs_cancelled == old(self).total_jobs_cancelled,
            final(self).total_fuel_consumed == old(self).total_fuel_consumed,
            final(self).execution_times@ == old(self).execution_times@,
    {
        self.total_jobs_failed = self.total_jobs_failed.wrapping_add(1);
    }

    /// A job was cancelled.
    pub fn record_job_cancelled(&mut self)
        ensures
            final(self).total_jobs_cancelled == spec_wrapping_add(old(self).total_jobs_cancelled, 1),
            final(self).total_jobs_completed == old(self).total_jobs_completed,
            final(self).total_jobs_failed == old(self).total_jobs_failed,
            final(self).total_fuel_consumed == old(self).total_fuel_consumed,
            final(self).execution_times@ == old(self).execution_times@,
    {
        self.total_jobs_cancelled = self.total_jobs_cancelled.wrapping_add(1);
    }
}

} // verus!
