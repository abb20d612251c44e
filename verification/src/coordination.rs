//! What a node advertises about its capacity, which jobs it can take, and
//! the integer parts of choosing a peer for a job.

use vstd::prelude::*;

verus! {

/// A node's specialization tag.
#[derive(Clone, Debug, PartialEq, Eq, Hash)]
pub enum Specialization {
    AiMl,
    HighMemory,
    GpuCompute,
    LowLatency,
    HighBandwidth,
    EdgeCompute,
    Custom(String),
}

/// The capacity a node advertises (its CPU load figure is carried beside it
/// by the node, since nothing here reads it).
#[derive(Clone, Debug, PartialEq, Eq)]
pub struct NodeCapabilities {
    pub cpu_cores: u32,
    pub memory_gb: u32,
    pub memory_available_gb: u32,
    pub has_gpu: bool,
    pub gpu_model: Option<String>,
    pub gpu_vram_gb: Option<u32>,
    pub storage_gb: u64,
    pub bandwidth_mbps: Option<u32>,
    pub specializations: Vec<Specialization>,
    pub max_concurrent_jobs: u32,
    pub current_job_count: u32,
    pub advertised_at: u64,
}

/// What a job needs of the node that runs it.
#[derive(Clone, Debug, PartialEq, Eq)]
pub struct JobRequirements {
    pub min_cpu_cores: u32,
    pub min_memory_gb: u32,
    pub requires_gpu: bool,
    pub min_gpu_vram_gb: Option<u32>,
    pub required_specializations: Vec<Specialization>,
}

impl Default for JobRequirements {
    fn default() -> (res: Self)
        ensures
            res.min_cpu_cores == 1,
            res.min_memory_gb == 1,
            !res.requires_gpu,
            res.min_gpu_vram_gb is None,
            res.required_specializations@.len() == 0,
    {
        JobRequirements {
            min_cpu_cores: 1,
            min_memory_gb: 1,
            requires_gpu: false,
            min_gpu_vram_gb: None,
            required_specializations: Vec::new(),
        }
    }
}

/// The node has a free job slot.
pub open spec fn spec_available_for_jobs(c: NodeCapabilities) -> bool {
    c.current_job_count < c.max_concurrent_jobs
}

/// The node can take a job with these requirements: enough cores and free
/// memory, a GPU with enough memory when one is asked for, and a free slot.
pub open spec fn spec_meets_requirements(c: NodeCapabilities, r: JobRequirements) -> bool {
    &&& c.cpu_cores >= r.min_cpu_cores
    &&& c.memory_available_gb >= r.min_memory_gb
    &&& (r.requires_gpu ==> c.has_gpu)
    &&& (r.min_gpu_vram_gb matches Some(v) ==> (match c.gpu_vram_gb { Some(g) => g, None => 0u32 }) >= v)
    &&& spec_available_for_jobs(c)
}

impl NodeCapabilities {
    /// Whether the node has a free job slot.
    pub fn is_available_for_jobs(&self) -> (res: bool)
        ensures
            res == spec_available_for_jobs(*self),
    {
        self.current_job_count < self.max_concurrent_jobs
    }

    /// Whether the node can take a job with these requirements.
    pub fn meets_requirements(&self, requirements: &JobRequirements) -> (res: bool)
        ensures
            res == spec_meets_requirements(*self, *requirements),
            res ==> self.cpu_cores >= requirements.min_cpu_cores && self.memory_available_gb
                >= requirements.min_memory_gb && self.current_job_count < self.max_concurrent_jobs,
    {
        if self.cpu_cores < requirements.min_cpu_cores {
            return false;
        }
        if self.memory_available_gb < requirements.min_memory_gb {
            return false;
        }
        if requirements.requires_gpu && !self.has_gpu {
            return false;
        }
        if let Some(min_vram) = requirements.min_gpu_vram_gb {
            let vram = match self.gpu_vram_gb {
                Some(v) => v,
                None => 0,
            };
            if vram < min_vram {
                return false;
            }
        }
        if !self.is_available_for_jobs() {
            return false;
        }
        true
    }

    /// The free job slots: `max_concurrent_jobs - current_job_count`, or 0.
    pub fn free_slots(&self) -> (res: u32)
        ensures
            res == (if self.current_job_count <= self.max_concurrent_jobs {
                self.max_concurrent_jobs - self.current_job_count
            } else {
                0
            }),
    {
        self.max_concurrent_jobs.saturating_sub(self.current_job_count)
    }

    /// Refresh what changes while the node runs: free memory, running jobs
    /// and the time of the advertisement (seconds since the epoch).
    pub fn update_runtime_metrics(&mut self, current_jobs: u32, memory_available_gb: u32, now_secs: u64)
        ensures
            final(self).current_job_count == current_jobs,
            final(self).memory_available_gb == memory_available_gb,
            final(self).advertised_at == now_secs,
            final(self).cpu_cores == old(self).cpu_cores,
            final(self).memory_gb == old(self).memory_gb,
            final(self).has_gpu == old(self).has_gpu,
            final(self).gpu_vram_gb == old(self).gpu_vram_gb,
            final(self).storage_gb == old(self).storage_gb,
            final(self).max_concurrent_jobs == old(self).max_concurrent_jobs,
    {
        self.memory_available_gb = memory_available_gb;
        self.current_job_count = current_jobs;
        self.advertised_at = now_secs;
    }
}

/// A node with more memory than this (in GiB) is tagged high-memory.
pub const HIGH_MEMORY_GB: u64 = 64;

/// The capabilities of a node with these resources: two job slots per
/// core, the high-memory tag above 64 GiB, no GPU, 100 GB of storage.
pub fn capabilities_for_system(cpu_cores: u32, total_memory_gb: u64, available_memory_gb: u64, now_secs: u64)
    -> (res: NodeCapabilities)
    requires
        cpu_cores * 2 <= u32::MAX,
    ensures
        res.cpu_cores == cpu_cores,
        res.memory_gb == total_memory_gb as u32,
        res.memory_available_gb == available_memory_gb as u32,
        !res.has_gpu,
        res.gpu_model is None,
        res.gpu_vram_gb is None,
        res.storage_gb == 100,
        res.bandwidth_mbps is None,
        res.specializations@.len() == (if total_memory_gb > HIGH_MEMORY_GB { 1int } else { 0int }),
        total_memory_gb > HIGH_MEMORY_GB ==> res.specializations@[0] == Specialization::HighMemory,
        res.max_concurrent_jobs == cpu_cores * 2,
        res.current_job_count == 0,
        res.advertised_at == now_secs,
{
    let mut specializations: Vec<Specialization> = Vec::new();
    if total_memory_gb > HIGH_MEMORY_GB {
        specializations.push(Specialization::HighMemory);
    }
    NodeCapabilities {
        cpu_cores,
        memory_gb: total_memory_gb as u32,
        memory_available_gb: available_memory_gb as u32,
        has_gpu: false,
        gpu_model: None,
        gpu_vram_gb: None,
        storage_gb: 100,
        bandwidth_mbps: None,
        specializations,
        max_concurrent_jobs: cpu_cores * 2,
        current_job_count: 0,
        advertised_at: now_secs,
    }
}

/// Whether an advertisement is due: the interval has passed since the last
/// one, or the clock went back (times in milliseconds).
pub open spec fn spec_should_broadcast(now_ms: u64, last_ms: u64, interval_ms: u64) -> bool {
    now_ms < last_ms || now_ms - last_ms >= interval_ms
}

/// Decides when a node advertises its capabilities again.
pub struct CapabilityAdvertiser {
    pub capabilities: NodeCapabilities,
    pub broadcast_interval_ms: u64,
    pub last_broadcast_ms: u64,
}

/// The default time between advertisements: thirty seconds.
pub const BROADCAST_INTERVAL_MS: u64 = 30_000;

impl CapabilityAdvertiser {
    /// An advertiser that is due at once (its last advertisement counts as a
    /// minute before `now_ms`).
    pub fn new(capabilities: NodeCapabilities, now_ms: u64) -> (res: Self)
        requires
            now_ms >= 60_000,
        ensures
            res.capabilities == capabilities,
            res.broadcast_interval_ms == BROADCAST_INTERVAL_MS,
            res.last_broadcast_ms == now_ms - 60_000,
    {
        CapabilityAdvertiser {
            capabilities,
            broadcast_interval_ms: BROADCAST_INTERVAL_MS,
            last_broadcast_ms: now_ms - 60_000,
        }
    }

    /// Whether an advertisement is due at `now_ms`.
    pub fn should_broadcast(&self, now_ms: u64) -> (res: bool)
        ensures
            res == spec_should_broadcast(now_ms, self.last_broadcast_ms, self.broadcast_interval_ms),
    {
        if now_ms >= self.last_broadcast_ms {
            now_ms - self.last_broadcast_ms >= self.broadcast_interval_ms
        } else {
            true
        }
    }

    /// Record an advertisement at `now_ms`.
    pub fn mark_broadcasted(&mut self, now_ms: u64)
        ensures
            final(self).last_broadcast_ms == now_ms,
            final(self).broadcast_interval_ms == old(self).broadcast_interval_ms,
            final(self).capabilities == old(self).capabilities,
    {
        self.last_broadcast_ms = now_ms;
    }

    /// Change the time between advertisements.
    pub fn set_broadcast_interval(&mut self, interval_ms: u64)
        ensures
            final(self).broadcast_interval_ms == interval_ms,
            final(self).last_broadcast_ms == old(self).last_broadcast_ms,
            final(self).capabilities == old(self).capabilities,
    {
        self.broadcast_interval_ms = interval_ms;
    }

    /// When an advertisement is due: refresh the runtime figures, record the
    /// advertisement and say so; otherwise change nothing.
    pub fn refresh_if_due(&mut self, now_ms: u64, current_jobs: u32, memory_available_gb: u64) -> (res: bool)
        ensures
            res == spec_should_broadcast(now_ms, old(self).last_broadcast_ms, old(self).broadcast_interval_ms),
            res ==> {
                &&& final(self).last_broadcast_ms == now_ms
                &&& final(self).capabilities.current_job_count == current_jobs
                &&& final(self).capabilities.memory_available_gb == memory_available_gb as u32
                &&& final(self).capabilities.advertised_at == now_ms / 1000
            },
            !res ==> *final(self) == *old(self),
    {
        if self.should_broadcast(now_ms) {
            self.capabilities.update_runtime_metrics(current_jobs, memory_available_gb as u32, now_ms / 1000);
            self.mark_broadcasted(now_ms);
            true
        } else {
            false
        }
    }
}

/// Why a peer was chosen.
#[derive(Clone, Copy, Debug, PartialEq, Eq, Structural)]
pub enum SelectionReason {
    BestScore,
    CapabilityMatch,
    LowLoad,
    RoundRobin,
    OnlyAvailable,
}

/// How a peer is chosen for a job.
#[derive(Clone, Copy, Debug, PartialEq, Eq, Structural)]
pub enum BalancingStrategy {
    BestScore,
    RoundRobin,
    LeastLoad,
    CapabilityMatch,
}

/// Sum of the free slots of the peers whose capabilities are known.
pub open spec fn spec_total_free(caps: Seq<Option<NodeCapabilities>>) -> int
    decreases caps.len(),
{
    if caps.len() == 0 {
        0
    } else {
        spec_total_free(caps.drop_last()) + match caps.last() {
            Some(c) => if c.current_job_count <= c.max_concurrent_jobs {
                c.max_concurrent_jobs - c.current_job_count
            } else {
                0
            },
            None => 0,
        }
    }
}

/// Total free job slots over the peers whose capabilities are known.
pub fn total_available_capacity(caps: &Vec<Option<NodeCapabilities>>) -> (res: u32)
    requires
        spec_total_free(caps@) <= u32::MAX,
    ensures
        res == spec_total_free(caps@),
{
    let mut total: u32 = 0;
    let mut i: usize = 0;
    while i < caps.len()
        invariant
            i <= caps@.len(),
            total == spec_total_free(caps@.take(i as int)),
            spec_total_free(caps@) <= u32::MAX,
        decreases caps@.len() - i,
    {
        assert(caps@.take(i + 1).drop_last() =~= caps@.take(i as int));
        proof {
            lemma_total_free_prefix(caps@, i + 1);
        }
        match &caps[i] {
            Some(c) => {
                total = total + c.free_slots();
            },
            None => {},
        }
        i = i + 1;
    }
    assert(caps@.take(caps@.len() as int) =~= caps@);
    total
}

proof fn lemma_total_free_prefix(caps: Seq<Option<NodeCapabilities>>, n: int)
    requires
        0 <= n <= caps.len(),
    ensures
        spec_total_free(caps.take(n)) <= spec_total_free(caps),
        spec_total_free(caps.take(n)) >= 0,
    decreases caps.len() - n,
{
    if n < caps.len() {
        lemma_total_free_prefix(caps, n + 1);
        assert(caps.take(n + 1).drop_last() =~= caps.take(n));
    } else {
        assert(caps.take(n) =~= caps);
    }
    lemma_total_free_nonneg(caps.take(n));
}

proof fn lemma_total_free_nonneg(caps: Seq<Option<NodeCapabilities>>)
    ensures
        spec_total_free(caps) >= 0,
    decreases caps.len(),
{
    if caps.len() > 0 {
        lemma_total_free_nonneg(caps.drop_last());
    }
}

/// The position of the first peer with the fewest assigned jobs.
pub open spec fn spec_least_loaded(jobs: Seq<u32>, n: int) -> int
    decreases n,
{
    if n <= 1 {
        0
    } else {
        let prev = spec_least_loaded(jobs, n - 1);
        if jobs[n - 1] < jobs[prev] { n - 1 } else { prev }
    }
}

/// The position of the first peer with the fewest assigned jobs, if any.
pub fn least_loaded(jobs: &[u32]) -> (res: Option<usize>)
    ensures
        jobs@.len() == 0 ==> res is None,
        jobs@.len() > 0 ==> res == Some(spec_least_loaded(jobs@, jobs@.len() as int) as usize),
        res matches Some(k) ==> k < jobs@.len() && forall|j: int| 0 <= j < jobs@.len() ==> jobs@[k as int] <= jobs@[j],
{
    if jobs.len() == 0 {
        return None;
    }
    let mut best: usize = 0;
    let mut i: usize = 1;
    while i < jobs.len()
        invariant
            1 <= i <= jobs@.len(),
            best == spec_least_loaded(jobs@, i as int),
            best < i,
            forall|j: int| 0 <= j < i ==> jobs@[best as int] <= jobs@[j],
        decreases jobs@.len() - i,
    {
        if jobs[i] < jobs[best] {
            best = i;
        }
        i = i + 1;
    }
    Some(best)
}

/// Round-robin choice among `len` candidates: the position to pick (the
/// stored position, or 0 when it is out of range) and the stored position
/// for next time.
pub fn round_robin_pick(index: usize, len: usize) -> (res: (usize, usize))
    requires
        len > 0,
    ensures
        res.0 == (if index >= len { 0 } else { index }),
        res.1 == (res.0 + 1) % (len as int),
        res.0 < len,
        res.1 < len,
{
    let pick = if index >= len { 0 } else { index };
    (pick, (pick + 1) % len)
}

/// The score a measured round-trip latency earns: 100 under 50 ms, 80
/// under 100 ms, 60 under 200 ms, 40 under 500 ms, else 20.
pub fn latency_bucket_score(latency_ms: u64) -> (res: u8)
    ensures
        res == (if latency_ms < 50 {
            100u8
        } else if latency_ms < 100 {
            80u8
        } else if latency_ms < 200 {
            60u8
        } else if latency_ms < 500 {
            40u8
        } else {
            20u8
        }),
{
    if latency_ms < 50 {
        100
    } else if latency_ms < 100 {
        80
    } else if latency_ms < 200 {
        60
    } else if latency_ms < 500 {
        40
    } else {
        20
    }
}

/// Seconds after its last update that a peer's load is no longer used.
pub const PEER_LOAD_MAX_AGE_SECS: u64 = 300;

/// Whether a peer's load, updated at `last_updated_ms`, is stale at
/// `now_ms`: more than `max_age_secs` whole seconds old, or updated in the
/// future.
pub fn is_stale(last_updated_ms: u64, now_ms: u64, max_age_secs: u64) -> (res: bool)
    ensures
        res == (now_ms < last_updated_ms || (now_ms - last_updated_ms) / 1000 > max_age_secs),
{
    if now_ms < last_updated_ms {
        return true;
    }
    (now_ms - last_updated_ms) / 1000 > max_age_secs
}

/// Whether a peer may be given a job: its load is fresh, and when the job
/// has requirements, its capabilities are known and meet them.
pub fn is_eligible(
    last_updated_ms: u64,
    now_ms: u64,
    capabilities: Option<&NodeCapabilities>,
    requirements: Option<&JobRequirements>,
) -> (res: bool)
    ensures
        res == (!(now_ms < last_updated_ms || (now_ms - last_updated_ms) / 1000 > PEER_LOAD_MAX_AGE_SECS) && match requirements {
            None => true,
            Some(r) => match capabilities {
                Some(c) => spec_meets_requirements(*c, *r),
                None => false,
            },
        }),
{
    if is_stale(last_updated_ms, now_ms, PEER_LOAD_MAX_AGE_SECS) {
        return false;
    }
    match requirements {
        None => true,
        Some(r) => match capabilities {
            Some(c) => c.meets_requirements(r),
            None => false,
        },
    }
}

/// A node qualifies for a job exactly when it has at least the cores and the
/// free memory the job asks for, a GPU when one is required, at least the GPU
/// memory asked for (a node that reports none has none), and a free job slot.
pub proof fn lemma_meets_requirements_exactly(c: NodeCapabilities, r: JobRequirements)
    ensures
        spec_meets_requirements(c, r) <==> (c.cpu_cores >= r.min_cpu_cores && c.memory_available_gb
            >= r.min_memory_gb && (r.requires_gpu ==> c.has_gpu) && (match r.min_gpu_vram_gb {
            Some(v) => v == 0 || (c.gpu_vram_gb matches Some(g) && g >= v),
            None => true,
        }) && c.current_job_count < c.max_concurrent_jobs),
{
}

/// Qualifying is monotone: a node with at least as many cores, as much free
/// memory and GPU memory, a GPU whenever the other has one, and a free slot
/// qualifies for every job the other qualifies for.
pub proof fn lemma_meets_requirements_monotone(a: NodeCapabilities, b: NodeCapabilities, r: JobRequirements)
    requires
        spec_meets_requirements(a, r),
        b.cpu_cores >= a.cpu_cores,
        b.memory_available_gb >= a.memory_available_gb,
        a.has_gpu ==> b.has_gpu,
        (match a.gpu_vram_gb { Some(g) => g, None => 0u32 }) <= (match b.gpu_vram_gb { Some(g) => g, None => 0u32 }),
        b.current_job_count < b.max_concurrent_jobs,
    ensures
        spec_meets_requirements(b, r),
{
}

} // verus!
