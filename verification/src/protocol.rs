//! The telemetry records exchanged between nodes: history requests and
//! responses, node metadata, system samples and process summaries.
//!
//! Floating-point measurements are carried as their IEEE-754 bit patterns
//! (`f32::to_bits` / `f64::to_bits`); the library stores and forwards them
//! without computing on them.
use vstd::prelude::*;

verus! {

/// The request-response protocol name for history queries.
pub const HISTORY_PROTOCOL: &'static str = "/watchmedo/history/1";

/// The gossip topic carrying live telemetry.
pub const LIVE_TELEMETRY_TOPIC: &'static str = "watchmedo/live/1";

/// A query for stored telemetry.
#[derive(Clone, Copy, Debug, PartialEq, Eq, Structural)]
pub struct HistoryRequest {
    /// Only samples captured at most this many seconds before the query.
    pub lookback_secs: Option<u64>,
    /// Whether to include the latest process list.
    pub include_processes: bool,
    /// At most this many processes, when given.
    pub max_processes: Option<usize>,
}

impl Default for HistoryRequest {
    /// Everything retained, with all processes.
    fn default() -> (r: Self)
        ensures
            r == (HistoryRequest { lookback_secs: None, include_processes: true, max_processes: None }),
    {
        HistoryRequest { lookback_secs: None, include_processes: true, max_processes: None }
    }
}

impl HistoryRequest {
    /// The request a web query asks for: processes are included unless the
    /// query says otherwise.
    pub fn from_query(
        lookback_secs: Option<u64>,
        include_processes: Option<bool>,
        max_processes: Option<usize>,
    ) -> (r: Self)
        ensures
            r.lookback_secs == lookback_secs,
            r.include_processes == match include_processes {
                Some(b) => b,
                None => true,
            },
            r.max_processes == max_processes,
    {
        let wanted = match include_processes {
            Some(b) => b,
            None => true,
        };
        HistoryRequest { lookback_secs, include_processes: wanted, max_processes }
    }
}

/// A copy of an optional string.
fn clone_opt(s: &Option<String>) -> (r: Option<String>)
    ensures
        r == *s,
{
    match s {
        Some(v) => Some(v.clone()),
        None => None,
    }
}

/// Facts about the machine a node runs on.
#[derive(Debug)]
pub struct NodeMetadata {
    pub host_name: Option<String>,
    pub system_name: Option<String>,
    pub os_version: Option<String>,
    pub kernel_version: Option<String>,
    pub cpu_count: usize,
    pub physical_core_count: Option<usize>,
}

impl Clone for NodeMetadata {
    fn clone(&self) -> (r: Self)
        ensures
            r == *self,
    {
        NodeMetadata {
            host_name: clone_opt(&self.host_name),
            system_name: clone_opt(&self.system_name),
            os_version: clone_opt(&self.os_version),
            kernel_version: clone_opt(&self.kernel_version),
            cpu_count: self.cpu_count,
            physical_core_count: self.physical_core_count,
        }
    }
}

/// One system-wide measurement.
#[derive(Clone, Copy, Debug, PartialEq, Eq, Structural)]
pub struct SystemSample {
    pub sequence: u64,
    pub captured_at_ms: u64,
    /// Bits of the `f32` CPU usage percentage.
    pub cpu_usage_pct: u32,
    /// Bits of the `f64` one-minute load average.
    pub load_average_one: u64,
    /// Bits of the `f64` five-minute load average.
    pub load_average_five: u64,
    /// Bits of the `f64` fifteen-minute load average.
    pub load_average_fifteen: u64,
    pub total_memory_bytes: u64,
    pub used_memory_bytes: u64,
    pub available_memory_bytes: u64,
    pub total_swap_bytes: u64,
    pub used_swap_bytes: u64,
    pub process_count: usize,
    pub total_disk_bytes: u64,
    pub available_disk_bytes: u64,
    pub network_received_bytes: u64,
    pub network_transmitted_bytes: u64,
    pub total_network_received_bytes: u64,
    pub total_network_transmitted_bytes: u64,
}

/// One process in the top-process list.
#[derive(Debug, PartialEq, Eq)]
pub struct ProcessSummary {
    pub pid: String,
    pub name: String,
    /// Bits of the `f32` CPU usage percentage.
    pub cpu_usage_pct: u32,
    pub memory_bytes: u64,
    pub virtual_memory_bytes: u64,
    pub status: String,
}

impl Clone for ProcessSummary {
    fn clone(&self) -> (r: Self)
        ensures
            r == *self,
    {
        ProcessSummary {
            pid: self.pid.clone(),
            name: self.name.clone(),
            cpu_usage_pct: self.cpu_usage_pct,
            memory_bytes: self.memory_bytes,
            virtual_memory_bytes: self.virtual_memory_bytes,
            status: self.status.clone(),
        }
    }
}

/// A copy of the first `n` processes of `v` (all of them when `n` is larger).
pub fn clone_processes_prefix(v: &Vec<ProcessSummary>, n: usize) -> (r: Vec<ProcessSummary>)
    ensures
        r@ == v@.take(if n < v.len() {
            n as int
        } else {
            v.len() as int
        }),
{
    let end = if n < v.len() {
        n
    } else {
        v.len()
    };
    let mut r: Vec<ProcessSummary> = Vec::new();
    let mut i: usize = 0;
    while i < end
        invariant
            i <= end <= v.len(),
            r@ == v@.take(i as int),
        decreases end - i,
    {
        r.push(v[i].clone());
        assert(r@ =~= v@.take(i + 1));
        i += 1;
    }
    r
}

/// A copy of a process list.
pub fn clone_processes(v: &Vec<ProcessSummary>) -> (r: Vec<ProcessSummary>)
    ensures
        r@ == v@,
{
    let r = clone_processes_prefix(v, v.len());
    assert(v@.take(v.len() as int) =~= v@);
    r
}

/// The answer to a history query.
#[derive(Debug)]
pub struct HistoryResponse {
    pub generated_at_ms: u64,
    pub retention_secs: u64,
    pub sample_interval_ms: u64,
    pub node: NodeMetadata,
    pub samples: Vec<SystemSample>,
    pub top_processes: Vec<ProcessSummary>,
}

impl HistoryResponse {
    /// The answer a node that keeps no history gives to a request it did not
    /// expect: generated at `generated_at_ms`, with nothing retained, nothing
    /// known of the machine, and no samples or processes.
    pub fn empty(generated_at_ms: u64) -> (r: Self)
        ensures
            r.generated_at_ms == generated_at_ms,
            r.retention_secs == 0,
            r.sample_interval_ms == 0,
            r.node == (NodeMetadata {
                host_name: None,
                system_name: None,
                os_version: None,
                kernel_version: None,
                cpu_count: 0,
                physical_core_count: None,
            }),
            r.samples@.len() == 0,
            r.top_processes@.len() == 0,
    {
        HistoryResponse {
            generated_at_ms,
            retention_secs: 0,
            sample_interval_ms: 0,
            node: NodeMetadata {
                host_name: None,
                system_name: None,
                os_version: None,
                kernel_version: None,
                cpu_count: 0,
                physical_core_count: None,
            },
            samples: Vec::new(),
            top_processes: Vec::new(),
        }
    }
}

/// One collection round: a sample and the top processes.
#[derive(Debug)]
pub struct CollectedTelemetry {
    pub sample: SystemSample,
    pub top_processes: Vec<ProcessSummary>,
}

/// A collection round as published to live subscribers.
#[derive(Debug)]
pub struct LiveTelemetryEvent {
    pub published_at_ms: u64,
    pub sample: SystemSample,
    pub top_processes: Vec<ProcessSummary>,
}

impl CollectedTelemetry {
    /// The live event for this round, published at `published_at_ms`.
    pub fn into_live_event(self, published_at_ms: u64) -> (r: LiveTelemetryEvent)
        ensures
            r.published_at_ms == published_at_ms,
            r.sample == self.sample,
            r.top_processes == self.top_processes,
    {
        LiveTelemetryEvent {
            published_at_ms,
            sample: self.sample,
            top_processes: self.top_processes,
        }
    }
}

} // verus!
