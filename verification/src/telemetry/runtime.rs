//! One sampling step over the kernel texts, and the latest-value store the
//! sampler publishes into. Reading the files, the clocks and the schedule
//! stay with the caller.
use std::sync::Arc;
use vstd::prelude::*;

use crate::config::TelemetryPolicy;
use crate::protocol::{TelemetrySnapshot, TelemetryValidationError, DEFAULT_TELEMETRY_INTERVAL_MS};
use crate::telemetry::cpu::{
    calculate_cpu_telemetry, cpu_telemetry, loadavg_result, parse_loadavg, parse_proc_stat,
    proc_stat_result, CpuCounters, CpuParseError,
};
use crate::telemetry::disk::{
    calculate_disk_telemetry, disk_telemetry, diskstats_lines, parse_diskstats,
    DiskCountersSnapshot, DiskParseError,
};
use crate::telemetry::memory::{meminfo_result, parse_meminfo, MemoryParseError};
use crate::telemetry::network::{
    calculate_network_telemetry, net_dev_result, network_telemetry, parse_net_dev,
    NetworkCountersSnapshot, NetworkParseError,
};
use crate::text::lines;

verus! {

/// Shares the value behind `a` (`Arc::clone`): the new handle points at
/// the same value.
#[verifier::external_body]
pub(crate) fn share<T>(a: &Arc<T>) -> (r: Arc<T>)
    ensures
        *r == **a,
{
    Arc::clone(a)
}

/// The most recent telemetry snapshot, shared with every reader.
pub struct TelemetryStore {
    latest: Option<Arc<TelemetrySnapshot>>,
}

impl TelemetryStore {
    /// The snapshot last published, if any.
    pub closed spec fn latest(&self) -> Option<TelemetrySnapshot> {
        match self.latest {
            Some(a) => Some(*a),
            None => None,
        }
    }

    pub fn current(&self) -> (r: Option<Arc<TelemetrySnapshot>>)
        ensures
            match r {
                Some(a) => self.latest() == Some(*a),
                None => self.latest() is None,
            },
    {
        match &self.latest {
            Some(a) => Some(share(a)),
            None => None,
        }
    }

    /// Replaces the published snapshot.
    pub fn publish(&mut self, snapshot: TelemetrySnapshot)
        ensures
            final(self).latest() == Some(snapshot),
    {
        self.latest = Some(Arc::new(snapshot));
    }
}

impl Default for TelemetryStore {
    fn default() -> (s: Self)
        ensures
            s.latest() is None,
    {
        TelemetryStore { latest: None }
    }
}

/// What the sampler remembers between samples: the sequence counter, when
/// the last good sample was taken (a monotonic clock reading in
/// nanoseconds), and the counters that rates are computed against.
pub struct Previous {
    pub sequence: u64,
    pub sampled_at_nanos: Option<u128>,
    pub cpu: Option<CpuCounters>,
    pub disk: Option<DiskCountersSnapshot>,
    pub network: Option<NetworkCountersSnapshot>,
}

impl Default for Previous {
    fn default() -> (p: Self)
        ensures
            p.sequence == 0,
            p.sampled_at_nanos is None,
            p.cpu is None,
            p.disk is None,
            p.network is None,
    {
        Previous { sequence: 0, sampled_at_nanos: None, cpu: None, disk: None, network: None }
    }
}

/// Why a sample failed; the last good snapshot stays published.
#[derive(Debug, Clone, Copy, PartialEq, Eq)]
pub enum SampleError {
    Cpu(CpuParseError),
    Disk(DiskParseError),
    Network(NetworkParseError),
    Memory(MemoryParseError),
    ClockBeforeEpoch,
    Invalid(TelemetryValidationError),
}

/// The texts of `/proc/stat`, `/proc/loadavg`, `/proc/meminfo`,
/// `/proc/diskstats` and `/proc/net/dev`, read together.
pub struct KernelTexts {
    pub stat: String,
    pub loadavg: String,
    pub meminfo: String,
    pub diskstats: String,
    pub net_dev: String,
}

/// Time since the previous good sample; the policy's interval for the first.
pub open spec fn elapsed_nanos(previous: Option<u128>, now_nanos: u128, policy: TelemetryPolicy) -> u128 {
    match previous {
        Some(then) => if now_nanos > then {
            (now_nanos - then) as u128
        } else {
            0
        },
        None => (policy.interval_ms * 1_000_000) as u128,
    }
}

/// The interval reported in a snapshot: the policy's, when it fits.
pub open spec fn reported_interval_ms(policy: TelemetryPolicy) -> u32 {
    if policy.interval_ms <= u32::MAX {
        policy.interval_ms as u32
    } else {
        DEFAULT_TELEMETRY_INTERVAL_MS
    }
}

pub open spec fn disk_view(s: Option<DiskCountersSnapshot>) -> Option<Seq<(Seq<char>, crate::telemetry::disk::DiskDeviceCounters)>> {
    match s {
        Some(v) => Some(v.entries()),
        None => None,
    }
}

pub open spec fn network_view(s: Option<NetworkCountersSnapshot>) -> Option<Seq<(Seq<char>, crate::telemetry::network::NetworkInterfaceCounters)>> {
    match s {
        Some(v) => Some(v.entries()),
        None => None,
    }
}

/// The outcome of one sample. The counters are parsed first; once they
/// parse the sequence advances, then the wall clock, the load averages and
/// the memory totals are read, and the snapshot must validate.
pub open spec fn sample_result(
    previous: Previous,
    policy: TelemetryPolicy,
    texts: KernelTexts,
    now_nanos: u128,
    unix_millis: Option<u128>,
) -> Result<TelemetrySnapshot, SampleError> {
    match proc_stat_result(texts.stat@) {
        Err(e) => Err(SampleError::Cpu(e)),
        Ok(cpu) => match diskstats_lines(lines(texts.diskstats@), policy.max_devices) {
            Err(e) => Err(SampleError::Disk(e)),
            Ok(disks) => match net_dev_result(texts.net_dev@, policy.max_interfaces) {
                Err(e) => Err(SampleError::Network(e)),
                Ok(nets) => match unix_millis {
                    None => Err(SampleError::ClockBeforeEpoch),
                    Some(ms) => match loadavg_result(texts.loadavg@) {
                        Err(e) => Err(SampleError::Cpu(e)),
                        Ok(load) => match meminfo_result(texts.meminfo@) {
                            Err(e) => Err(SampleError::Memory(e)),
                            Ok(memory) => {
                                let elapsed = elapsed_nanos(previous.sampled_at_nanos, now_nanos, policy);
                                let s = TelemetrySnapshot {
                                    sequence: (previous.sequence + 1) as u64,
                                    sampled_at_unix_ms: if ms > u64::MAX {
                                        u64::MAX
                                    } else {
                                        ms as u64
                                    },
                                    sample_interval_ms: reported_interval_ms(policy),
                                    cpu: cpu_telemetry(previous.cpu, cpu, load),
                                    memory,
                                    disk: disk_telemetry(disk_view(previous.disk), disks, elapsed),
                                    network: network_telemetry(network_view(previous.network), nets, elapsed),
                                };
                                match s.validation() {
                                    Err(e) => Err(SampleError::Invalid(e)),
                                    Ok(()) => Ok(s),
                                }
                            },
                        },
                    },
                },
            },
        },
    }
}

/// The three counter texts parse, so the sequence advances.
pub open spec fn counters_parse(policy: TelemetryPolicy, texts: KernelTexts) -> bool {
    &&& proc_stat_result(texts.stat@) is Ok
    &&& diskstats_lines(lines(texts.diskstats@), policy.max_devices) is Ok
    &&& net_dev_result(texts.net_dev@, policy.max_interfaces) is Ok
}

/// Takes one sample from the kernel texts read at monotonic time
/// `now_nanos`, at wall-clock time `unix_millis` (`None` when the clock is
/// before the epoch). A failed sample leaves the remembered counters and
/// time as they were.
pub fn sample(
    previous: &mut Previous,
    policy: TelemetryPolicy,
    texts: &KernelTexts,
    now_nanos: u128,
    unix_millis: Option<u128>,
) -> (r: Result<TelemetrySnapshot, SampleError>)
    requires
        old(previous).sequence < u64::MAX,
    ensures
        r == sample_result(*old(previous), policy, *texts, now_nanos, unix_millis),
        final(previous).sequence == if counters_parse(policy, *texts) {
            old(previous).sequence + 1
        } else {
            old(previous).sequence as int
        },
        r is Err ==> final(previous).sampled_at_nanos == old(previous).sampled_at_nanos
            && final(previous).cpu == old(previous).cpu && final(previous).disk == old(
            previous,
        ).disk && final(previous).network == old(previous).network,
        r is Ok ==> {
            &&& final(previous).sampled_at_nanos == Some(now_nanos)
            &&& final(previous).cpu == Some(proc_stat_result(texts.stat@)->Ok_0)
            &&& disk_view(final(previous).disk) == Some(
                diskstats_lines(lines(texts.diskstats@), policy.max_devices)->Ok_0,
            )
            &&& network_view(final(previous).network) == Some(
                net_dev_result(texts.net_dev@, policy.max_interfaces)->Ok_0,
            )
        },
{
    let elapsed: u128 = match previous.sampled_at_nanos {
        Some(then) => if now_nanos > then {
            now_nanos - then
        } else {
            0
        },
        None => (policy.interval_ms as u128) * 1_000_000,
    };
    let cpu_counters = match parse_proc_stat(texts.stat.as_str()) {
        Ok(c) => c,
        Err(e) => return Err(SampleError::Cpu(e)),
    };
    let disk_counters = match parse_diskstats(texts.diskstats.as_str(), policy.max_devices) {
        Ok(d) => d,
        Err(e) => return Err(SampleError::Disk(e)),
    };
    let network_counters = match parse_net_dev(texts.net_dev.as_str(), policy.max_interfaces) {
        Ok(n) => n,
        Err(e) => return Err(SampleError::Network(e)),
    };
    previous.sequence = previous.sequence + 1;
    let sampled_at_unix_ms: u64 = match unix_millis {
        Some(ms) => if ms > u64::MAX as u128 {
            u64::MAX
        } else {
            ms as u64
        },
        None => return Err(SampleError::ClockBeforeEpoch),
    };
    let sample_interval_ms: u32 = if policy.interval_ms <= u32::MAX as u64 {
        policy.interval_ms as u32
    } else {
        DEFAULT_TELEMETRY_INTERVAL_MS
    };
    let load = match parse_loadavg(texts.loadavg.as_str()) {
        Ok(l) => l,
        Err(e) => return Err(SampleError::Cpu(e)),
    };
    let cpu = calculate_cpu_telemetry(previous.cpu.as_ref(), &cpu_counters, load);
    let memory = match parse_meminfo(texts.meminfo.as_str()) {
        Ok(m) => m,
        Err(e) => return Err(SampleError::Memory(e)),
    };
    let disk = calculate_disk_telemetry(previous.disk.as_ref(), &disk_counters, elapsed);
    let network = calculate_network_telemetry(previous.network.as_ref(), &network_counters, elapsed);
    let snapshot = TelemetrySnapshot {
        sequence: previous.sequence,
        sampled_at_unix_ms,
        sample_interval_ms,
        cpu,
        memory,
        disk,
        network,
    };
    if let Err(e) = snapshot.validate() {
        return Err(SampleError::Invalid(e));
    }
    previous.sampled_at_nanos = Some(now_nanos);
    previous.cpu = Some(cpu_counters);
    previous.disk = Some(disk_counters);
    previous.network = Some(network_counters);
    Ok(snapshot)
}

} // verus!
