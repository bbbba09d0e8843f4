//! Point-in-time resource snapshot of one process, merged from an operating
//! system sample and the kernel network counters.
use crate::probe::NetworkStats;
use vstd::prelude::*;

verus! {

/// Merged snapshot of one process. Percentages are in thousandths of a percent.
#[derive(Clone, Copy, Debug, PartialEq, Eq, Structural)]
pub struct ProcessStats {
    pub cpu_usage_millis: u64,
    pub memory_bytes: u64,
    pub memory_percent_millis: u64,
    pub virtual_memory_bytes: u64,
    pub disk_read_bytes: u64,
    pub disk_written_bytes: u64,
    /// Not sampled: always zero.
    pub thread_count: usize,
    pub network_tx_bytes: u64,
    pub network_rx_bytes: u64,
    pub network_tx_packets: u64,
    pub network_rx_packets: u64,
}

/// What the operating system reports of one process at one instant.
#[derive(Clone, Copy, Debug, PartialEq, Eq, Structural)]
pub struct OsSample {
    /// CPU usage, in thousandths of a percent.
    pub cpu_usage_millis: u64,
    pub memory_bytes: u64,
    pub virtual_memory_bytes: u64,
    pub disk_read_bytes: u64,
    pub disk_written_bytes: u64,
}

pub open spec fn empty_stats() -> ProcessStats {
    ProcessStats {
        cpu_usage_millis: 0,
        memory_bytes: 0,
        memory_percent_millis: 0,
        virtual_memory_bytes: 0,
        disk_read_bytes: 0,
        disk_written_bytes: 0,
        thread_count: 0,
        network_tx_bytes: 0,
        network_rx_bytes: 0,
        network_tx_packets: 0,
        network_rx_packets: 0,
    }
}

/// `part` as thousandths of a percent of `total`, rounded down, capped at
/// `u64::MAX`; zero when `total` is zero.
pub open spec fn percent_millis(part: u64, total: u64) -> u64 {
    if total == 0 {
        0
    } else if part as int * 100000 / total as int > u64::MAX {
        u64::MAX
    } else {
        (part as int * 100000 / total as int) as u64
    }
}

/// The snapshot of a process from its sample, the total memory of the
/// machine at sample time and its network counters, zero where it has none.
pub open spec fn merged(sample: OsSample, total_memory: u64, net: Option<NetworkStats>) -> ProcessStats {
    let n = match net {
        Some(s) => s,
        None => NetworkStats::zero_spec(),
    };
    ProcessStats {
        cpu_usage_millis: sample.cpu_usage_millis,
        memory_bytes: sample.memory_bytes,
        memory_percent_millis: percent_millis(sample.memory_bytes, total_memory),
        virtual_memory_bytes: sample.virtual_memory_bytes,
        disk_read_bytes: sample.disk_read_bytes,
        disk_written_bytes: sample.disk_written_bytes,
        thread_count: 0,
        network_tx_bytes: n.tx_bytes,
        network_rx_bytes: n.rx_bytes,
        network_tx_packets: n.tx_packets,
        network_rx_packets: n.rx_packets,
    }
}

impl ProcessStats {
    /// All fields zero.
    pub fn empty() -> (r: ProcessStats)
        ensures
            r == empty_stats(),
    {
        ProcessStats {
            cpu_usage_millis: 0,
            memory_bytes: 0,
            memory_percent_millis: 0,
            virtual_memory_bytes: 0,
            disk_read_bytes: 0,
            disk_written_bytes: 0,
            thread_count: 0,
            network_tx_bytes: 0,
            network_rx_bytes: 0,
            network_tx_packets: 0,
            network_rx_packets: 0,
        }
    }

    pub open spec fn valid_spec(self) -> bool {
        self.cpu_usage_millis > 0 || self.memory_bytes > 0
    }

    /// A snapshot carries data when it shows CPU use or resident memory.
    pub fn is_valid(&self) -> (r: bool)
        ensures
            r == self.valid_spec(),
    {
        self.cpu_usage_millis > 0 || self.memory_bytes > 0
    }
}

/// `part` as thousandths of a percent of `total`.
pub fn percent_of(part: u64, total: u64) -> (r: u64)
    ensures
        r == percent_millis(part, total),
{
    if total == 0 {
        return 0;
    }
    let scaled: u128 = part as u128 * 100000u128;
    let q: u128 = scaled / total as u128;
    if q > u64::MAX as u128 {
        u64::MAX
    } else {
        q as u64
    }
}

/// Merges an operating-system sample with the process's network counters;
/// the memory percentage is taken against `total_memory`, sampled with it.
pub fn build_snapshot(sample: &OsSample, total_memory: u64, net: Option<NetworkStats>) -> (r:
    ProcessStats)
    ensures
        r == merged(*sample, total_memory, net),
{
    let n = match net {
        Some(s) => s,
        None => NetworkStats::zero(),
    };
    ProcessStats {
        cpu_usage_millis: sample.cpu_usage_millis,
        memory_bytes: sample.memory_bytes,
        memory_percent_millis: percent_of(sample.memory_bytes, total_memory),
        virtual_memory_bytes: sample.virtual_memory_bytes,
        disk_read_bytes: sample.disk_read_bytes,
        disk_written_bytes: sample.disk_written_bytes,
        thread_count: 0,
        network_tx_bytes: n.tx_bytes,
        network_rx_bytes: n.rx_bytes,
        network_tx_packets: n.tx_packets,
        network_rx_packets: n.rx_packets,
    }
}

} // verus!
