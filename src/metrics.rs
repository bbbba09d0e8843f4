//! The exported series: which ones each target carries on a scrape, and
//! which earlier ones must be retired.
use crate::registry::{ProcessStatus, Registry};
use vstd::prelude::*;

verus! {

/// The metric families of the exporter.
#[derive(Clone, Copy, Debug, PartialEq, Eq, Structural)]
pub enum MetricFamily {
    Up,
    PidInfo,
    CpuUsage,
    MemoryBytes,
    MemoryPercent,
    VirtualMemoryBytes,
    ThreadCount,
    RegisteredTimestamp,
    LastCheckTimestamp,
    DiskReadBytes,
    DiskWrittenBytes,
    NetworkTxBytes,
    NetworkRxBytes,
    NetworkTxPackets,
    NetworkRxPackets,
}

impl MetricFamily {
    pub open spec fn is_counter_spec(self) -> bool {
        match self {
            MetricFamily::DiskReadBytes | MetricFamily::DiskWrittenBytes
            | MetricFamily::NetworkTxBytes | MetricFamily::NetworkRxBytes
            | MetricFamily::NetworkTxPackets | MetricFamily::NetworkRxPackets => true,
            _ => false,
        }
    }

    /// Cumulative counters, exported as the latest total; the others are gauges.
    pub fn is_counter(&self) -> (r: bool)
        ensures
            r == self.is_counter_spec(),
    {
        match self {
            MetricFamily::DiskReadBytes | MetricFamily::DiskWrittenBytes
            | MetricFamily::NetworkTxBytes | MetricFamily::NetworkRxBytes
            | MetricFamily::NetworkTxPackets | MetricFamily::NetworkRxPackets => true,
            _ => false,
        }
    }
}

/// One exported series of a target. The process-id family is labelled by
/// `pid`; the others by `cmdline`. Percentages are in thousandths of a percent.
#[derive(Clone, Debug)]
pub struct Series {
    pub family: MetricFamily,
    pub name: String,
    pub cmdline: String,
    pub pid: Option<i32>,
    pub value: u64,
}

pub open spec fn series_of(st: ProcessStatus, family: MetricFamily, value: u64) -> Series {
    Series { family, name: st.config.name, cmdline: st.config.cmdline, pid: None, value }
}

/// The resource series of a target: shown only while it runs with a valid snapshot.
pub open spec fn resource_series(st: ProcessStatus) -> Seq<Series> {
    if st.is_running && st.stats.valid_spec() {
        seq![
            series_of(st, MetricFamily::CpuUsage, st.stats.cpu_usage_millis),
            series_of(st, MetricFamily::MemoryBytes, st.stats.memory_bytes),
            series_of(st, MetricFamily::MemoryPercent, st.stats.memory_percent_millis),
            series_of(st, MetricFamily::VirtualMemoryBytes, st.stats.virtual_memory_bytes),
            series_of(st, MetricFamily::ThreadCount, st.stats.thread_count as u64),
            series_of(st, MetricFamily::DiskReadBytes, st.stats.disk_read_bytes),
            series_of(st, MetricFamily::DiskWrittenBytes, st.stats.disk_written_bytes),
            series_of(st, MetricFamily::NetworkTxBytes, st.stats.network_tx_bytes),
            series_of(st, MetricFamily::NetworkRxBytes, st.stats.network_rx_bytes),
            series_of(st, MetricFamily::NetworkTxPackets, st.stats.network_tx_packets),
            series_of(st, MetricFamily::NetworkRxPackets, st.stats.network_rx_packets),
        ]
    } else {
        Seq::empty()
    }
}

/// Every series of one target: its current process id, its up gauge, its
/// resources, and its two timestamps.
pub open spec fn status_series(st: ProcessStatus) -> Seq<Series> {
    let pid_info = match st.pid {
        Some(p) => seq![
            Series {
                family: MetricFamily::PidInfo,
                name: st.config.name,
                cmdline: st.config.cmdline,
                pid: Some(p),
                value: 1,
            },
        ],
        None => Seq::empty(),
    };
    let up = seq![series_of(st, MetricFamily::Up, if st.is_running { 1u64 } else { 0u64 })];
    let stamps = seq![
        series_of(st, MetricFamily::RegisteredTimestamp, st.registered_at),
        series_of(st, MetricFamily::LastCheckTimestamp, st.last_check),
    ];
    pid_info + up + resource_series(st) + stamps
}

/// Every series of every target, target by target.
pub open spec fn all_series(s: Seq<ProcessStatus>) -> Seq<Series>
    decreases s.len(),
{
    if s.len() == 0 {
        Seq::empty()
    } else {
        all_series(s.drop_last()) + status_series(s.last())
    }
}

/// The same series, whatever its value.
pub open spec fn same_key(a: Series, b: Series) -> bool {
    &&& a.family == b.family
    &&& a.name@ == b.name@
    &&& a.cmdline@ == b.cmdline@
    &&& a.pid == b.pid
}

pub open spec fn keyed_in(a: Series, s: Seq<Series>) -> bool {
    exists|j: int| 0 <= j < s.len() && same_key(a, #[trigger] s[j])
}

/// The series of `prev` that `next` no longer has, in order.
pub open spec fn retired_spec(prev: Seq<Series>, next: Seq<Series>) -> Seq<Series>
    decreases prev.len(),
{
    if prev.len() == 0 {
        Seq::empty()
    } else {
        let r = retired_spec(prev.drop_last(), next);
        if keyed_in(prev.last(), next) {
            r
        } else {
            r.push(prev.last())
        }
    }
}

fn make_series(st: &ProcessStatus, family: MetricFamily, value: u64) -> (r: Series)
    ensures
        r == series_of(*st, family, value),
{
    Series {
        family,
        name: st.config.name.clone(),
        cmdline: st.config.cmdline.clone(),
        pid: None,
        value,
    }
}

fn copy_series(s: &Series) -> (r: Series)
    ensures
        r == *s,
{
    Series {
        family: s.family,
        name: s.name.clone(),
        cmdline: s.cmdline.clone(),
        pid: s.pid,
        value: s.value,
    }
}

/// Appends the series of one target to `out`.
fn push_status_series(out: &mut Vec<Series>, st: &ProcessStatus)
    ensures
        final(out)@ == old(out)@ + status_series(*st),
{
    let ghost start = out@;
    if let Some(p) = st.pid {
        out.push(
            Series {
                family: MetricFamily::PidInfo,
                name: st.config.name.clone(),
                cmdline: st.config.cmdline.clone(),
                pid: Some(p),
                value: 1,
            },
        );
    }
    out.push(make_series(st, MetricFamily::Up, if st.is_running { 1 } else { 0 }));
    if st.is_running && st.stats.is_valid() {
        let s = st.stats;
        out.push(make_series(st, MetricFamily::CpuUsage, s.cpu_usage_millis));
        out.push(make_series(st, MetricFamily::MemoryBytes, s.memory_bytes));
        out.push(make_series(st, MetricFamily::MemoryPercent, s.memory_percent_millis));
        out.push(make_series(st, MetricFamily::VirtualMemoryBytes, s.virtual_memory_bytes));
        out.push(make_series(st, MetricFamily::ThreadCount, s.thread_count as u64));
        out.push(make_series(st, MetricFamily::DiskReadBytes, s.disk_read_bytes));
        out.push(make_series(st, MetricFamily::DiskWrittenBytes, s.disk_written_bytes));
        out.push(make_series(st, MetricFamily::NetworkTxBytes, s.network_tx_bytes));
        out.push(make_series(st, MetricFamily::NetworkRxBytes, s.network_rx_bytes));
        out.push(make_series(st, MetricFamily::NetworkTxPackets, s.network_tx_packets));
        out.push(make_series(st, MetricFamily::NetworkRxPackets, s.network_rx_packets));
    }
    out.push(make_series(st, MetricFamily::RegisteredTimestamp, st.registered_at));
    out.push(make_series(st, MetricFamily::LastCheckTimestamp, st.last_check));
    assert(out@ =~= start + status_series(*st));
}

/// The series a scrape exports for the registry, target by target.
pub fn desired_series(reg: &Registry) -> (r: Vec<Series>)
    ensures
        r@ == all_series(reg.entries_spec()),
{
    let entries = reg.entries();
    let mut out: Vec<Series> = Vec::new();
    let n = entries.len();
    let mut i: usize = 0;
    while i < n
        invariant
            i <= n,
            n == entries@.len(),
            entries@ == reg.entries_spec(),
            out@ == all_series(entries@.subrange(0, i as int)),
        decreases n - i,
    {
        assert(entries@.subrange(0, i + 1).drop_last() =~= entries@.subrange(0, i as int));
        push_status_series(&mut out, &entries[i]);
        i += 1;
    }
    assert(entries@.subrange(0, n as int) =~= entries@);
    out
}

fn same_key_exec(a: &Series, b: &Series) -> (r: bool)
    ensures
        r == same_key(*a, *b),
{
    let same_pid = match (a.pid, b.pid) {
        (Some(x), Some(y)) => x == y,
        (None, None) => true,
        _ => false,
    };
    a.family == b.family && same_pid && a.name == b.name && a.cmdline == b.cmdline
}

/// The series of the previous scrape that this one no longer exports: the
/// exporter removes them.
pub fn retired_series(prev: &Vec<Series>, next: &Vec<Series>) -> (r: Vec<Series>)
    ensures
        r@ == retired_spec(prev@, next@),
{
    let mut out: Vec<Series> = Vec::new();
    let n = prev.len();
    let m = next.len();
    let mut i: usize = 0;
    while i < n
        invariant
            i <= n,
            n == prev@.len(),
            m == next@.len(),
            out@ == retired_spec(prev@.subrange(0, i as int), next@),
        decreases n - i,
    {
        let mut kept = false;
        let mut j: usize = 0;
        while j < m
            invariant
                j <= m,
                m == next@.len(),
                i < n,
                n == prev@.len(),
                kept == exists|k: int| 0 <= k < j && same_key(prev@[i as int], #[trigger] next@[k]),
            decreases m - j,
        {
            if same_key_exec(&prev[i], &next[j]) {
                kept = true;
            }
            j += 1;
        }
        assert(prev@.subrange(0, i + 1).drop_last() =~= prev@.subrange(0, i as int));
        assert(prev@.subrange(0, i + 1).last() == prev@[i as int]);
        if !kept {
            out.push(copy_series(&prev[i]));
        }
        i += 1;
    }
    assert(prev@.subrange(0, n as int) =~= prev@);
    out
}

} // verus!
