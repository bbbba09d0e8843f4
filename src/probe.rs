//! Accounting rule of the two TCP return probes, over a model of the two
//! kernel-resident tables: the whitelist gate and the per-process counters.
use std::collections::HashMap;
use vstd::prelude::*;
use vstd::std_specs::hash::spec_hash_map_iter;
use vstd::std_specs::iter::IteratorSpec;

verus! {

broadcast use vstd::std_specs::hash::group_hash_axioms;

/// Capacity of each kernel table.
pub const MAX_MAP_ENTRIES: usize = 10240;

/// Largest return value that is taken as the byte count of one call.
pub const MAX_TRANSFER_BYTES: i64 = 1048576;

/// Network counters of one process group.
#[derive(Clone, Copy, Debug, PartialEq, Eq, Structural)]
pub struct NetworkStats {
    pub tx_bytes: u64,
    pub rx_bytes: u64,
    pub tx_packets: u64,
    pub rx_packets: u64,
}

impl NetworkStats {
    pub open spec fn zero_spec() -> NetworkStats {
        NetworkStats { tx_bytes: 0, rx_bytes: 0, tx_packets: 0, rx_packets: 0 }
    }

    /// All four counters at zero: monitored, no traffic seen yet.
    pub fn zero() -> (r: NetworkStats)
        ensures
            r == NetworkStats::zero_spec(),
    {
        NetworkStats { tx_bytes: 0, rx_bytes: 0, tx_packets: 0, rx_packets: 0 }
    }

    /// Every counter of `self` is at least the matching counter of `other`.
    pub open spec fn dominates(self, other: NetworkStats) -> bool {
        &&& self.tx_bytes >= other.tx_bytes
        &&& self.rx_bytes >= other.rx_bytes
        &&& self.tx_packets >= other.tx_packets
        &&& self.rx_packets >= other.rx_packets
    }
}

/// The two probed paths.
#[derive(Clone, Copy, Debug, PartialEq, Eq, Structural)]
pub enum Direction {
    Send,
    Receive,
}

/// Failure of a table operation.
#[derive(Clone, Copy, Debug, PartialEq, Eq, Structural)]
pub enum MapError {
    /// The key is new and the table already holds its capacity.
    Full,
    /// The key to remove is not in the table.
    NotFound,
}

/// Process-group id: the upper half of the combined process/thread id.
pub open spec fn tgid_of(pid_tgid: u64) -> u32 {
    (pid_tgid >> 32u64) as u32
}

/// A return value that counts as a transfer: present, positive, at most 1 MiB.
pub open spec fn accepted_len(ret: Option<i64>) -> bool {
    match ret {
        Some(n) => 0 < n && n <= MAX_TRANSFER_BYTES,
        None => false,
    }
}

/// Whitelist gate: present with a nonzero flag.
pub open spec fn is_monitored(whitelist: Map<u32, u8>, id: u32) -> bool {
    whitelist.contains_key(id) && whitelist[id] != 0
}

/// One transfer of `n` bytes added to `s`, on the counters of direction `dir`.
pub open spec fn bumped(s: NetworkStats, dir: Direction, n: u64) -> NetworkStats {
    match dir {
        Direction::Send => NetworkStats {
            tx_bytes: s.tx_bytes.saturating_add(n),
            tx_packets: s.tx_packets.saturating_add(1),
            ..s
        },
        Direction::Receive => NetworkStats {
            rx_bytes: s.rx_bytes.saturating_add(n),
            rx_packets: s.rx_packets.saturating_add(1),
            ..s
        },
    }
}

/// A table of capacity `MAX_MAP_ENTRIES` after writing `v` at `k`: a new key
/// is dropped silently when the table is full.
pub open spec fn table_put<V>(m: Map<u32, V>, k: u32, v: V) -> Map<u32, V> {
    if m.contains_key(k) || m.len() < MAX_MAP_ENTRIES {
        m.insert(k, v)
    } else {
        m
    }
}

/// Counters after one probe invocation on `dir` by `pid_tgid` returning `ret`.
pub open spec fn probe_step(
    counters: Map<u32, NetworkStats>,
    whitelist: Map<u32, u8>,
    dir: Direction,
    pid_tgid: u64,
    ret: Option<i64>,
) -> Map<u32, NetworkStats> {
    let id = tgid_of(pid_tgid);
    if !accepted_len(ret) || !is_monitored(whitelist, id) {
        counters
    } else {
        let cur = if counters.contains_key(id) {
            counters[id]
        } else {
            NetworkStats::zero_spec()
        };
        table_put(counters, id, bumped(cur, dir, ret->0 as u64))
    }
}

/// The two kernel tables: counters and whitelist, keyed by process-group id.
pub struct KernelMaps {
    counters: HashMap<u32, NetworkStats>,
    whitelist: HashMap<u32, u8>,
}

impl KernelMaps {
    pub closed spec fn counters_view(&self) -> Map<u32, NetworkStats> {
        self.counters@
    }

    pub closed spec fn whitelist_view(&self) -> Map<u32, u8> {
        self.whitelist@
    }

    /// Neither table holds more than its capacity: `new` establishes it and
    /// every method keeps it.
    pub open spec fn wf(&self) -> bool {
        &&& self.counters_view().len() <= MAX_MAP_ENTRIES
        &&& self.whitelist_view().len() <= MAX_MAP_ENTRIES
        &&& self.counters_view().dom().finite()
        &&& self.whitelist_view().dom().finite()
    }

    /// Two empty tables.
    pub fn new() -> (r: KernelMaps)
        ensures
            r.wf(),
            r.counters_view() == Map::<u32, NetworkStats>::empty(),
            r.whitelist_view() == Map::<u32, u8>::empty(),
    {
        KernelMaps { counters: HashMap::new(), whitelist: HashMap::new() }
    }

    /// Reads the whitelist flag of `id`, zero when absent.
    fn whitelist_flag(&self, id: u32) -> (r: u8)
        ensures
            r != 0 <==> is_monitored(self.whitelist_view(), id),
    {
        match self.whitelist.get(&id) {
            Some(v) => *v,
            None => 0,
        }
    }

    /// Accounts one probe invocation: `pid_tgid` is the caller's combined
    /// process/thread id and `ret` the probed function's return value.
    pub fn account(&mut self, dir: Direction, pid_tgid: u64, ret: Option<i64>)
        requires
            old(self).wf(),
        ensures
            final(self).wf(),
            final(self).whitelist_view() == old(self).whitelist_view(),
            final(self).counters_view() == probe_step(
                old(self).counters_view(),
                old(self).whitelist_view(),
                dir,
                pid_tgid,
                ret,
            ),
    {
        let tgid: u32 = (pid_tgid >> 32u64) as u32;
        let n: i64 = match ret {
            Some(n) => n,
            None => { return; },
        };
        if n <= 0 || n > MAX_TRANSFER_BYTES {
            return;
        }
        if self.whitelist_flag(tgid) == 0 {
            return;
        }
        let bytes: u64 = n as u64;
        let cur: NetworkStats = match self.counters.get(&tgid) {
            Some(s) => *s,
            None => NetworkStats::zero(),
        };
        let next = match dir {
            Direction::Send => NetworkStats {
                tx_bytes: cur.tx_bytes.saturating_add(bytes),
                tx_packets: cur.tx_packets.saturating_add(1),
                rx_bytes: cur.rx_bytes,
                rx_packets: cur.rx_packets,
            },
            Direction::Receive => NetworkStats {
                tx_bytes: cur.tx_bytes,
                tx_packets: cur.tx_packets,
                rx_bytes: cur.rx_bytes.saturating_add(bytes),
                rx_packets: cur.rx_packets.saturating_add(1),
            },
        };
        let _ = self.counters_insert(tgid, next);
    }

    /// Writes `v` at `k` in the counters table; a new key fails when it is full.
    fn counters_insert(&mut self, k: u32, v: NetworkStats) -> (r: Result<(), MapError>)
        requires
            old(self).wf(),
        ensures
            final(self).wf(),
            final(self).whitelist_view() == old(self).whitelist_view(),
            final(self).counters_view() == table_put(old(self).counters_view(), k, v),
            r is Ok <==> (old(self).counters_view().contains_key(k) || old(self).counters_view().len()
                < MAX_MAP_ENTRIES),
    {
        if self.counters.contains_key(&k) || self.counters.len() < MAX_MAP_ENTRIES {
            self.counters.insert(k, v);
            Ok(())
        } else {
            Err(MapError::Full)
        }
    }

    /// Sets the whitelist flag of `pid`; a new key fails when the table is full.
    pub fn whitelist_insert(&mut self, pid: u32, flag: u8) -> (r: Result<(), MapError>)
        requires
            old(self).wf(),
        ensures
            final(self).wf(),
            final(self).counters_view() == old(self).counters_view(),
            final(self).whitelist_view() == table_put(old(self).whitelist_view(), pid, flag),
            r is Ok <==> (old(self).whitelist_view().contains_key(pid)
                || old(self).whitelist_view().len() < MAX_MAP_ENTRIES),
            r matches Err(e) ==> e == MapError::Full,
    {
        if self.whitelist.contains_key(&pid) || self.whitelist.len() < MAX_MAP_ENTRIES {
            self.whitelist.insert(pid, flag);
            Ok(())
        } else {
            Err(MapError::Full)
        }
    }

    /// Deletes `pid` from the whitelist; fails when it is not there.
    pub fn whitelist_remove(&mut self, pid: u32) -> (r: Result<(), MapError>)
        requires
            old(self).wf(),
        ensures
            final(self).wf(),
            final(self).counters_view() == old(self).counters_view(),
            final(self).whitelist_view() == old(self).whitelist_view().remove(pid),
            r is Ok <==> old(self).whitelist_view().contains_key(pid),
            r matches Err(e) ==> e == MapError::NotFound,
    {
        match self.whitelist.remove(&pid) {
            Some(_) => Ok(()),
            None => Err(MapError::NotFound),
        }
    }

    /// The counters of `pid`, if the table has an entry for it.
    pub fn counters_get(&self, pid: u32) -> (r: Option<NetworkStats>)
        ensures
            r == (if self.counters_view().contains_key(pid) {
                Some(self.counters_view()[pid])
            } else {
                None
            }),
    {
        match self.counters.get(&pid) {
            Some(s) => Some(*s),
            None => None,
        }
    }

    /// Every entry of the counters table, each once, in no stated order.
    pub fn counters_all(&self) -> (r: Vec<(u32, NetworkStats)>)
        ensures
            r@.len() == self.counters_view().len(),
            forall|i: int|
                0 <= i < r@.len() ==> #[trigger] self.counters_view().contains_key(r@[i].0)
                    && self.counters_view()[r@[i].0] == r@[i].1,
            forall|k: u32|
                #[trigger] self.counters_view().contains_key(k) ==> r@.contains(
                    (k, self.counters_view()[k]),
                ),
    {
        let mut out: Vec<(u32, NetworkStats)> = Vec::new();
        for kv in it: self.counters.iter()
            invariant
                out@.len() == it.index(),
                forall|i: int|
                    0 <= i < out@.len() ==> out@[i] == (*it.seq()[i].0, *it.seq()[i].1),
        {
            out.push((*kv.0, *kv.1));
        }
        proof {
            let m = self.counters_view();
            assert forall|k: u32| #[trigger] m.contains_key(k) implies out@.contains((k, m[k])) by {
                let v = spec_hash_map_iter(&self.counters).remaining();
                assert(v.contains((&k, &m[k])));
                let i = choose|i: int| 0 <= i < v.len() && v[i] == (&k, &m[k]);
                assert(out@[i] == (k, m[k]));
            }
        }
        out
    }
}

/// One invocation of a probe.
#[derive(Clone, Copy, Debug, PartialEq, Eq, Structural)]
pub struct ProbeEvent {
    pub dir: Direction,
    pub pid_tgid: u64,
    pub ret: Option<i64>,
}

/// Counters after a sequence of probe invocations, first to last.
pub open spec fn run_events(
    counters: Map<u32, NetworkStats>,
    whitelist: Map<u32, u8>,
    events: Seq<ProbeEvent>,
) -> Map<u32, NetworkStats>
    decreases events.len(),
{
    if events.len() == 0 {
        counters
    } else {
        let e = events[0];
        run_events(
            probe_step(counters, whitelist, e.dir, e.pid_tgid, e.ret),
            whitelist,
            events.drop_first(),
        )
    }
}

/// The counters of `id`, zero when the table has no entry for it.
pub open spec fn counters_of(counters: Map<u32, NetworkStats>, id: u32) -> NetworkStats {
    if counters.contains_key(id) {
        counters[id]
    } else {
        NetworkStats::zero_spec()
    }
}

/// Under any sequence of probe invocations, a process group that has counters
/// keeps them, and none of its four counters ever decreases.
pub proof fn lemma_counters_monotonic(
    counters: Map<u32, NetworkStats>,
    whitelist: Map<u32, u8>,
    events: Seq<ProbeEvent>,
    id: u32,
)
    ensures
        counters.contains_key(id) ==> run_events(counters, whitelist, events).contains_key(id),
        counters_of(run_events(counters, whitelist, events), id).dominates(
            counters_of(counters, id),
        ),
    decreases events.len(),
{
    if events.len() > 0 {
        let e = events[0];
        let next = probe_step(counters, whitelist, e.dir, e.pid_tgid, e.ret);
        assert(counters.contains_key(id) ==> next.contains_key(id));
        assert(counters_of(next, id).dominates(counters_of(counters, id)));
        lemma_counters_monotonic(next, whitelist, events.drop_first(), id);
    }
}

/// Under any sequence of probe invocations, the counters of a process group
/// that the whitelist does not monitor are neither created nor changed.
pub proof fn lemma_unmonitored_untouched(
    counters: Map<u32, NetworkStats>,
    whitelist: Map<u32, u8>,
    events: Seq<ProbeEvent>,
    id: u32,
)
    requires
        !is_monitored(whitelist, id),
    ensures
        run_events(counters, whitelist, events).contains_key(id) == counters.contains_key(id),
        counters.contains_key(id) ==> run_events(counters, whitelist, events)[id] == counters[id],
    decreases events.len(),
{
    if events.len() > 0 {
        let e = events[0];
        let next = probe_step(counters, whitelist, e.dir, e.pid_tgid, e.ret);
        assert(next.contains_key(id) == counters.contains_key(id));
        assert(counters.contains_key(id) ==> next[id] == counters[id]);
        lemma_unmonitored_untouched(next, whitelist, events.drop_first(), id);
    }
}

/// Return probe of the TCP send path: accounts `ret` bytes sent by the
/// process group of `pid_tgid`. Fails only when the return value is missing.
pub fn try_tcp_sendmsg(maps: &mut KernelMaps, pid_tgid: u64, ret: Option<i64>) -> (r: Result<
    u32,
    i64,
>)
    requires
        old(maps).wf(),
    ensures
        final(maps).wf(),
        final(maps).whitelist_view() == old(maps).whitelist_view(),
        final(maps).counters_view() == probe_step(
            old(maps).counters_view(),
            old(maps).whitelist_view(),
            Direction::Send,
            pid_tgid,
            ret,
        ),
        !accepted_len(ret) ==> final(maps).counters_view() == old(maps).counters_view(),
        !is_monitored(old(maps).whitelist_view(), tgid_of(pid_tgid))
            ==> final(maps).counters_view() == old(maps).counters_view(),
        r == (if ret is Some { Ok::<u32, i64>(0) } else { Err::<u32, i64>(0) }),
{
    maps.account(Direction::Send, pid_tgid, ret);
    match ret {
        Some(_) => Ok(0),
        None => Err(0),
    }
}

/// Entry point of the send probe: the probe's own result is always zero.
pub fn tcp_sendmsg(maps: &mut KernelMaps, pid_tgid: u64, ret: Option<i64>) -> (r: u32)
    requires
        old(maps).wf(),
    ensures
        final(maps).wf(),
        final(maps).whitelist_view() == old(maps).whitelist_view(),
        final(maps).counters_view() == probe_step(
            old(maps).counters_view(),
            old(maps).whitelist_view(),
            Direction::Send,
            pid_tgid,
            ret,
        ),
        r == 0,
{
    match try_tcp_sendmsg(maps, pid_tgid, ret) {
        Ok(v) => v,
        Err(_) => 0,
    }
}

/// Return probe of the TCP receive path: accounts `ret` bytes received by the
/// process group of `pid_tgid`. Fails only when the return value is missing.
pub fn try_tcp_recvmsg(maps: &mut KernelMaps, pid_tgid: u64, ret: Option<i64>) -> (r: Result<
    u32,
    i64,
>)
    requires
        old(maps).wf(),
    ensures
        final(maps).wf(),
        final(maps).whitelist_view() == old(maps).whitelist_view(),
        final(maps).counters_view() == probe_step(
            old(maps).counters_view(),
            old(maps).whitelist_view(),
            Direction::Receive,
            pid_tgid,
            ret,
        ),
        !accepted_len(ret) ==> final(maps).counters_view() == old(maps).counters_view(),
        !is_monitored(old(maps).whitelist_view(), tgid_of(pid_tgid))
            ==> final(maps).counters_view() == old(maps).counters_view(),
        r == (if ret is Some { Ok::<u32, i64>(0) } else { Err::<u32, i64>(0) }),
{
    maps.account(Direction::Receive, pid_tgid, ret);
    match ret {
        Some(_) => Ok(0),
        None => Err(0),
    }
}

/// Entry point of the receive probe: the probe's own result is always zero.
pub fn tcp_recvmsg(maps: &mut KernelMaps, pid_tgid: u64, ret: Option<i64>) -> (r: u32)
    requires
        old(maps).wf(),
    ensures
        final(maps).wf(),
        final(maps).whitelist_view() == old(maps).whitelist_view(),
        final(maps).counters_view() == probe_step(
            old(maps).counters_view(),
            old(maps).whitelist_view(),
            Direction::Receive,
            pid_tgid,
            ret,
        ),
        r == 0,
{
    match try_tcp_recvmsg(maps, pid_tgid, ret) {
        Ok(v) => v,
        Err(_) => 0,
    }
}

} // verus!
