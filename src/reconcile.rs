//! The loader steps of the registry run against the kernel tables.
use crate::probe::{is_monitored, table_put, KernelMaps, NetworkStats, MAX_MAP_ENTRIES};
use crate::registry::{refresh_ops_spec, LoaderOp};
use vstd::prelude::*;

verus! {

/// Table key of a process id.
pub open spec fn key_of(pid: i32) -> u32 {
    pid as u32
}

/// The whitelist after one loader step.
pub open spec fn whitelist_step(wl: Map<u32, u8>, op: LoaderOp) -> Map<u32, u8> {
    match op {
        LoaderOp::Revoke(p) => wl.remove(key_of(p)),
        LoaderOp::Grant(p) => table_put(wl, key_of(p), 1u8),
        LoaderOp::ReadCounters(_) => wl,
    }
}

/// The whitelist after a sequence of loader steps, first to last.
pub open spec fn whitelist_after(wl: Map<u32, u8>, ops: Seq<LoaderOp>) -> Map<u32, u8>
    decreases ops.len(),
{
    if ops.len() == 0 {
        wl
    } else {
        whitelist_after(whitelist_step(wl, ops[0]), ops.drop_first())
    }
}

/// Runs one loader step on the tables. A failed table operation is dropped,
/// as the exporter only reports it; a counter read gives the entry, if any.
pub fn run_loader_op(maps: &mut KernelMaps, op: LoaderOp) -> (r: Option<NetworkStats>)
    requires
        old(maps).wf(),
    ensures
        final(maps).wf(),
        final(maps).counters_view() == old(maps).counters_view(),
        final(maps).whitelist_view() == whitelist_step(old(maps).whitelist_view(), op),
        op is ReadCounters ==> r == (if old(maps).counters_view().contains_key(
            key_of(op->ReadCounters_0),
        ) {
            Some(old(maps).counters_view()[key_of(op->ReadCounters_0)])
        } else {
            None
        }),
        !(op is ReadCounters) ==> r is None,
{
    match op {
        LoaderOp::Revoke(p) => {
            let _ = maps.whitelist_remove(#[verifier::truncate] (p as u32));
            None
        },
        LoaderOp::Grant(p) => {
            let _ = maps.whitelist_insert(#[verifier::truncate] (p as u32), 1);
            None
        },
        LoaderOp::ReadCounters(p) => maps.counters_get(#[verifier::truncate] (p as u32)),
    }
}

/// When a target's process changes from `p1` to `p2`, a scrape revokes `p1`,
/// then grants `p2`, then reads the counters of `p2`; at that read `p1` is out
/// of the whitelist and `p2` is in it. The one exception is a whitelist that
/// is full even after `p1` has left it and does not hold `p2`.
pub proof fn lemma_identity_change(wl: Map<u32, u8>, p1: i32, p2: i32)
    requires
        p1 != p2,
        wl.dom().finite(),
        wl.contains_key(key_of(p2)) || wl.remove(key_of(p1)).len() < MAX_MAP_ENTRIES,
    ensures
        refresh_ops_spec(Some(p1), Some(p2)) == seq![
            LoaderOp::Revoke(p1),
            LoaderOp::Grant(p2),
            LoaderOp::ReadCounters(p2),
        ],
        !whitelist_after(wl, refresh_ops_spec(Some(p1), Some(p2)).take(2)).contains_key(key_of(p1)),
        is_monitored(whitelist_after(wl, refresh_ops_spec(Some(p1), Some(p2)).take(2)), key_of(p2)),
{
    let ops = refresh_ops_spec(Some(p1), Some(p2));
    assert(ops =~= seq![LoaderOp::Revoke(p1), LoaderOp::Grant(p2), LoaderOp::ReadCounters(p2)]);
    assert((p1 as u32) != (p2 as u32)) by (bit_vector)
        requires
            p1 != p2,
    ;
    let w1 = wl.remove(key_of(p1));
    let w2 = table_put(w1, key_of(p2), 1u8);
    let first = ops.take(2);
    assert(first.drop_first().drop_first().len() == 0);
    assert(whitelist_after(wl, first) == whitelist_after(w1, first.drop_first()));
    assert(whitelist_after(w1, first.drop_first()) == whitelist_after(
        w2,
        first.drop_first().drop_first(),
    ));
}

} // verus!
