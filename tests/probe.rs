use process_exporter::probe::{
    tcp_recvmsg, tcp_sendmsg, try_tcp_recvmsg, try_tcp_sendmsg, KernelMaps, MapError, NetworkStats,
    MAX_MAP_ENTRIES,
};

fn pid_tgid(tgid: u32, tid: u32) -> u64 {
    ((tgid as u64) << 32) | tid as u64
}

fn monitored(tgid: u32) -> KernelMaps {
    let mut maps = KernelMaps::new();
    maps.whitelist_insert(tgid, 1).unwrap();
    maps
}

#[test]
fn send_is_counted_for_whitelisted_group() {
    let mut maps = monitored(4242);
    assert_eq!(tcp_sendmsg(&mut maps, pid_tgid(4242, 4250), Some(1500)), 0);
    let s = maps.counters_get(4242).unwrap();
    assert_eq!(s, NetworkStats { tx_bytes: 1500, rx_bytes: 0, tx_packets: 1, rx_packets: 0 });
}

#[test]
fn receive_is_counted_for_whitelisted_group() {
    let mut maps = monitored(7);
    assert_eq!(tcp_recvmsg(&mut maps, pid_tgid(7, 9), Some(100)), 0);
    assert_eq!(tcp_recvmsg(&mut maps, pid_tgid(7, 7), Some(23)), 0);
    let s = maps.counters_get(7).unwrap();
    assert_eq!(s, NetworkStats { tx_bytes: 0, rx_bytes: 123, tx_packets: 0, rx_packets: 2 });
}

#[test]
fn implausible_return_values_leave_counters_alone() {
    let mut maps = monitored(5);
    try_tcp_sendmsg(&mut maps, pid_tgid(5, 5), Some(10)).unwrap();
    let before = maps.counters_get(5);
    for ret in [0i64, -1, -104, 1048577, i64::MAX, i64::MIN] {
        assert_eq!(try_tcp_sendmsg(&mut maps, pid_tgid(5, 5), Some(ret)), Ok(0));
        assert_eq!(try_tcp_recvmsg(&mut maps, pid_tgid(5, 5), Some(ret)), Ok(0));
    }
    assert_eq!(maps.counters_get(5), before);
}

#[test]
fn missing_return_value_is_an_error_and_changes_nothing() {
    let mut maps = monitored(5);
    assert_eq!(try_tcp_sendmsg(&mut maps, pid_tgid(5, 5), None), Err(0));
    assert_eq!(try_tcp_recvmsg(&mut maps, pid_tgid(5, 5), None), Err(0));
    assert_eq!(tcp_sendmsg(&mut maps, pid_tgid(5, 5), None), 0);
    assert_eq!(maps.counters_get(5), None);
}

#[test]
fn largest_plausible_transfer_is_counted() {
    let mut maps = monitored(5);
    tcp_sendmsg(&mut maps, pid_tgid(5, 1), Some(1048576));
    assert_eq!(maps.counters_get(5).unwrap().tx_bytes, 1048576);
}

#[test]
fn unmonitored_groups_get_no_counters() {
    let mut maps = KernelMaps::new();
    maps.whitelist_insert(8, 0).unwrap();
    tcp_sendmsg(&mut maps, pid_tgid(8, 8), Some(10));
    tcp_recvmsg(&mut maps, pid_tgid(9, 8), Some(10));
    assert_eq!(maps.counters_get(8), None);
    assert_eq!(maps.counters_get(9), None);
    assert!(maps.counters_all().is_empty());
}

#[test]
fn group_id_is_upper_half_of_pid_tgid() {
    let mut maps = monitored(3);
    tcp_sendmsg(&mut maps, pid_tgid(4, 3), Some(10));
    assert_eq!(maps.counters_get(3), None);
    tcp_sendmsg(&mut maps, pid_tgid(3, 4), Some(10));
    assert_eq!(maps.counters_get(3).unwrap().tx_packets, 1);
}

#[test]
fn counters_never_decrease_over_a_sequence() {
    let mut maps = monitored(11);
    let mut last = NetworkStats::zero();
    let rets = [Some(5i64), None, Some(-3), Some(1048576), Some(2_000_000), Some(1), Some(0)];
    for (i, ret) in rets.iter().enumerate() {
        if i % 2 == 0 {
            tcp_sendmsg(&mut maps, pid_tgid(11, 12), *ret);
        } else {
            tcp_recvmsg(&mut maps, pid_tgid(11, 12), *ret);
        }
        let now = maps.counters_get(11).unwrap_or(NetworkStats::zero());
        assert!(now.tx_bytes >= last.tx_bytes && now.rx_bytes >= last.rx_bytes);
        assert!(now.tx_packets >= last.tx_packets && now.rx_packets >= last.rx_packets);
        last = now;
    }
    assert_eq!(last, NetworkStats { tx_bytes: 5, rx_bytes: 1048577, tx_packets: 1, rx_packets: 2 });
}

#[test]
fn counters_saturate_instead_of_wrapping() {
    let mut maps = monitored(1);
    for _ in 0..3 {
        tcp_sendmsg(&mut maps, pid_tgid(1, 1), Some(1048576));
    }
    assert_eq!(maps.counters_get(1).unwrap().tx_bytes, 3 * 1048576);
}

#[test]
fn whitelist_remove_of_absent_pid_fails() {
    let mut maps = KernelMaps::new();
    assert_eq!(maps.whitelist_remove(77), Err(MapError::NotFound));
    maps.whitelist_insert(77, 1).unwrap();
    assert_eq!(maps.whitelist_remove(77), Ok(()));
    tcp_sendmsg(&mut maps, pid_tgid(77, 77), Some(10));
    assert_eq!(maps.counters_get(77), None);
}

#[test]
fn full_whitelist_drops_new_keys_only() {
    let mut maps = KernelMaps::new();
    for pid in 0..MAX_MAP_ENTRIES as u32 {
        maps.whitelist_insert(pid, 1).unwrap();
    }
    assert_eq!(maps.whitelist_insert(999_999, 1), Err(MapError::Full));
    assert_eq!(maps.whitelist_insert(3, 2), Ok(()));
}

#[test]
fn full_counter_table_drops_new_groups_silently() {
    let mut maps = KernelMaps::new();
    for pid in 0..MAX_MAP_ENTRIES as u32 {
        maps.whitelist_insert(pid, 1).unwrap();
        tcp_sendmsg(&mut maps, pid_tgid(pid, 0), Some(1));
    }
    assert_eq!(maps.counters_all().len(), MAX_MAP_ENTRIES);
    maps.whitelist_remove(0).unwrap();
    maps.whitelist_insert(20_000, 1).unwrap();
    tcp_sendmsg(&mut maps, pid_tgid(20_000, 0), Some(1));
    assert_eq!(maps.counters_get(20_000), None);
    tcp_sendmsg(&mut maps, pid_tgid(1, 0), Some(1));
    assert_eq!(maps.counters_get(1).unwrap().tx_packets, 2);
}

#[test]
fn counters_all_lists_every_entry_once() {
    let mut maps = KernelMaps::new();
    for pid in [3u32, 1, 2] {
        maps.whitelist_insert(pid, 1).unwrap();
        tcp_recvmsg(&mut maps, pid_tgid(pid, 0), Some(pid as i64));
    }
    let mut all = maps.counters_all();
    all.sort_by_key(|e| e.0);
    let keys: Vec<u32> = all.iter().map(|e| e.0).collect();
    assert_eq!(keys, vec![1, 2, 3]);
    assert_eq!(all[2].1.rx_bytes, 3);
}
