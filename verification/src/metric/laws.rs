//! What the reported figures are of: each counter of its own figure, and each difference of the
//! two figures that were reported.
use super::cpu::{CpuState, CpuTimes};
use super::disk::DiskStat;
use super::host_metric::{
    Counter, CounterType, CounterValue,
};
use super::memory::MemInfo;
use super::network::NetDevStat;
use super::ratio::Ratio;
use vstd::prelude::*;

verus! {

use super::host_metric::{
    active_share,
    cpu_counters,
    device_counters,
    disk_counters,
    disk_named,
    iface_counters,
    memory_counters,
    net_counters,
    net_named,
    state_shares,
};

/// How much a figure grew: nothing where it went back.
pub open spec fn growth(now: int, before: int) -> int {
    if now >= before {
        now - before
    } else {
        0
    }
}

/// A value at one moment.
pub open spec fn gauge_of(c: Counter, name: &'static str, v: int) -> bool {
    &&& c.0 == name
    &&& c.1 == CounterType::Gauged
    &&& c.2 matches CounterValue::Unsigned(n) && n == v
}

/// What was added since the last report.
pub open spec fn count_of(c: Counter, name: &'static str, v: int) -> bool {
    &&& c.0 == name
    &&& c.1 == CounterType::Counted
    &&& c.2 matches CounterValue::Unsigned(n) && n == v
}

/// A share of a whole at one moment.
pub open spec fn share_of(c: Counter, name: &'static str, part: int, whole: int) -> bool {
    &&& c.0 == name
    &&& c.1 == CounterType::Gauged
    &&& c.2 matches CounterValue::Percent(r) && r.part == part && r.whole == whole
}

/// Each named share is that of its own state in all ten, and the parts of all states but the idle
/// and the waiting one add up to the active part.
pub proof fn each_state_has_its_own_share(delta: CpuTimes)
    requires
        delta.user + delta.nice + delta.system + delta.idle + delta.iowait + delta.irq
            + delta.softirq + delta.steal + delta.guest + delta.guest_nice <= u64::MAX,
    ensures
        ({
            let s = state_shares(delta);
            let whole = delta.user + delta.nice + delta.system + delta.idle + delta.iowait
                + delta.irq + delta.softirq + delta.steal + delta.guest + delta.guest_nice;
            &&& s.len() == 10
            &&& s[0] == ("cpu_user_pct", Ratio { part: delta.user, whole: whole as u64 })
            &&& s[1] == ("cpu_nice_pct", Ratio { part: delta.nice, whole: whole as u64 })
            &&& s[2] == ("cpu_system_pct", Ratio { part: delta.system, whole: whole as u64 })
            &&& s[3] == ("cpu_idle_pct", Ratio { part: delta.idle, whole: whole as u64 })
            &&& s[4] == ("cpu_iowait_pct", Ratio { part: delta.iowait, whole: whole as u64 })
            &&& s[5] == ("cpu_irq_pct", Ratio { part: delta.irq, whole: whole as u64 })
            &&& s[6] == ("cpu_softirq_pct", Ratio { part: delta.softirq, whole: whole as u64 })
            &&& s[7] == ("cpu_steal_pct", Ratio { part: delta.steal, whole: whole as u64 })
            &&& s[8] == ("cpu_guest_pct", Ratio { part: delta.guest, whole: whole as u64 })
            &&& s[9] == ("cpu_guest_nice_pct", Ratio { part: delta.guest_nice, whole: whole as u64 })
            &&& active_share(delta).part == s[0].1.part + s[1].1.part + s[2].1.part + s[5].1.part
                + s[6].1.part + s[7].1.part + s[8].1.part + s[9].1.part
            &&& active_share(delta).whole == whole
        }),
{
}

/// The growth of each state's time between two snapshots.
pub open spec fn grown(now: CpuTimes, before: CpuTimes, state: int) -> int {
    if state == 0 {
        growth(now.user as int, before.user as int)
    } else if state == 1 {
        growth(now.nice as int, before.nice as int)
    } else if state == 2 {
        growth(now.system as int, before.system as int)
    } else if state == 3 {
        growth(now.idle as int, before.idle as int)
    } else if state == 4 {
        growth(now.iowait as int, before.iowait as int)
    } else if state == 5 {
        growth(now.irq as int, before.irq as int)
    } else if state == 6 {
        growth(now.softirq as int, before.softirq as int)
    } else if state == 7 {
        growth(now.steal as int, before.steal as int)
    } else if state == 8 {
        growth(now.guest as int, before.guest as int)
    } else {
        growth(now.guest_nice as int, before.guest_nice as int)
    }
}

/// The growth of all ten times.
pub open spec fn grown_in_all(now: CpuTimes, before: CpuTimes) -> int {
    grown(now, before, 0) + grown(now, before, 1) + grown(now, before, 2) + grown(now, before, 3)
        + grown(now, before, 4) + grown(now, before, 5) + grown(now, before, 6) + grown(
        now,
        before,
        7,
    ) + grown(now, before, 8) + grown(now, before, 9)
}

/// The growth of the times that were neither idle nor waiting.
pub open spec fn grown_in_work(now: CpuTimes, before: CpuTimes) -> int {
    grown_in_all(now, before) - grown(now, before, 3) - grown(now, before, 4)
}

/// A first report gives the figures of its snapshot. A later one gives before them the growth of
/// each state as a share of the growth of all, the active share of the whole and of each CPU that
/// both snapshots know, and how many context switches were added.
pub proof fn a_cpu_report_is_of_the_time_between(prev: CpuState, current: CpuState)
    requires
        grown_in_all(current.total, prev.total) <= u64::MAX,
        forall|i: int|
            0 <= i < current.cpus@.len() && i < prev.cpus@.len() ==> grown_in_all(
                #[trigger] current.cpus@[i],
                prev.cpus@[i],
            ) <= u64::MAX,
        current.cpus@.len() <= u64::MAX,
    ensures
        ({
            let first = cpu_counters(None, current);
            &&& first.len() == 6
            &&& gauge_of(first[0], "context_switches", current.context_switches as int)
            &&& gauge_of(first[1], "boot_time", current.boot_time as int)
            &&& gauge_of(first[2], "processes", current.processes as int)
            &&& gauge_of(first[3], "procs_running", current.procs_running as int)
            &&& gauge_of(first[4], "procs_blocked", current.procs_blocked as int)
            &&& gauge_of(first[5], "cpu_count", current.cpus@.len() as int)
        }),
        ({
            let r = cpu_counters(Some(prev), current);
            let now = current.total;
            let all = grown_in_all(now, prev.total);
            let n = if current.cpus@.len() <= prev.cpus@.len() {
                current.cpus@.len() as int
            } else {
                prev.cpus@.len() as int
            };
            &&& r.len() == 18 + n
            &&& share_of(r[0], "cpu_user_pct", grown(now, prev.total, 0), all)
            &&& share_of(r[1], "cpu_nice_pct", grown(now, prev.total, 1), all)
            &&& share_of(r[2], "cpu_system_pct", grown(now, prev.total, 2), all)
            &&& share_of(r[3], "cpu_idle_pct", grown(now, prev.total, 3), all)
            &&& share_of(r[4], "cpu_iowait_pct", grown(now, prev.total, 4), all)
            &&& share_of(r[5], "cpu_irq_pct", grown(now, prev.total, 5), all)
            &&& share_of(r[6], "cpu_softirq_pct", grown(now, prev.total, 6), all)
            &&& share_of(r[7], "cpu_steal_pct", grown(now, prev.total, 7), all)
            &&& share_of(r[8], "cpu_guest_pct", grown(now, prev.total, 8), all)
            &&& share_of(r[9], "cpu_guest_nice_pct", grown(now, prev.total, 9), all)
            &&& share_of(r[10], "cpu_active_pct", grown_in_work(now, prev.total), all)
            &&& forall|i: int|
                0 <= i < n ==> share_of(
                    #[trigger] r[11 + i],
                    "per_cpu_active_pct",
                    grown_in_work(current.cpus@[i], prev.cpus@[i]),
                    grown_in_all(current.cpus@[i], prev.cpus@[i]),
                )
            &&& count_of(
                r[11 + n],
                "context_switches_delta",
                growth(current.context_switches as int, prev.context_switches as int),
            )
            &&& r.skip(12 + n) == cpu_counters(None, current)
        }),
{
    let r = cpu_counters(Some(prev), current);
    let n = if current.cpus@.len() <= prev.cpus@.len() {
        current.cpus@.len() as int
    } else {
        prev.cpus@.len() as int
    };
    assert forall|i: int| 0 <= i < n implies share_of(
        #[trigger] r[11 + i],
        "per_cpu_active_pct",
        grown_in_work(current.cpus@[i], prev.cpus@[i]),
        grown_in_all(current.cpus@[i], prev.cpus@[i]),
    ) by {
        assert(grown_in_all(current.cpus@[i], prev.cpus@[i]) <= u64::MAX);
    }
    assert(r.skip(12 + n) =~= cpu_counters(None, current));
}

/// Each memory counter is of its own figure; what is used and what is available make up the
/// whole, as far as no more is available than there is, and so it is with the swap space.
pub proof fn each_memory_counter_is_of_its_figure(info: MemInfo)
    ensures
        ({
            let r = memory_counters(info);
            let used = growth(info.mem_total as int, info.mem_available as int);
            let swap_used = growth(info.swap_total as int, info.swap_free as int);
            &&& r.len() == 34
            &&& gauge_of(r[0], "mem_total_kb", info.mem_total as int)
            &&& gauge_of(r[1], "mem_free_kb", info.mem_free as int)
            &&& gauge_of(r[2], "mem_available_kb", info.mem_available as int)
            &&& gauge_of(r[3], "mem_used_kb", used)
            &&& share_of(r[4], "mem_usage_pct", used, info.mem_total as int)
            &&& gauge_of(r[5], "mem_buffers_kb", info.buffers as int)
            &&& gauge_of(r[6], "mem_cached_kb", info.cached as int)
            &&& gauge_of(r[7], "mem_swap_cached_kb", info.swap_cached as int)
            &&& gauge_of(r[8], "mem_active_kb", info.active as int)
            &&& gauge_of(r[9], "mem_inactive_kb", info.inactive as int)
            &&& gauge_of(r[10], "mem_active_anon_kb", info.active_anon as int)
            &&& gauge_of(r[11], "mem_inactive_anon_kb", info.inactive_anon as int)
            &&& gauge_of(r[12], "mem_active_file_kb", info.active_file as int)
            &&& gauge_of(r[13], "mem_inactive_file_kb", info.inactive_file as int)
            &&& gauge_of(r[14], "mem_swap_total_kb", info.swap_total as int)
            &&& gauge_of(r[15], "mem_swap_free_kb", info.swap_free as int)
            &&& gauge_of(r[16], "mem_swap_used_kb", swap_used)
            &&& share_of(r[17], "mem_swap_usage_pct", swap_used, info.swap_total as int)
            &&& gauge_of(r[18], "mem_dirty_kb", info.dirty as int)
            &&& gauge_of(r[19], "mem_writeback_kb", info.writeback as int)
            &&& gauge_of(r[20], "mem_anon_pages_kb", info.anon_pages as int)
            &&& gauge_of(r[21], "mem_mapped_kb", info.mapped as int)
            &&& gauge_of(r[22], "mem_shmem_kb", info.shmem as int)
            &&& gauge_of(r[23], "mem_slab_kb", info.slab as int)
            &&& gauge_of(r[24], "mem_sreclaimable_kb", info.sreclaimable as int)
            &&& gauge_of(r[25], "mem_sunreclaim_kb", info.sunreclaim as int)
            &&& gauge_of(r[26], "mem_kernel_stack_kb", info.kernel_stack as int)
            &&& gauge_of(r[27], "mem_page_tables_kb", info.page_tables as int)
            &&& gauge_of(r[28], "mem_commit_limit_kb", info.commit_limit as int)
            &&& gauge_of(r[29], "mem_committed_as_kb", info.committed_as as int)
            &&& gauge_of(r[30], "mem_vmalloc_used_kb", info.vmalloc_used as int)
            &&& gauge_of(r[31], "mem_hugepages_total", info.hugepages_total as int)
            &&& gauge_of(r[32], "mem_hugepages_free", info.hugepages_free as int)
            &&& gauge_of(r[33], "mem_hugepagesize_kb", info.hugepagesize as int)
            &&& info.mem_available <= info.mem_total ==> used + info.mem_available
                == info.mem_total
            &&& info.swap_free <= info.swap_total ==> swap_used + info.swap_free
                == info.swap_total
        }),
{
}

/// Whether a name is that of a device in memory.
pub open spec fn begins_with_ram_or_loop(name: Seq<char>) -> bool {
    ||| name.len() >= 3 && name[0] == 'r' && name[1] == 'a' && name[2] == 'm'
    ||| name.len() >= 4 && name[0] == 'l' && name[1] == 'o' && name[2] == 'o' && name[3] == 'p'
}

/// Nothing is reported of a device in memory. Of any other device the figures are reported, each
/// under its own name, and where the same device was reported before also the growth of what was
/// reported of it then.
pub proof fn a_disk_report_is_of_its_device(
    dev: DiskStat,
    list: Option<Vec<DiskStat>>,
    earlier: DiskStat,
    list_before: Option<Vec<DiskStat>>,
)
    requires
        dev.sectors_read * 512 <= u64::MAX,
        dev.sectors_written * 512 <= u64::MAX,
        earlier.sectors_read * 512 <= u64::MAX,
        earlier.sectors_written * 512 <= u64::MAX,
        earlier.name@ == dev.name@,
    ensures
        ({
            let r = device_counters(dev, list);
            let hidden = begins_with_ram_or_loop(dev.name@);
            &&& hidden ==> r.len() == 0
            &&& !hidden ==> {
                &&& r.len() >= 13
                &&& gauge_of(r[0], "disk_read_completed", dev.read_completed as int)
                &&& gauge_of(r[1], "disk_read_merged", dev.read_merged as int)
                &&& gauge_of(r[2], "disk_sectors_read", dev.sectors_read as int)
                &&& gauge_of(r[3], "disk_read_time_ms", dev.read_time_ms as int)
                &&& gauge_of(r[4], "disk_write_completed", dev.write_completed as int)
                &&& gauge_of(r[5], "disk_write_merged", dev.write_merged as int)
                &&& gauge_of(r[6], "disk_sectors_written", dev.sectors_written as int)
                &&& gauge_of(r[7], "disk_write_time_ms", dev.write_time_ms as int)
                &&& gauge_of(r[8], "disk_ios_in_progress", dev.ios_in_progress as int)
                &&& gauge_of(r[9], "disk_io_time_ms", dev.io_time_ms as int)
                &&& gauge_of(r[10], "disk_weighted_io_time_ms", dev.weighted_io_time_ms as int)
                &&& gauge_of(r[11], "disk_read_bytes", dev.sectors_read * 512)
                &&& gauge_of(r[12], "disk_write_bytes", dev.sectors_written * 512)
            }
            &&& list is None && !hidden ==> r.len() == 13
            &&& (list matches Some(l) && disk_named(l@, dev.name@) is None) && !hidden ==> r.len()
                == 13
            &&& (list matches Some(l) && disk_named(l@, dev.name@) == Some(earlier)) && !hidden
                ==> {
                let before = device_counters(earlier, list_before);
                &&& r.len() == 17
                &&& count_of(
                    r[13],
                    "disk_read_bytes_delta",
                    growth(r[11].2->Unsigned_0 as int, before[11].2->Unsigned_0 as int),
                )
                &&& count_of(
                    r[14],
                    "disk_write_bytes_delta",
                    growth(r[12].2->Unsigned_0 as int, before[12].2->Unsigned_0 as int),
                )
                &&& count_of(
                    r[15],
                    "disk_read_ops_delta",
                    growth(r[0].2->Unsigned_0 as int, before[0].2->Unsigned_0 as int),
                )
                &&& count_of(
                    r[16],
                    "disk_write_ops_delta",
                    growth(r[4].2->Unsigned_0 as int, before[4].2->Unsigned_0 as int),
                )
            }
        }),
{
    reveal_strlit("ram");
    reveal_strlit("loop");
    let name = dev.name@;
    if name.len() >= 3 {
        let p = name.subrange(0, 3);
        assert(p =~= "ram"@ <==> name[0] == 'r' && name[1] == 'a' && name[2] == 'm') by {
            assert(p[0] == name[0] && p[1] == name[1] && p[2] == name[2]);
        }
    }
    if name.len() >= 4 {
        let p = name.subrange(0, 4);
        assert(p =~= "loop"@ <==> name[0] == 'l' && name[1] == 'o' && name[2] == 'o' && name[3]
            == 'p') by {
            assert(p[0] == name[0] && p[1] == name[1] && p[2] == name[2] && p[3] == name[3]);
        }
    }
}

/// All devices are reported, one after the other.
pub proof fn all_disks_are_reported_in_order(
    a: Seq<DiskStat>,
    b: Seq<DiskStat>,
    prev: Option<Vec<DiskStat>>,
    dev: DiskStat,
)
    ensures
        disk_counters(a + b, prev) == disk_counters(a, prev) + disk_counters(b, prev),
        disk_counters(seq![dev], prev) == device_counters(dev, prev),
        disk_counters(seq![], prev) == Seq::<Counter>::empty(),
    decreases b.len(),
{
    reveal_with_fuel(disk_counters, 2);
    assert(seq![dev].drop_last() =~= seq![]);
    assert(disk_counters(seq![dev], prev) =~= device_counters(dev, prev));
    if b.len() > 0 {
        all_disks_are_reported_in_order(a, b.drop_last(), prev, dev);
        assert((a + b).drop_last() =~= a + b.drop_last());
        assert((a + b).last() == b.last());
        assert(disk_counters(a + b, prev) =~= disk_counters(a, prev) + disk_counters(b, prev));
    } else {
        assert(a + b =~= a);
        assert(disk_counters(a + b, prev) =~= disk_counters(a, prev) + disk_counters(b, prev));
    }
}

/// The earlier figures of a device are the first ones under its name.
pub proof fn a_disk_is_found_by_its_name(list: Seq<DiskStat>, name: Seq<char>)
    ensures
        match disk_named(list, name) {
            Some(d) => exists|i: int|
                0 <= i < list.len() && #[trigger] list[i] == d && d.name@ == name && forall|j: int|
                    0 <= j < i ==> (#[trigger] list[j]).name@ != name,
            None => forall|j: int| 0 <= j < list.len() ==> (#[trigger] list[j]).name@ != name,
        },
    decreases list.len(),
{
    if list.len() > 0 && list[0].name@ != name {
        let rest = list.drop_first();
        a_disk_is_found_by_its_name(rest, name);
        if let Some(d) = disk_named(rest, name) {
            let i = choose|i: int|
                0 <= i < rest.len() && #[trigger] rest[i] == d && d.name@ == name && forall|j: int|
                    0 <= j < i ==> (#[trigger] rest[j]).name@ != name;
            assert(list[i + 1] == d);
            assert forall|j: int| 0 <= j < i + 1 implies (#[trigger] list[j]).name@ != name by {
                if j > 0 {
                    assert(rest[j - 1] == list[j]);
                }
            }
        } else {
            assert forall|j: int| 0 <= j < list.len() implies (#[trigger] list[j]).name@ != name by {
                if j > 0 {
                    assert(rest[j - 1] == list[j]);
                }
            }
        }
    } else if list.len() > 0 {
        assert(list[0] == list[0]);
    }
}

/// Of an interface the figures are reported, each under its own name, and where the same
/// interface was reported before also the growth of what was reported of it then.
pub proof fn a_network_report_is_of_its_interface(
    iface: NetDevStat,
    list: Option<Vec<NetDevStat>>,
    earlier: NetDevStat,
    list_before: Option<Vec<NetDevStat>>,
)
    ensures
        ({
            let r = iface_counters(iface, list);
            &&& r.len() >= 16
            &&& gauge_of(r[0], "net_rx_bytes", iface.rx_bytes as int)
            &&& gauge_of(r[1], "net_rx_packets", iface.rx_packets as int)
            &&& gauge_of(r[2], "net_rx_errors", iface.rx_errors as int)
            &&& gauge_of(r[3], "net_rx_dropped", iface.rx_dropped as int)
            &&& gauge_of(r[4], "net_rx_fifo", iface.rx_fifo as int)
            &&& gauge_of(r[5], "net_rx_frame", iface.rx_frame as int)
            &&& gauge_of(r[6], "net_rx_compressed", iface.rx_compressed as int)
            &&& gauge_of(r[7], "net_rx_multicast", iface.rx_multicast as int)
            &&& gauge_of(r[8], "net_tx_bytes", iface.tx_bytes as int)
            &&& gauge_of(r[9], "net_tx_packets", iface.tx_packets as int)
            &&& gauge_of(r[10], "net_tx_errors", iface.tx_errors as int)
            &&& gauge_of(r[11], "net_tx_dropped", iface.tx_dropped as int)
            &&& gauge_of(r[12], "net_tx_fifo", iface.tx_fifo as int)
            &&& gauge_of(r[13], "net_tx_colls", iface.tx_colls as int)
            &&& gauge_of(r[14], "net_tx_carrier", iface.tx_carrier as int)
            &&& gauge_of(r[15], "net_tx_compressed", iface.tx_compressed as int)
            &&& list is None ==> r.len() == 16
            &&& (list matches Some(l) && net_named(l@, iface.name@) is None) ==> r.len() == 16
            &&& (list matches Some(l) && net_named(l@, iface.name@) == Some(earlier)) ==> {
                let before = iface_counters(earlier, list_before);
                &&& r.len() == 22
                &&& count_of(
                    r[16],
                    "net_rx_bytes_delta",
                    growth(r[0].2->Unsigned_0 as int, before[0].2->Unsigned_0 as int),
                )
                &&& count_of(
                    r[17],
                    "net_tx_bytes_delta",
                    growth(r[8].2->Unsigned_0 as int, before[8].2->Unsigned_0 as int),
                )
                &&& count_of(
                    r[18],
                    "net_rx_packets_delta",
                    growth(r[1].2->Unsigned_0 as int, before[1].2->Unsigned_0 as int),
                )
                &&& count_of(
                    r[19],
                    "net_tx_packets_delta",
                    growth(r[9].2->Unsigned_0 as int, before[9].2->Unsigned_0 as int),
                )
                &&& count_of(
                    r[20],
                    "net_rx_errors_delta",
                    growth(r[2].2->Unsigned_0 as int, before[2].2->Unsigned_0 as int),
                )
                &&& count_of(
                    r[21],
                    "net_tx_errors_delta",
                    growth(r[10].2->Unsigned_0 as int, before[10].2->Unsigned_0 as int),
                )
            }
        }),
{
}

/// All interfaces are reported, one after the other.
pub proof fn all_interfaces_are_reported_in_order(
    a: Seq<NetDevStat>,
    b: Seq<NetDevStat>,
    prev: Option<Vec<NetDevStat>>,
    iface: NetDevStat,
)
    ensures
        net_counters(a + b, prev) == net_counters(a, prev) + net_counters(b, prev),
        net_counters(seq![iface], prev) == iface_counters(iface, prev),
        net_counters(seq![], prev) == Seq::<Counter>::empty(),
    decreases b.len(),
{
    reveal_with_fuel(net_counters, 2);
    assert(seq![iface].drop_last() =~= seq![]);
    assert(net_counters(seq![iface], prev) =~= iface_counters(iface, prev));
    if b.len() > 0 {
        all_interfaces_are_reported_in_order(a, b.drop_last(), prev, iface);
        assert((a + b).drop_last() =~= a + b.drop_last());
        assert((a + b).last() == b.last());
        assert(net_counters(a + b, prev) =~= net_counters(a, prev) + net_counters(b, prev));
    } else {
        assert(a + b =~= a);
        assert(net_counters(a + b, prev) =~= net_counters(a, prev) + net_counters(b, prev));
    }
}

/// The earlier figures of an interface are the first ones under its name.
pub proof fn an_interface_is_found_by_its_name(list: Seq<NetDevStat>, name: Seq<char>)
    ensures
        match net_named(list, name) {
            Some(d) => exists|i: int|
                0 <= i < list.len() && #[trigger] list[i] == d && d.name@ == name && forall|j: int|
                    0 <= j < i ==> (#[trigger] list[j]).name@ != name,
            None => forall|j: int| 0 <= j < list.len() ==> (#[trigger] list[j]).name@ != name,
        },
    decreases list.len(),
{
    if list.len() > 0 && list[0].name@ != name {
        let rest = list.drop_first();
        an_interface_is_found_by_its_name(rest, name);
        if let Some(d) = net_named(rest, name) {
            let i = choose|i: int|
                0 <= i < rest.len() && #[trigger] rest[i] == d && d.name@ == name && forall|j: int|
                    0 <= j < i ==> (#[trigger] rest[j]).name@ != name;
            assert(list[i + 1] == d);
            assert forall|j: int| 0 <= j < i + 1 implies (#[trigger] list[j]).name@ != name by {
                if j > 0 {
                    assert(rest[j - 1] == list[j]);
                }
            }
        } else {
            assert forall|j: int| 0 <= j < list.len() implies (#[trigger] list[j]).name@ != name by {
                if j > 0 {
                    assert(rest[j - 1] == list[j]);
                }
            }
        }
    } else if list.len() > 0 {
        assert(list[0] == list[0]);
    }
}

} // verus!
