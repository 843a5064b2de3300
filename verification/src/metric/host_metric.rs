//! The counters that the agent reports about its host.
use super::cpu::{CpuState, CpuTimes};
use super::disk::DiskStat;
use super::memory::MemInfo;
use super::network::NetDevStat;
use super::ratio::Ratio;
use crate::text::{same, starts_with};
use vstd::prelude::*;

verus! {

use super::cpu::{difference_is_bounded, minus};
use crate::text::has_prefix;

#[derive(Debug, Clone, Copy, PartialEq, Eq, Structural)]
pub enum CounterType {
    /// What was added since the last report.
    Counted,
    /// A value at one moment.
    Gauged,
}

#[derive(Debug, Clone, Copy, PartialEq, Eq, Structural)]
pub enum CounterValue {
    Unsigned(u64),
    /// A share, reported in percent.
    Percent(Ratio),
}

/// A counter's name, its type and its value.
pub type Counter = (&'static str, CounterType, CounterValue);

pub open spec fn gauged(name: &'static str, v: u64) -> Counter {
    (name, CounterType::Gauged, CounterValue::Unsigned(v))
}

pub open spec fn counted(name: &'static str, v: u64) -> Counter {
    (name, CounterType::Counted, CounterValue::Unsigned(v))
}

pub open spec fn share(name: &'static str, v: Ratio) -> Counter {
    (name, CounterType::Gauged, CounterValue::Percent(v))
}

fn gauge(name: &'static str, v: u64) -> (r: Counter)
    ensures
        r == gauged(name, v),
{
    (name, CounterType::Gauged, CounterValue::Unsigned(v))
}

fn count(name: &'static str, v: u64) -> (r: Counter)
    ensures
        r == counted(name, v),
{
    (name, CounterType::Counted, CounterValue::Unsigned(v))
}

fn percent(name: &'static str, v: Ratio) -> (r: Counter)
    ensures
        r == share(name, v),
{
    (name, CounterType::Gauged, CounterValue::Percent(v))
}

/// The share of each CPU state in a stretch of time.
pub open spec fn state_shares(delta: CpuTimes) -> Seq<(&'static str, Ratio)> {
    seq![
        ("cpu_user_pct", Ratio { part: delta.user, whole: delta.sum() as u64 }),
        ("cpu_nice_pct", Ratio { part: delta.nice, whole: delta.sum() as u64 }),
        ("cpu_system_pct", Ratio { part: delta.system, whole: delta.sum() as u64 }),
        ("cpu_idle_pct", Ratio { part: delta.idle, whole: delta.sum() as u64 }),
        ("cpu_iowait_pct", Ratio { part: delta.iowait, whole: delta.sum() as u64 }),
        ("cpu_irq_pct", Ratio { part: delta.irq, whole: delta.sum() as u64 }),
        ("cpu_softirq_pct", Ratio { part: delta.softirq, whole: delta.sum() as u64 }),
        ("cpu_steal_pct", Ratio { part: delta.steal, whole: delta.sum() as u64 }),
        ("cpu_guest_pct", Ratio { part: delta.guest, whole: delta.sum() as u64 }),
        ("cpu_guest_nice_pct", Ratio { part: delta.guest_nice, whole: delta.sum() as u64 }),
    ]
}

/// The share of the active states in a stretch of time.
pub open spec fn active_share(delta: CpuTimes) -> Ratio {
    Ratio { part: (delta.sum() - delta.idle - delta.iowait) as u64, whole: delta.sum() as u64 }
}

fn active_of(delta: &CpuTimes) -> (r: Ratio)
    requires
        delta.sum() <= u64::MAX,
    ensures
        r == active_share(*delta),
        r.part <= r.whole,
{
    Ratio { part: delta.active(), whole: delta.total() }
}

/// The lesser of two lengths.
pub open spec fn shorter(a: nat, b: nat) -> nat {
    if a <= b {
        a
    } else {
        b
    }
}

/// What is reported of the time between two snapshots.
pub open spec fn cpu_deltas(prev: CpuState, current: CpuState) -> Seq<Counter> {
    let delta = current.total.since(prev.total);
    state_shares(delta).map_values(|s: (&'static str, Ratio)| share(s.0, s.1)) + seq![
        share("cpu_active_pct", active_share(delta)),
    ] + Seq::new(
        shorter(current.cpus@.len(), prev.cpus@.len()),
        |i: int|
            share("per_cpu_active_pct", active_share(current.cpus@[i].since(prev.cpus@[i]))),
    ) + seq![
        counted(
            "context_switches_delta",
            minus(current.context_switches, prev.context_switches),
        ),
    ]
}

/// What is reported of one snapshot.
pub open spec fn cpu_gauges(current: CpuState) -> Seq<Counter> {
    seq![
        gauged("context_switches", current.context_switches),
        gauged("boot_time", current.boot_time),
        gauged("processes", current.processes),
        gauged("procs_running", current.procs_running),
        gauged("procs_blocked", current.procs_blocked),
        gauged("cpu_count", current.cpus@.len() as u64),
    ]
}

/// What is reported of a snapshot taken after `prev`.
pub open spec fn cpu_counters(prev: Option<CpuState>, current: CpuState) -> Seq<Counter> {
    match prev {
        Some(p) => cpu_deltas(p, current) + cpu_gauges(current),
        None => cpu_gauges(current),
    }
}

/// Whether the times between two snapshots can be summed up.
pub open spec fn deltas_fit(prev: Option<CpuState>, current: CpuState) -> bool {
    match prev {
        Some(p) => {
            &&& current.total.since(p.total).sum() <= u64::MAX
            &&& forall|i: int|
                0 <= i < shorter(current.cpus@.len(), p.cpus@.len())
                    ==> (#[trigger] current.cpus@[i]).since(p.cpus@[i]).sum() <= u64::MAX
        },
        None => true,
    }
}

/// The snapshot that a reading gave, if it did.
pub open spec fn reading(collected: Result<CpuState, std::io::Error>) -> Option<CpuState> {
    match collected {
        Ok(current) => Some(current),
        Err(_) => None,
    }
}

/// The last snapshot of a series of readings.
pub open spec fn last_reading(readings: Seq<Option<CpuState>>) -> Option<CpuState>
    decreases readings.len(),
{
    if readings.len() == 0 {
        None
    } else {
        match readings.last() {
            Some(current) => Some(current),
            None => last_reading(readings.drop_last()),
        }
    }
}

/// Whether a counter of that name is reported.
pub open spec fn names_counter(counters: Seq<Counter>, name: Seq<char>) -> bool {
    exists|i: int| 0 <= i < counters.len() && (#[trigger] counters[i]).0@ == name
}

/// Reports CPU usage between successive snapshots, the way `top` and `mpstat` do.
pub struct CpuMetricCollector {
    prev_state: Option<CpuState>,
}

impl CpuMetricCollector {
    /// The last snapshot that was reported.
    pub closed spec fn prev(&self) -> Option<CpuState> {
        self.prev_state
    }

    /// Whether a reading is reported so, and leaves the collector in a state. A reading that
    /// failed reports nothing and changes nothing.
    pub open spec fn reports(
        self,
        read: Option<CpuState>,
        counters: Seq<Counter>,
        after: Self,
    ) -> bool {
        match read {
            Some(current) => {
                &&& counters == cpu_counters(self.prev(), current)
                &&& after.prev() == Some(current)
            },
            None => counters.len() == 0 && after.prev() == self.prev(),
        }
    }

    pub fn new() -> (r: Self)
        ensures
            r.prev() is None,
    {
        CpuMetricCollector { prev_state: None }
    }

    /// Whether `get_counters` takes the snapshot.
    pub fn fits(&self, current: &CpuState) -> (r: bool)
        ensures
            r == deltas_fit(self.prev(), *current),
    {
        match &self.prev_state {
            Some(prev) => {
                if (current.total - prev.total).checked_total().is_none() {
                    return false;
                }
                let mut i: usize = 0;
                while i < current.cpus.len() && i < prev.cpus.len()
                    invariant
                        i <= current.cpus.len(),
                        i <= prev.cpus.len(),
                        self.prev_state == Some(*prev),
                        forall|j: int|
                            0 <= j < i ==> (#[trigger] current.cpus@[j]).since(prev.cpus@[j]).sum()
                                <= u64::MAX,
                    decreases current.cpus.len() - i,
                {
                    if (current.cpus[i] - prev.cpus[i]).checked_total().is_none() {
                        assert(current.cpus@[i as int].since(prev.cpus@[i as int]).sum() > u64::MAX);
                        return false;
                    }
                    i = i + 1;
                }
                true
            },
            None => true,
        }
    }

    /// The share of each CPU state in a stretch of time.
    pub fn compute_pct(delta: &CpuTimes) -> (r: Vec<(&'static str, Ratio)>)
        requires
            delta.sum() <= u64::MAX,
        ensures
            r@ == state_shares(*delta),
            r@.len() == 10,
            r@[0] == ("cpu_user_pct", (Ratio { part: delta.user, whole: delta.sum() as u64 })),
            r@[1] == ("cpu_nice_pct", (Ratio { part: delta.nice, whole: delta.sum() as u64 })),
            r@[2] == ("cpu_system_pct", (Ratio { part: delta.system, whole: delta.sum() as u64 })),
            r@[3] == ("cpu_idle_pct", (Ratio { part: delta.idle, whole: delta.sum() as u64 })),
            r@[4] == ("cpu_iowait_pct", (Ratio { part: delta.iowait, whole: delta.sum() as u64 })),
            r@[5] == ("cpu_irq_pct", (Ratio { part: delta.irq, whole: delta.sum() as u64 })),
            r@[6] == ("cpu_softirq_pct", (Ratio { part: delta.softirq, whole: delta.sum() as u64 })),
            r@[7] == ("cpu_steal_pct", (Ratio { part: delta.steal, whole: delta.sum() as u64 })),
            r@[8] == ("cpu_guest_pct", (Ratio { part: delta.guest, whole: delta.sum() as u64 })),
            r@[9] == ("cpu_guest_nice_pct", (Ratio { part: delta.guest_nice, whole: delta.sum() as u64 })),
    {
        let total: u64 = delta.total();
        let r = vec![
            ("cpu_user_pct", Ratio { part: delta.user, whole: total }),
            ("cpu_nice_pct", Ratio { part: delta.nice, whole: total }),
            ("cpu_system_pct", Ratio { part: delta.system, whole: total }),
            ("cpu_idle_pct", Ratio { part: delta.idle, whole: total }),
            ("cpu_iowait_pct", Ratio { part: delta.iowait, whole: total }),
            ("cpu_irq_pct", Ratio { part: delta.irq, whole: total }),
            ("cpu_softirq_pct", Ratio { part: delta.softirq, whole: total }),
            ("cpu_steal_pct", Ratio { part: delta.steal, whole: total }),
            ("cpu_guest_pct", Ratio { part: delta.guest, whole: total }),
            ("cpu_guest_nice_pct", Ratio { part: delta.guest_nice, whole: total }),
        ];
        assert(r@ =~= state_shares(*delta));
        r
    }

    pub fn closed(&self) -> (r: bool)
        ensures
            !r,
    {
        false
    }

    /// The counters for a snapshot, if one could be taken. It becomes the one that the next is
    /// compared to.
    pub fn get_counters(&mut self, collected: Result<CpuState, std::io::Error>) -> (r: Vec<Counter>)
        requires
            collected matches Ok(current) ==> deltas_fit(old(self).prev(), current),
        ensures
            old(self).reports(reading(collected), r@, *final(self)),
    {
        let current = match collected {
            Ok(state) => state,
            Err(_) => return Vec::new(),
        };
        let mut metrics: Vec<Counter> = Vec::new();
        if let Some(prev) = &self.prev_state {
            let delta_total = current.total - prev.total;
            let shares = Self::compute_pct(&delta_total);
            let ghost head = state_shares(delta_total).map_values(
                |s: (&'static str, Ratio)| share(s.0, s.1),
            );
            let mut k: usize = 0;
            while k < shares.len()
                invariant
                    k <= shares.len(),
                    shares@ == state_shares(delta_total),
                    head == state_shares(delta_total).map_values(
                        |s: (&'static str, Ratio)| share(s.0, s.1),
                    ),
                    metrics@ == head.take(k as int),
                decreases shares.len() - k,
            {
                let s = shares[k];
                metrics.push(percent(s.0, s.1));
                k = k + 1;
                assert(metrics@ =~= head.take(k as int));
            }
            assert(head.take(k as int) =~= head);
            metrics.push(percent("cpu_active_pct", active_of(&delta_total)));
            let ghost base = metrics@;
            let ghost cores = Seq::new(
                shorter(current.cpus@.len(), prev.cpus@.len()),
                |i: int|
                    share("per_cpu_active_pct", active_share(current.cpus@[i].since(prev.cpus@[i]))),
            );
            let mut i: usize = 0;
            assert(metrics@ =~= base + cores.take(0));
            while i < current.cpus.len() && i < prev.cpus.len()
                invariant
                    i <= current.cpus.len(),
                    i <= prev.cpus.len(),
                    deltas_fit(Some(*prev), current),
                    cores == Seq::new(
                        shorter(current.cpus@.len(), prev.cpus@.len()),
                        |i: int|
                            share(
                                "per_cpu_active_pct",
                                active_share(current.cpus@[i].since(prev.cpus@[i])),
                            ),
                    ),
                    metrics@ == base + cores.take(i as int),
                decreases current.cpus.len() - i,
            {
                let delta = current.cpus[i] - prev.cpus[i];
                metrics.push(percent("per_cpu_active_pct", active_of(&delta)));
                i = i + 1;
                assert(metrics@ =~= base + cores.take(i as int));
            }
            assert(cores.take(i as int) =~= cores);
            metrics.push(
                count(
                    "context_switches_delta",
                    current.context_switches.saturating_sub(prev.context_switches),
                ),
            );
            assert(metrics@ =~= cpu_deltas(*prev, current));
        }
        let ghost deltas = metrics@;
        metrics.push(gauge("context_switches", current.context_switches));
        metrics.push(gauge("boot_time", current.boot_time));
        metrics.push(gauge("processes", current.processes));
        metrics.push(gauge("procs_running", current.procs_running));
        metrics.push(gauge("procs_blocked", current.procs_blocked));
        metrics.push(gauge("cpu_count", current.cpus.len() as u64));
        assert(metrics@ =~= deltas + cpu_gauges(current));
        assert(deltas.len() == 0 ==> deltas + cpu_gauges(current) =~= cpu_gauges(current));
        self.prev_state = Some(current);
        metrics
    }
}

/// What is reported of the memory figures.
pub open spec fn memory_counters(info: MemInfo) -> Seq<Counter> {
    seq![
        gauged("mem_total_kb", info.mem_total),
        gauged("mem_free_kb", info.mem_free),
        gauged("mem_available_kb", info.mem_available),
        gauged("mem_used_kb", minus(info.mem_total, info.mem_available)),
        share("mem_usage_pct", (Ratio { part: minus(info.mem_total, info.mem_available), whole: info.mem_total })),
        gauged("mem_buffers_kb", info.buffers),
        gauged("mem_cached_kb", info.cached),
        gauged("mem_swap_cached_kb", info.swap_cached),
        gauged("mem_active_kb", info.active),
        gauged("mem_inactive_kb", info.inactive),
        gauged("mem_active_anon_kb", info.active_anon),
        gauged("mem_inactive_anon_kb", info.inactive_anon),
        gauged("mem_active_file_kb", info.active_file),
        gauged("mem_inactive_file_kb", info.inactive_file),
        gauged("mem_swap_total_kb", info.swap_total),
        gauged("mem_swap_free_kb", info.swap_free),
        gauged("mem_swap_used_kb", minus(info.swap_total, info.swap_free)),
        share("mem_swap_usage_pct", (Ratio { part: minus(info.swap_total, info.swap_free), whole: info.swap_total })),
        gauged("mem_dirty_kb", info.dirty),
        gauged("mem_writeback_kb", info.writeback),
        gauged("mem_anon_pages_kb", info.anon_pages),
        gauged("mem_mapped_kb", info.mapped),
        gauged("mem_shmem_kb", info.shmem),
        gauged("mem_slab_kb", info.slab),
        gauged("mem_sreclaimable_kb", info.sreclaimable),
        gauged("mem_sunreclaim_kb", info.sunreclaim),
        gauged("mem_kernel_stack_kb", info.kernel_stack),
        gauged("mem_page_tables_kb", info.page_tables),
        gauged("mem_commit_limit_kb", info.commit_limit),
        gauged("mem_committed_as_kb", info.committed_as),
        gauged("mem_vmalloc_used_kb", info.vmalloc_used),
        gauged("mem_hugepages_total", info.hugepages_total),
        gauged("mem_hugepages_free", info.hugepages_free),
        gauged("mem_hugepagesize_kb", info.hugepagesize),
    ]
}

/// Reports the memory figures.
pub struct MemoryMetricCollector;

impl MemoryMetricCollector {
    pub fn new() -> (r: Self)
        ensures
            r == MemoryMetricCollector,
    {
        MemoryMetricCollector
    }

    pub fn closed(&self) -> (r: bool)
        ensures
            !r,
    {
        false
    }

    /// The counters for the figures, if they could be read.
    #[verifier::rlimit(40)]
    pub fn get_counters(&self, collected: Result<MemInfo, std::io::Error>) -> (r: Vec<Counter>)
        ensures
            r@ == (match collected {
                Ok(info) => memory_counters(info),
                Err(_) => seq![],
            }),
    {
        match collected {
            Ok(info) => vec![
                gauge("mem_total_kb", info.mem_total),
                gauge("mem_free_kb", info.mem_free),
                gauge("mem_available_kb", info.mem_available),
                gauge("mem_used_kb", info.used_kb()),
                percent("mem_usage_pct", info.usage_pct()),
                gauge("mem_buffers_kb", info.buffers),
                gauge("mem_cached_kb", info.cached),
                gauge("mem_swap_cached_kb", info.swap_cached),
                gauge("mem_active_kb", info.active),
                gauge("mem_inactive_kb", info.inactive),
                gauge("mem_active_anon_kb", info.active_anon),
                gauge("mem_inactive_anon_kb", info.inactive_anon),
                gauge("mem_active_file_kb", info.active_file),
                gauge("mem_inactive_file_kb", info.inactive_file),
                gauge("mem_swap_total_kb", info.swap_total),
                gauge("mem_swap_free_kb", info.swap_free),
                gauge("mem_swap_used_kb", info.swap_used_kb()),
                percent("mem_swap_usage_pct", info.swap_usage_pct()),
                gauge("mem_dirty_kb", info.dirty),
                gauge("mem_writeback_kb", info.writeback),
                gauge("mem_anon_pages_kb", info.anon_pages),
                gauge("mem_mapped_kb", info.mapped),
                gauge("mem_shmem_kb", info.shmem),
                gauge("mem_slab_kb", info.slab),
                gauge("mem_sreclaimable_kb", info.sreclaimable),
                gauge("mem_sunreclaim_kb", info.sunreclaim),
                gauge("mem_kernel_stack_kb", info.kernel_stack),
                gauge("mem_page_tables_kb", info.page_tables),
                gauge("mem_commit_limit_kb", info.commit_limit),
                gauge("mem_committed_as_kb", info.committed_as),
                gauge("mem_vmalloc_used_kb", info.vmalloc_used),
                gauge("mem_hugepages_total", info.hugepages_total),
                gauge("mem_hugepages_free", info.hugepages_free),
                gauge("mem_hugepagesize_kb", info.hugepagesize),
            ],
            Err(_) => Vec::new(),
        }
    }
}

/// The first of the earlier figures with a name.
pub open spec fn disk_named(list: Seq<DiskStat>, name: Seq<char>) -> Option<DiskStat>
    decreases list.len(),
{
    if list.len() == 0 {
        None
    } else if list[0].name@ == name {
        Some(list[0])
    } else {
        disk_named(list.drop_first(), name)
    }
}

/// Devices in memory, which are not reported.
pub open spec fn is_memory_device(name: Seq<char>) -> bool {
    has_prefix(name, "ram"@) || has_prefix(name, "loop"@)
}

pub open spec fn disk_gauges(dev: DiskStat) -> Seq<Counter> {
    seq![
        gauged("disk_read_completed", dev.read_completed),
        gauged("disk_read_merged", dev.read_merged),
        gauged("disk_sectors_read", dev.sectors_read),
        gauged("disk_read_time_ms", dev.read_time_ms),
        gauged("disk_write_completed", dev.write_completed),
        gauged("disk_write_merged", dev.write_merged),
        gauged("disk_sectors_written", dev.sectors_written),
        gauged("disk_write_time_ms", dev.write_time_ms),
        gauged("disk_ios_in_progress", dev.ios_in_progress),
        gauged("disk_io_time_ms", dev.io_time_ms),
        gauged("disk_weighted_io_time_ms", dev.weighted_io_time_ms),
        gauged("disk_read_bytes", (dev.sectors_read * 512) as u64),
        gauged("disk_write_bytes", (dev.sectors_written * 512) as u64),
    ]
}

pub open spec fn disk_deltas(dev: DiskStat, earlier: Option<DiskStat>) -> Seq<Counter> {
    match earlier {
        Some(prev) => seq![
            counted(
                "disk_read_bytes_delta",
                (minus(dev.sectors_read, prev.sectors_read) * 512) as u64,
            ),
            counted(
                "disk_write_bytes_delta",
                (minus(dev.sectors_written, prev.sectors_written) * 512) as u64,
            ),
            counted("disk_read_ops_delta", minus(dev.read_completed, prev.read_completed)),
            counted("disk_write_ops_delta", minus(dev.write_completed, prev.write_completed)),
        ],
        None => seq![],
    }
}

/// What is reported of one device.
pub open spec fn device_counters(dev: DiskStat, prev: Option<Vec<DiskStat>>) -> Seq<Counter> {
    let earlier = match prev {
        Some(list) => disk_named(list@, dev.name@),
        None => None,
    };
    if is_memory_device(dev.name@) {
        seq![]
    } else {
        disk_gauges(dev) + disk_deltas(dev, earlier)
    }
}

/// What is reported of all devices.
pub open spec fn disk_counters(current: Seq<DiskStat>, prev: Option<Vec<DiskStat>>) -> Seq<Counter>
    decreases current.len(),
{
    if current.len() == 0 {
        seq![]
    } else {
        disk_counters(current.drop_last(), prev) + device_counters(current.last(), prev)
    }
}

/// Whether a device's sectors can be given in bytes.
pub open spec fn bytes_fit(dev: DiskStat) -> bool {
    is_memory_device(dev.name@) || (dev.sectors_read * 512 <= u64::MAX && dev.sectors_written * 512
        <= u64::MAX)
}

fn find_disk(list: &Vec<DiskStat>, name: &str) -> (r: Option<usize>)
    ensures
        match r {
            Some(i) => i < list.len() && disk_named(list@, name@) == Some(list@[i as int]),
            None => disk_named(list@, name@) is None,
        },
{
    let mut i: usize = 0;
    assert(list@.skip(0) =~= list@);
    while i < list.len()
        invariant
            i <= list.len(),
            disk_named(list@, name@) == disk_named(list@.skip(i as int), name@),
        decreases list.len() - i,
    {
        assert(list@.skip(i as int).drop_first() =~= list@.skip(i + 1));
        if same(list[i].name.as_str(), name) {
            return Some(i);
        }
        i = i + 1;
    }
    None
}

fn push_disk_gauges(out: &mut Vec<Counter>, dev: &DiskStat)
    requires
        dev.sectors_read * 512 <= u64::MAX,
        dev.sectors_written * 512 <= u64::MAX,
    ensures
        final(out)@ == old(out)@ + disk_gauges(*dev),
{
    let ghost before = out@;
    out.push(gauge("disk_read_completed", dev.read_completed));
    out.push(gauge("disk_read_merged", dev.read_merged));
    out.push(gauge("disk_sectors_read", dev.sectors_read));
    out.push(gauge("disk_read_time_ms", dev.read_time_ms));
    out.push(gauge("disk_write_completed", dev.write_completed));
    out.push(gauge("disk_write_merged", dev.write_merged));
    out.push(gauge("disk_sectors_written", dev.sectors_written));
    out.push(gauge("disk_write_time_ms", dev.write_time_ms));
    out.push(gauge("disk_ios_in_progress", dev.ios_in_progress));
    out.push(gauge("disk_io_time_ms", dev.io_time_ms));
    out.push(gauge("disk_weighted_io_time_ms", dev.weighted_io_time_ms));
    out.push(gauge("disk_read_bytes", dev.sectors_read * 512));
    out.push(gauge("disk_write_bytes", dev.sectors_written * 512));
    assert(out@ =~= before + disk_gauges(*dev));
}

fn push_disk_deltas(out: &mut Vec<Counter>, dev: &DiskStat, prev: &DiskStat)
    requires
        dev.sectors_read * 512 <= u64::MAX,
        dev.sectors_written * 512 <= u64::MAX,
    ensures
        final(out)@ == old(out)@ + disk_deltas(*dev, Some(*prev)),
{
    let ghost before = out@;
    let read_delta: u64 = dev.sectors_read.saturating_sub(prev.sectors_read) * 512;
    let write_delta: u64 = dev.sectors_written.saturating_sub(prev.sectors_written) * 512;
    out.push(count("disk_read_bytes_delta", read_delta));
    out.push(count("disk_write_bytes_delta", write_delta));
    out.push(
        count("disk_read_ops_delta", dev.read_completed.saturating_sub(prev.read_completed)),
    );
    out.push(
        count("disk_write_ops_delta", dev.write_completed.saturating_sub(prev.write_completed)),
    );
    assert(out@ =~= before + disk_deltas(*dev, Some(*prev)));
}

/// Reports disk figures and what was added since the last ones.
pub struct DiskMetricCollector {
    prev_stats: Option<Vec<DiskStat>>,
}

impl DiskMetricCollector {
    /// The last figures that were reported.
    pub closed spec fn prev(&self) -> Option<Vec<DiskStat>> {
        self.prev_stats
    }

    pub fn new() -> (r: Self)
        ensures
            r.prev() is None,
    {
        DiskMetricCollector { prev_stats: None }
    }

    pub fn closed(&self) -> (r: bool)
        ensures
            !r,
    {
        false
    }

    /// Whether `get_counters` takes the figures.
    pub fn fits(current: &Vec<DiskStat>) -> (r: bool)
        ensures
            r == (forall|i: int| 0 <= i < current.len() ==> bytes_fit(#[trigger] current@[i])),
    {
        let mut i: usize = 0;
        while i < current.len()
            invariant
                i <= current.len(),
                forall|j: int| 0 <= j < i ==> bytes_fit(#[trigger] current@[j]),
            decreases current.len() - i,
        {
            let dev = &current[i];
            let hidden = starts_with(dev.name.as_str(), "ram") || starts_with(
                dev.name.as_str(),
                "loop",
            );
            if !hidden && (dev.sectors_read > u64::MAX / 512 || dev.sectors_written > u64::MAX
                / 512) {
                assert(!bytes_fit(current@[i as int]));
                return false;
            }
            i = i + 1;
        }
        true
    }

    /// The counters for the figures, if they could be read. They become the ones that the next
    /// are compared to.
    pub fn get_counters(&mut self, collected: Result<Vec<DiskStat>, std::io::Error>) -> (r: Vec<
        Counter,
    >)
        requires
            collected matches Ok(current) ==> forall|i: int|
                0 <= i < current.len() ==> bytes_fit(#[trigger] current@[i]),
        ensures
            match collected {
                Ok(current) => {
                    &&& r@ == disk_counters(current@, old(self).prev())
                    &&& final(self).prev() == Some(current)
                },
                Err(_) => r@.len() == 0 && final(self).prev() == old(self).prev(),
            },
    {
        let current = match collected {
            Ok(stats) => stats,
            Err(_) => return Vec::new(),
        };
        let mut metrics: Vec<Counter> = Vec::new();
        let mut i: usize = 0;
        let ghost prev = self.prev_stats;
        while i < current.len()
            invariant
                i <= current.len(),
                self.prev_stats == prev,
                forall|j: int| 0 <= j < current.len() ==> bytes_fit(#[trigger] current@[j]),
                metrics@ == disk_counters(current@.take(i as int), prev),
            decreases current.len() - i,
        {
            let dev = &current[i];
            let ghost before = metrics@;
            proof {
                assert(current@.take(i + 1).drop_last() =~= current@.take(i as int));
                assert(current@.take(i + 1).last() == *dev);
                assert(bytes_fit(current@[i as int]));
            }
            if starts_with(dev.name.as_str(), "ram") || starts_with(dev.name.as_str(), "loop") {
                assert(before + device_counters(*dev, prev) =~= before);
            } else {
                push_disk_gauges(&mut metrics, dev);
                let ghost gauges = metrics@;
                assert(gauges + seq![] =~= gauges);
                if let Some(prev_list) = &self.prev_stats {
                    if let Some(k) = find_disk(prev_list, dev.name.as_str()) {
                        push_disk_deltas(&mut metrics, dev, &prev_list[k]);
                    }
                }
                assert(metrics@ =~= before + device_counters(*dev, prev));
            }
            i = i + 1;
        }
        assert(current@.take(i as int) =~= current@);
        self.prev_stats = Some(current);
        metrics
    }
}

/// The first of the earlier figures with a name.
pub open spec fn net_named(list: Seq<NetDevStat>, name: Seq<char>) -> Option<NetDevStat>
    decreases list.len(),
{
    if list.len() == 0 {
        None
    } else if list[0].name@ == name {
        Some(list[0])
    } else {
        net_named(list.drop_first(), name)
    }
}

pub open spec fn net_gauges(iface: NetDevStat) -> Seq<Counter> {
    seq![
        gauged("net_rx_bytes", iface.rx_bytes),
        gauged("net_rx_packets", iface.rx_packets),
        gauged("net_rx_errors", iface.rx_errors),
        gauged("net_rx_dropped", iface.rx_dropped),
        gauged("net_rx_fifo", iface.rx_fifo),
        gauged("net_rx_frame", iface.rx_frame),
        gauged("net_rx_compressed", iface.rx_compressed),
        gauged("net_rx_multicast", iface.rx_multicast),
        gauged("net_tx_bytes", iface.tx_bytes),
        gauged("net_tx_packets", iface.tx_packets),
        gauged("net_tx_errors", iface.tx_errors),
        gauged("net_tx_dropped", iface.tx_dropped),
        gauged("net_tx_fifo", iface.tx_fifo),
        gauged("net_tx_colls", iface.tx_colls),
        gauged("net_tx_carrier", iface.tx_carrier),
        gauged("net_tx_compressed", iface.tx_compressed),
    ]
}

pub open spec fn net_deltas(iface: NetDevStat, earlier: Option<NetDevStat>) -> Seq<Counter> {
    match earlier {
        Some(prev) => seq![
            counted("net_rx_bytes_delta", minus(iface.rx_bytes, prev.rx_bytes)),
            counted("net_tx_bytes_delta", minus(iface.tx_bytes, prev.tx_bytes)),
            counted("net_rx_packets_delta", minus(iface.rx_packets, prev.rx_packets)),
            counted("net_tx_packets_delta", minus(iface.tx_packets, prev.tx_packets)),
            counted("net_rx_errors_delta", minus(iface.rx_errors, prev.rx_errors)),
            counted("net_tx_errors_delta", minus(iface.tx_errors, prev.tx_errors)),
        ],
        None => seq![],
    }
}

/// What is reported of one interface.
pub open spec fn iface_counters(iface: NetDevStat, prev: Option<Vec<NetDevStat>>) -> Seq<Counter> {
    let earlier = match prev {
        Some(list) => net_named(list@, iface.name@),
        None => None,
    };
    net_gauges(iface) + net_deltas(iface, earlier)
}

/// What is reported of all interfaces.
pub open spec fn net_counters(current: Seq<NetDevStat>, prev: Option<Vec<NetDevStat>>) -> Seq<
    Counter,
>
    decreases current.len(),
{
    if current.len() == 0 {
        seq![]
    } else {
        net_counters(current.drop_last(), prev) + iface_counters(current.last(), prev)
    }
}

fn find_net(list: &Vec<NetDevStat>, name: &str) -> (r: Option<usize>)
    ensures
        match r {
            Some(i) => i < list.len() && net_named(list@, name@) == Some(list@[i as int]),
            None => net_named(list@, name@) is None,
        },
{
    let mut i: usize = 0;
    assert(list@.skip(0) =~= list@);
    while i < list.len()
        invariant
            i <= list.len(),
            net_named(list@, name@) == net_named(list@.skip(i as int), name@),
        decreases list.len() - i,
    {
        assert(list@.skip(i as int).drop_first() =~= list@.skip(i + 1));
        if same(list[i].name.as_str(), name) {
            return Some(i);
        }
        i = i + 1;
    }
    None
}

fn push_net_gauges(out: &mut Vec<Counter>, iface: &NetDevStat)
    ensures
        final(out)@ == old(out)@ + net_gauges(*iface),
{
    let ghost before = out@;
    out.push(gauge("net_rx_bytes", iface.rx_bytes));
    out.push(gauge("net_rx_packets", iface.rx_packets));
    out.push(gauge("net_rx_errors", iface.rx_errors));
    out.push(gauge("net_rx_dropped", iface.rx_dropped));
    out.push(gauge("net_rx_fifo", iface.rx_fifo));
    out.push(gauge("net_rx_frame", iface.rx_frame));
    out.push(gauge("net_rx_compressed", iface.rx_compressed));
    out.push(gauge("net_rx_multicast", iface.rx_multicast));
    out.push(gauge("net_tx_bytes", iface.tx_bytes));
    out.push(gauge("net_tx_packets", iface.tx_packets));
    out.push(gauge("net_tx_errors", iface.tx_errors));
    out.push(gauge("net_tx_dropped", iface.tx_dropped));
    out.push(gauge("net_tx_fifo", iface.tx_fifo));
    out.push(gauge("net_tx_colls", iface.tx_colls));
    out.push(gauge("net_tx_carrier", iface.tx_carrier));
    out.push(gauge("net_tx_compressed", iface.tx_compressed));
    assert(out@ =~= before + net_gauges(*iface));
}

/// Reports interface figures and what was added since the last ones.
pub struct NetworkMetricCollector {
    prev_stats: Option<Vec<NetDevStat>>,
}

impl NetworkMetricCollector {
    /// The last figures that were reported.
    pub closed spec fn prev(&self) -> Option<Vec<NetDevStat>> {
        self.prev_stats
    }

    pub fn new() -> (r: Self)
        ensures
            r.prev() is None,
    {
        NetworkMetricCollector { prev_stats: None }
    }

    pub fn closed(&self) -> (r: bool)
        ensures
            !r,
    {
        false
    }

    /// The counters for the figures, if they could be read. They become the ones that the next
    /// are compared to.
    pub fn get_counters(&mut self, collected: Result<Vec<NetDevStat>, std::io::Error>) -> (r: Vec<
        Counter,
    >)
        ensures
            match collected {
                Ok(current) => {
                    &&& r@ == net_counters(current@, old(self).prev())
                    &&& final(self).prev() == Some(current)
                },
                Err(_) => r@.len() == 0 && final(self).prev() == old(self).prev(),
            },
    {
        let current = match collected {
            Ok(stats) => stats,
            Err(_) => return Vec::new(),
        };
        let mut metrics: Vec<Counter> = Vec::new();
        let mut i: usize = 0;
        let ghost prev = self.prev_stats;
        while i < current.len()
            invariant
                i <= current.len(),
                self.prev_stats == prev,
                metrics@ == net_counters(current@.take(i as int), prev),
            decreases current.len() - i,
        {
            let iface = &current[i];
            let ghost before = metrics@;
            proof {
                assert(current@.take(i + 1).drop_last() =~= current@.take(i as int));
                assert(current@.take(i + 1).last() == *iface);
            }
            push_net_gauges(&mut metrics, iface);
            let ghost gauges = metrics@;
            let ghost earlier = match prev {
                Some(list) => net_named(list@, iface.name@),
                None => None,
            };
            if let Some(prev_list) = &self.prev_stats {
                if let Some(k) = find_net(prev_list, iface.name.as_str()) {
                    push_net_deltas(&mut metrics, iface, &prev_list[k]);
                }
            }
            assert(metrics@ =~= before + iface_counters(*iface, prev));
            i = i + 1;
        }
        assert(current@.take(i as int) =~= current@);
        self.prev_stats = Some(current);
        metrics
    }
}

fn push_net_deltas(out: &mut Vec<Counter>, iface: &NetDevStat, prev: &NetDevStat)
    ensures
        final(out)@ == old(out)@ + net_deltas(*iface, Some(*prev)),
{
    let ghost before = out@;
    out.push(count("net_rx_bytes_delta", iface.rx_bytes.saturating_sub(prev.rx_bytes)));
    out.push(count("net_tx_bytes_delta", iface.tx_bytes.saturating_sub(prev.tx_bytes)));
    out.push(count("net_rx_packets_delta", iface.rx_packets.saturating_sub(prev.rx_packets)));
    out.push(count("net_tx_packets_delta", iface.tx_packets.saturating_sub(prev.tx_packets)));
    out.push(count("net_rx_errors_delta", iface.rx_errors.saturating_sub(prev.rx_errors)));
    out.push(count("net_tx_errors_delta", iface.tx_errors.saturating_sub(prev.tx_errors)));
    assert(out@ =~= before + net_deltas(*iface, Some(*prev)));
}

/// The first report has no differences; every later one has.
pub proof fn only_later_reports_have_deltas(prev: CpuState, current: CpuState)
    ensures
        cpu_counters(None, current) == cpu_gauges(current),
        cpu_counters(Some(prev), current).take(cpu_deltas(prev, current).len() as int)
            == cpu_deltas(prev, current),
        cpu_counters(Some(prev), current).skip(cpu_deltas(prev, current).len() as int)
            == cpu_gauges(current),
{
    let all = cpu_counters(Some(prev), current);
    let n = cpu_deltas(prev, current).len() as int;
    assert(all.take(n) =~= cpu_deltas(prev, current));
    assert(all.skip(n) =~= cpu_gauges(current));
}

/// Over a series of readings from a new collector, each report is made against the last
/// successful reading before it, and a reading that failed reports nothing. The first successful
/// report has no shares and no differences; every later one has them.
pub proof fn reports_go_against_the_last_reading(
    states: Seq<CpuMetricCollector>,
    readings: Seq<Option<CpuState>>,
    reports: Seq<Seq<Counter>>,
    k: int,
)
    requires
        states.len() == readings.len() + 1,
        reports.len() == readings.len(),
        states[0].prev() is None,
        forall|i: int|
            0 <= i < readings.len() ==> (#[trigger] states[i]).reports(
                readings[i],
                reports[i],
                states[i + 1],
            ),
        0 <= k < readings.len(),
    ensures
        match readings[k] {
            Some(current) => {
                let prev = last_reading(readings.take(k));
                &&& reports[k] == cpu_counters(prev, current)
                &&& names_counter(reports[k], "context_switches"@)
                &&& names_counter(reports[k], "boot_time"@)
                &&& names_counter(reports[k], "cpu_count"@)
                &&& names_counter(reports[k], "cpu_user_pct"@) == (prev is Some)
                &&& names_counter(reports[k], "cpu_active_pct"@) == (prev is Some)
                &&& names_counter(reports[k], "context_switches_delta"@) == (prev is Some)
            },
            None => reports[k].len() == 0,
        },
{
    lemma_last_reading(states, readings, reports, k);
    assert(states[k].reports(readings[k], reports[k], states[k + 1]));
    if let Some(current) = readings[k] {
        lemma_counter_names(last_reading(readings.take(k)), current);
    }
}

proof fn lemma_last_reading(
    states: Seq<CpuMetricCollector>,
    readings: Seq<Option<CpuState>>,
    reports: Seq<Seq<Counter>>,
    k: int,
)
    requires
        states.len() == readings.len() + 1,
        reports.len() == readings.len(),
        states[0].prev() is None,
        forall|i: int|
            0 <= i < readings.len() ==> (#[trigger] states[i]).reports(
                readings[i],
                reports[i],
                states[i + 1],
            ),
        0 <= k <= readings.len(),
    ensures
        states[k].prev() == last_reading(readings.take(k)),
    decreases k,
{
    if k > 0 {
        lemma_last_reading(states, readings, reports, k - 1);
        assert(states[k - 1].reports(readings[k - 1], reports[k - 1], states[k]));
        assert(readings.take(k).drop_last() =~= readings.take(k - 1));
    }
}

proof fn lemma_counter_names(prev: Option<CpuState>, current: CpuState)
    ensures
        ({
            let r = cpu_counters(prev, current);
            &&& names_counter(r, "context_switches"@)
            &&& names_counter(r, "boot_time"@)
            &&& names_counter(r, "cpu_count"@)
            &&& names_counter(r, "cpu_user_pct"@) == (prev is Some)
            &&& names_counter(r, "cpu_active_pct"@) == (prev is Some)
            &&& names_counter(r, "context_switches_delta"@) == (prev is Some)
        }),
{
    reveal_strlit("context_switches");
    reveal_strlit("boot_time");
    reveal_strlit("processes");
    reveal_strlit("procs_running");
    reveal_strlit("procs_blocked");
    reveal_strlit("cpu_count");
    reveal_strlit("cpu_user_pct");
    reveal_strlit("cpu_active_pct");
    reveal_strlit("context_switches_delta");
    let r = cpu_counters(prev, current);
    let gauges = cpu_gauges(current);
    let n = r.len() - gauges.len();
    assert(r[n] == gauges[0]);
    assert(r[n + 1] == gauges[1]);
    assert(r[n + 5] == gauges[5]);
    assert(names_counter(r, "context_switches"@));
    assert(names_counter(r, "boot_time"@));
    assert(names_counter(r, "cpu_count"@));
    if let Some(p) = prev {
        let delta = current.total.since(p.total);
        let shares = state_shares(delta).map_values(|s: (&'static str, Ratio)| share(s.0, s.1));
        assert(shares.len() == 10);
        assert(r[0] == shares[0]);
        assert(r[0].0@ == "cpu_user_pct"@);
        assert(r[10] == share("cpu_active_pct", active_share(delta)));
        assert(r[n - 1].0@ == "context_switches_delta"@);
        assert(names_counter(r, "cpu_user_pct"@));
        assert(names_counter(r, "cpu_active_pct"@));
        assert(names_counter(r, "context_switches_delta"@));
    } else {
        assert forall|i: int| 0 <= i < r.len() implies {
            let name = (#[trigger] r[i]).0@;
            name.len() == 16 || name.len() == 9 || name.len() == 13
        } by {
            assert(r[i] == gauges[i]);
        }
    }
}

/// A snapshot whose own times can be summed up is taken after any other.
pub proof fn summable_snapshots_are_taken(prev: Option<CpuState>, current: CpuState)
    requires
        current.total.sum() <= u64::MAX,
        forall|i: int|
            0 <= i < current.cpus@.len() ==> (#[trigger] current.cpus@[i]).sum() <= u64::MAX,
    ensures
        deltas_fit(prev, current),
{
    if let Some(p) = prev {
        difference_is_bounded(current.total, p.total);
        assert forall|i: int| 0 <= i < shorter(current.cpus@.len(), p.cpus@.len()) implies (
        #[trigger] current.cpus@[i]).since(p.cpus@[i]).sum() <= u64::MAX by {
            difference_is_bounded(current.cpus@[i], p.cpus@[i]);
        }
    }
}

/// No share exceeds the whole, and the active, idle and waiting times make up the whole.
pub proof fn shares_are_parts_of_the_whole(delta: CpuTimes)
    requires
        delta.sum() <= u64::MAX,
    ensures
        forall|i: int|
            0 <= i < state_shares(delta).len() ==> (#[trigger] state_shares(delta)[i]).1.part
                <= state_shares(delta)[i].1.whole,
        active_share(delta).part <= active_share(delta).whole,
        active_share(delta).part + delta.idle + delta.iowait == active_share(delta).whole,
{
}

} // verus!
