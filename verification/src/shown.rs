//! What is written stands behind its own label.
use crate::agent::identity::{AgentId, VersionInfo};
use crate::debug::metrics::NetworkMessage;
use crate::debug::policy::{Acl, Group};
use crate::debug::rpc::ConfigResp;
use crate::metric::cpu::{CpuState, CpuTimes};
use crate::metric::disk::DiskStat;
use crate::metric::memory::MemInfo;
use crate::metric::network::NetDevStat;
use vstd::prelude::*;

verus! {

use crate::ctl::list::{row, rule};
use crate::debug::metrics::stat_lines;
use crate::debug::policy::{
    acl_of,
    analysis,
    group_of,
    group_text,
    group_texts,
    hits_text,
    rule_text,
};
use crate::text::{decimal_of, joined, padded_left, padded_right, quoted_of, signed_decimal_of, texts};

/// Whether a text says something behind a label.
pub open spec fn says(text: Seq<char>, label: Seq<char>, value: Seq<char>) -> bool {
    exists|a: Seq<char>, b: Seq<char>| text == #[trigger] (a + label + value + b)
}

/// What is left of a number, or nothing.
pub open spec fn spare(all: u64, gone: u64) -> nat {
    if gone <= all {
        (all - gone) as nat
    } else {
        0
    }
}

proof fn lemma_says(text: Seq<char>, label: Seq<char>, value: Seq<char>)
    ensures
        says(text + label + value, label, value),
{
    let none = Seq::<char>::empty();
    assert(text + label + value =~= text + label + value + none);
}

proof fn lemma_says_more(text: Seq<char>, more: Seq<char>)
    ensures
        forall|label: Seq<char>, value: Seq<char>|
            says(text, label, value) ==> #[trigger] says(text + more, label, value),
{
    assert forall|label: Seq<char>, value: Seq<char>| says(text, label, value) implies #[trigger] says(
        text + more,
        label,
        value,
    ) by {
        let (a, b) = choose|a: Seq<char>, b: Seq<char>|
            text == #[trigger] (a + label + value + b);
        let c = b + more;
        assert(text + more =~= a + label + value + c);
    }
}

/// The line about an interface begins with its name and gives each figure behind its label.
pub proof fn an_interface_is_shown_with_its_figures(stat: NetDevStat)
    ensures
        says(stat.shown(), ": rx_bytes="@, decimal_of(stat.rx_bytes as nat)),
        says(stat.shown(), " rx_packets="@, decimal_of(stat.rx_packets as nat)),
        says(stat.shown(), " rx_errors="@, decimal_of(stat.rx_errors as nat)),
        says(stat.shown(), " rx_dropped="@, decimal_of(stat.rx_dropped as nat)),
        says(stat.shown(), " tx_bytes="@, decimal_of(stat.tx_bytes as nat)),
        says(stat.shown(), " tx_packets="@, decimal_of(stat.tx_packets as nat)),
        says(stat.shown(), " tx_errors="@, decimal_of(stat.tx_errors as nat)),
        says(stat.shown(), " tx_dropped="@, decimal_of(stat.tx_dropped as nat)),
{
    let t0 = stat.name@;
    let t1 = t0 + ": rx_bytes="@;
    lemma_says_more(t0, ": rx_bytes="@);
    let t2 = t1 + decimal_of(stat.rx_bytes as nat);
    lemma_says_more(t1, decimal_of(stat.rx_bytes as nat));
    lemma_says(t0, ": rx_bytes="@, decimal_of(stat.rx_bytes as nat));
    let t3 = t2 + " rx_packets="@;
    lemma_says_more(t2, " rx_packets="@);
    let t4 = t3 + decimal_of(stat.rx_packets as nat);
    lemma_says_more(t3, decimal_of(stat.rx_packets as nat));
    lemma_says(t2, " rx_packets="@, decimal_of(stat.rx_packets as nat));
    let t5 = t4 + " rx_errors="@;
    lemma_says_more(t4, " rx_errors="@);
    let t6 = t5 + decimal_of(stat.rx_errors as nat);
    lemma_says_more(t5, decimal_of(stat.rx_errors as nat));
    lemma_says(t4, " rx_errors="@, decimal_of(stat.rx_errors as nat));
    let t7 = t6 + " rx_dropped="@;
    lemma_says_more(t6, " rx_dropped="@);
    let t8 = t7 + decimal_of(stat.rx_dropped as nat);
    lemma_says_more(t7, decimal_of(stat.rx_dropped as nat));
    lemma_says(t6, " rx_dropped="@, decimal_of(stat.rx_dropped as nat));
    let t9 = t8 + " tx_bytes="@;
    lemma_says_more(t8, " tx_bytes="@);
    let t10 = t9 + decimal_of(stat.tx_bytes as nat);
    lemma_says_more(t9, decimal_of(stat.tx_bytes as nat));
    lemma_says(t8, " tx_bytes="@, decimal_of(stat.tx_bytes as nat));
    let t11 = t10 + " tx_packets="@;
    lemma_says_more(t10, " tx_packets="@);
    let t12 = t11 + decimal_of(stat.tx_packets as nat);
    lemma_says_more(t11, decimal_of(stat.tx_packets as nat));
    lemma_says(t10, " tx_packets="@, decimal_of(stat.tx_packets as nat));
    let t13 = t12 + " tx_errors="@;
    lemma_says_more(t12, " tx_errors="@);
    let t14 = t13 + decimal_of(stat.tx_errors as nat);
    lemma_says_more(t13, decimal_of(stat.tx_errors as nat));
    lemma_says(t12, " tx_errors="@, decimal_of(stat.tx_errors as nat));
    let t15 = t14 + " tx_dropped="@;
    lemma_says_more(t14, " tx_dropped="@);
    let t16 = t15 + decimal_of(stat.tx_dropped as nat);
    lemma_says_more(t15, decimal_of(stat.tx_dropped as nat));
    lemma_says(t14, " tx_dropped="@, decimal_of(stat.tx_dropped as nat));
    assert(stat.shown() =~= t16);
}

/// The line about a device begins with its name and gives each figure behind its label.
pub proof fn a_disk_is_shown_with_its_figures(stat: DiskStat)
    ensures
        says(stat.shown(), ": reads="@, decimal_of(stat.read_completed as nat)),
        says(stat.shown(), " writes="@, decimal_of(stat.write_completed as nat)),
        says(stat.shown(), " io_time="@, decimal_of(stat.io_time_ms as nat)),
        says(stat.shown(), "ms read_bytes="@, decimal_of((stat.sectors_read * 512) as nat)),
        says(stat.shown(), " write_bytes="@, decimal_of((stat.sectors_written * 512) as nat)),
{
    let t0 = stat.name@;
    let t1 = t0 + ": reads="@;
    lemma_says_more(t0, ": reads="@);
    let t2 = t1 + decimal_of(stat.read_completed as nat);
    lemma_says_more(t1, decimal_of(stat.read_completed as nat));
    lemma_says(t0, ": reads="@, decimal_of(stat.read_completed as nat));
    let t3 = t2 + " writes="@;
    lemma_says_more(t2, " writes="@);
    let t4 = t3 + decimal_of(stat.write_completed as nat);
    lemma_says_more(t3, decimal_of(stat.write_completed as nat));
    lemma_says(t2, " writes="@, decimal_of(stat.write_completed as nat));
    let t5 = t4 + " io_time="@;
    lemma_says_more(t4, " io_time="@);
    let t6 = t5 + decimal_of(stat.io_time_ms as nat);
    lemma_says_more(t5, decimal_of(stat.io_time_ms as nat));
    lemma_says(t4, " io_time="@, decimal_of(stat.io_time_ms as nat));
    let t7 = t6 + "ms read_bytes="@;
    lemma_says_more(t6, "ms read_bytes="@);
    let t8 = t7 + decimal_of((stat.sectors_read * 512) as nat);
    lemma_says_more(t7, decimal_of((stat.sectors_read * 512) as nat));
    lemma_says(t6, "ms read_bytes="@, decimal_of((stat.sectors_read * 512) as nat));
    let t9 = t8 + " write_bytes="@;
    lemma_says_more(t8, " write_bytes="@);
    let t10 = t9 + decimal_of((stat.sectors_written * 512) as nat);
    lemma_says_more(t9, decimal_of((stat.sectors_written * 512) as nat));
    lemma_says(t8, " write_bytes="@, decimal_of((stat.sectors_written * 512) as nat));
    assert(stat.shown() =~= t10);
}

/// The text about the memory gives each figure behind its label.
pub proof fn memory_is_shown_with_its_figures(info: MemInfo, usage: Seq<char>, swap_usage: Seq<char>)
    ensures
        says(info.shown(usage, swap_usage), "MemTotal:       "@, decimal_of(info.mem_total as nat)),
        says(info.shown(usage, swap_usage), " kB\nMemFree:        "@, decimal_of(info.mem_free as nat)),
        says(info.shown(usage, swap_usage), " kB\nMemAvailable:   "@, decimal_of(info.mem_available as nat)),
        says(info.shown(usage, swap_usage), " kB\nMemUsed:        "@, decimal_of(spare(info.mem_total, info.mem_available))),
        says(info.shown(usage, swap_usage), " kB ("@, usage),
        says(info.shown(usage, swap_usage), "%)\nBuffers:        "@, decimal_of(info.buffers as nat)),
        says(info.shown(usage, swap_usage), " kB\nCached:         "@, decimal_of(info.cached as nat)),
        says(info.shown(usage, swap_usage), " kB\nSwapCached:     "@, decimal_of(info.swap_cached as nat)),
        says(info.shown(usage, swap_usage), " kB\nActive:         "@, decimal_of(info.active as nat)),
        says(info.shown(usage, swap_usage), " kB\nInactive:       "@, decimal_of(info.inactive as nat)),
        says(info.shown(usage, swap_usage), " kB\nSwapTotal:      "@, decimal_of(info.swap_total as nat)),
        says(info.shown(usage, swap_usage), " kB\nSwapFree:       "@, decimal_of(info.swap_free as nat)),
        says(info.shown(usage, swap_usage), " kB\nSwapUsed:       "@, decimal_of(spare(info.swap_total, info.swap_free))),
        says(info.shown(usage, swap_usage), " kB ("@, swap_usage),
        says(info.shown(usage, swap_usage), "%)\nDirty:          "@, decimal_of(info.dirty as nat)),
        says(info.shown(usage, swap_usage), " kB\nSlab:           "@, decimal_of(info.slab as nat)),
        says(info.shown(usage, swap_usage), " kB\nKernelStack:    "@, decimal_of(info.kernel_stack as nat)),
        says(info.shown(usage, swap_usage), " kB\nPageTables:     "@, decimal_of(info.page_tables as nat)),
{
    let t0 = "MemTotal:       "@;
    let none = Seq::<char>::empty();
    lemma_says(none, "MemTotal:       "@, decimal_of(info.mem_total as nat));
    assert(none + "MemTotal:       "@ + decimal_of(info.mem_total as nat) =~= t0 + decimal_of(info.mem_total as nat));
    let t1 = t0 + decimal_of(info.mem_total as nat);
    lemma_says_more(t0, decimal_of(info.mem_total as nat));
    let t2 = t1 + " kB\nMemFree:        "@;
    lemma_says_more(t1, " kB\nMemFree:        "@);
    let t3 = t2 + decimal_of(info.mem_free as nat);
    lemma_says_more(t2, decimal_of(info.mem_free as nat));
    lemma_says(t1, " kB\nMemFree:        "@, decimal_of(info.mem_free as nat));
    let t4 = t3 + " kB\nMemAvailable:   "@;
    lemma_says_more(t3, " kB\nMemAvailable:   "@);
    let t5 = t4 + decimal_of(info.mem_available as nat);
    lemma_says_more(t4, decimal_of(info.mem_available as nat));
    lemma_says(t3, " kB\nMemAvailable:   "@, decimal_of(info.mem_available as nat));
    let t6 = t5 + " kB\nMemUsed:        "@;
    lemma_says_more(t5, " kB\nMemUsed:        "@);
    let t7 = t6 + decimal_of(spare(info.mem_total, info.mem_available));
    lemma_says_more(t6, decimal_of(spare(info.mem_total, info.mem_available)));
    lemma_says(t5, " kB\nMemUsed:        "@, decimal_of(spare(info.mem_total, info.mem_available)));
    let t8 = t7 + " kB ("@;
    lemma_says_more(t7, " kB ("@);
    let t9 = t8 + usage;
    lemma_says_more(t8, usage);
    lemma_says(t7, " kB ("@, usage);
    let t10 = t9 + "%)\nBuffers:        "@;
    lemma_says_more(t9, "%)\nBuffers:        "@);
    let t11 = t10 + decimal_of(info.buffers as nat);
    lemma_says_more(t10, decimal_of(info.buffers as nat));
    lemma_says(t9, "%)\nBuffers:        "@, decimal_of(info.buffers as nat));
    let t12 = t11 + " kB\nCached:         "@;
    lemma_says_more(t11, " kB\nCached:         "@);
    let t13 = t12 + decimal_of(info.cached as nat);
    lemma_says_more(t12, decimal_of(info.cached as nat));
    lemma_says(t11, " kB\nCached:         "@, decimal_of(info.cached as nat));
    let t14 = t13 + " kB\nSwapCached:     "@;
    lemma_says_more(t13, " kB\nSwapCached:     "@);
    let t15 = t14 + decimal_of(info.swap_cached as nat);
    lemma_says_more(t14, decimal_of(info.swap_cached as nat));
    lemma_says(t13, " kB\nSwapCached:     "@, decimal_of(info.swap_cached as nat));
    let t16 = t15 + " kB\nActive:         "@;
    lemma_says_more(t15, " kB\nActive:         "@);
    let t17 = t16 + decimal_of(info.active as nat);
    lemma_says_more(t16, decimal_of(info.active as nat));
    lemma_says(t15, " kB\nActive:         "@, decimal_of(info.active as nat));
    let t18 = t17 + " kB\nInactive:       "@;
    lemma_says_more(t17, " kB\nInactive:       "@);
    let t19 = t18 + decimal_of(info.inactive as nat);
    lemma_says_more(t18, decimal_of(info.inactive as nat));
    lemma_says(t17, " kB\nInactive:       "@, decimal_of(info.inactive as nat));
    let t20 = t19 + " kB\nSwapTotal:      "@;
    lemma_says_more(t19, " kB\nSwapTotal:      "@);
    let t21 = t20 + decimal_of(info.swap_total as nat);
    lemma_says_more(t20, decimal_of(info.swap_total as nat));
    lemma_says(t19, " kB\nSwapTotal:      "@, decimal_of(info.swap_total as nat));
    let t22 = t21 + " kB\nSwapFree:       "@;
    lemma_says_more(t21, " kB\nSwapFree:       "@);
    let t23 = t22 + decimal_of(info.swap_free as nat);
    lemma_says_more(t22, decimal_of(info.swap_free as nat));
    lemma_says(t21, " kB\nSwapFree:       "@, decimal_of(info.swap_free as nat));
    let t24 = t23 + " kB\nSwapUsed:       "@;
    lemma_says_more(t23, " kB\nSwapUsed:       "@);
    let t25 = t24 + decimal_of(spare(info.swap_total, info.swap_free));
    lemma_says_more(t24, decimal_of(spare(info.swap_total, info.swap_free)));
    lemma_says(t23, " kB\nSwapUsed:       "@, decimal_of(spare(info.swap_total, info.swap_free)));
    let t26 = t25 + " kB ("@;
    lemma_says_more(t25, " kB ("@);
    let t27 = t26 + swap_usage;
    lemma_says_more(t26, swap_usage);
    lemma_says(t25, " kB ("@, swap_usage);
    let t28 = t27 + "%)\nDirty:          "@;
    lemma_says_more(t27, "%)\nDirty:          "@);
    let t29 = t28 + decimal_of(info.dirty as nat);
    lemma_says_more(t28, decimal_of(info.dirty as nat));
    lemma_says(t27, "%)\nDirty:          "@, decimal_of(info.dirty as nat));
    let t30 = t29 + " kB\nSlab:           "@;
    lemma_says_more(t29, " kB\nSlab:           "@);
    let t31 = t30 + decimal_of(info.slab as nat);
    lemma_says_more(t30, decimal_of(info.slab as nat));
    lemma_says(t29, " kB\nSlab:           "@, decimal_of(info.slab as nat));
    let t32 = t31 + " kB\nKernelStack:    "@;
    lemma_says_more(t31, " kB\nKernelStack:    "@);
    let t33 = t32 + decimal_of(info.kernel_stack as nat);
    lemma_says_more(t32, decimal_of(info.kernel_stack as nat));
    lemma_says(t31, " kB\nKernelStack:    "@, decimal_of(info.kernel_stack as nat));
    let t34 = t33 + " kB\nPageTables:     "@;
    lemma_says_more(t33, " kB\nPageTables:     "@);
    let t35 = t34 + decimal_of(info.page_tables as nat);
    lemma_says_more(t34, decimal_of(info.page_tables as nat));
    lemma_says(t33, " kB\nPageTables:     "@, decimal_of(info.page_tables as nat));
    let t36 = t35 + " kB"@;
    lemma_says_more(t35, " kB"@);
    assert(info.shown(usage, swap_usage) =~= t36);
}

/// The line about a CPU gives the share of each state behind its label.
pub proof fn cpu_times_are_shown_with_their_shares(times: CpuTimes, percents: Seq<Seq<char>>)
    requires
        times.sum() != 0,
        percents.len() == 10,
    ensures
        says(times.line(percents), "user="@, percents[0]),
        says(times.line(percents), "% nice="@, percents[1]),
        says(times.line(percents), "% system="@, percents[2]),
        says(times.line(percents), "% idle="@, percents[3]),
        says(times.line(percents), "% iowait="@, percents[4]),
        says(times.line(percents), "% irq="@, percents[5]),
        says(times.line(percents), "% softirq="@, percents[6]),
        says(times.line(percents), "% steal="@, percents[7]),
        says(times.line(percents), "% guest="@, percents[8]),
        says(times.line(percents), "% guest_nice="@, percents[9]),
{
    let t0 = "user="@;
    let none = Seq::<char>::empty();
    lemma_says(none, "user="@, percents[0]);
    assert(none + "user="@ + percents[0] =~= t0 + percents[0]);
    let t1 = t0 + percents[0];
    lemma_says_more(t0, percents[0]);
    let t2 = t1 + "% nice="@;
    lemma_says_more(t1, "% nice="@);
    let t3 = t2 + percents[1];
    lemma_says_more(t2, percents[1]);
    lemma_says(t1, "% nice="@, percents[1]);
    let t4 = t3 + "% system="@;
    lemma_says_more(t3, "% system="@);
    let t5 = t4 + percents[2];
    lemma_says_more(t4, percents[2]);
    lemma_says(t3, "% system="@, percents[2]);
    let t6 = t5 + "% idle="@;
    lemma_says_more(t5, "% idle="@);
    let t7 = t6 + percents[3];
    lemma_says_more(t6, percents[3]);
    lemma_says(t5, "% idle="@, percents[3]);
    let t8 = t7 + "% iowait="@;
    lemma_says_more(t7, "% iowait="@);
    let t9 = t8 + percents[4];
    lemma_says_more(t8, percents[4]);
    lemma_says(t7, "% iowait="@, percents[4]);
    let t10 = t9 + "% irq="@;
    lemma_says_more(t9, "% irq="@);
    let t11 = t10 + percents[5];
    lemma_says_more(t10, percents[5]);
    lemma_says(t9, "% irq="@, percents[5]);
    let t12 = t11 + "% softirq="@;
    lemma_says_more(t11, "% softirq="@);
    let t13 = t12 + percents[6];
    lemma_says_more(t12, percents[6]);
    lemma_says(t11, "% softirq="@, percents[6]);
    let t14 = t13 + "% steal="@;
    lemma_says_more(t13, "% steal="@);
    let t15 = t14 + percents[7];
    lemma_says_more(t14, percents[7]);
    lemma_says(t13, "% steal="@, percents[7]);
    let t16 = t15 + "% guest="@;
    lemma_says_more(t15, "% guest="@);
    let t17 = t16 + percents[8];
    lemma_says_more(t16, percents[8]);
    lemma_says(t15, "% guest="@, percents[8]);
    let t18 = t17 + "% guest_nice="@;
    lemma_says_more(t17, "% guest_nice="@);
    let t19 = t18 + percents[9];
    lemma_says_more(t18, percents[9]);
    lemma_says(t17, "% guest_nice="@, percents[9]);
    let t20 = t19 + "%"@;
    lemma_says_more(t19, "%"@);
    assert(times.line(percents) =~= t20);
}

/// The text about a snapshot gives the times of all CPUs, those of each, and each counter behind
/// its label.
pub proof fn a_snapshot_is_shown_with_its_counters(state: CpuState, total: Seq<char>, cpus: Seq<Seq<char>>)
    ensures
        says(state.shown(total, cpus), "CPU Total:  "@, total),
        says(state.shown(total, cpus), "\n"@, CpuState::cpu_lines(cpus)),
        says(state.shown(total, cpus), "Context Switches: "@, decimal_of(state.context_switches as nat)),
        says(state.shown(total, cpus), "\nBoot Time:        "@, decimal_of(state.boot_time as nat)),
        says(state.shown(total, cpus), "\nProcesses:        "@, decimal_of(state.processes as nat)),
        says(state.shown(total, cpus), "\nProcs Running:    "@, decimal_of(state.procs_running as nat)),
        says(state.shown(total, cpus), "\nProcs Blocked:    "@, decimal_of(state.procs_blocked as nat)),
{
    let t0 = "CPU Total:  "@;
    let none = Seq::<char>::empty();
    lemma_says(none, "CPU Total:  "@, total);
    assert(none + "CPU Total:  "@ + total =~= t0 + total);
    let t1 = t0 + total;
    lemma_says_more(t0, total);
    let t2 = t1 + "\n"@;
    lemma_says_more(t1, "\n"@);
    let t3 = t2 + CpuState::cpu_lines(cpus);
    lemma_says_more(t2, CpuState::cpu_lines(cpus));
    lemma_says(t1, "\n"@, CpuState::cpu_lines(cpus));
    let t4 = t3 + "Context Switches: "@;
    lemma_says_more(t3, "Context Switches: "@);
    let t5 = t4 + decimal_of(state.context_switches as nat);
    lemma_says_more(t4, decimal_of(state.context_switches as nat));
    lemma_says(t3, "Context Switches: "@, decimal_of(state.context_switches as nat));
    let t6 = t5 + "\nBoot Time:        "@;
    lemma_says_more(t5, "\nBoot Time:        "@);
    let t7 = t6 + decimal_of(state.boot_time as nat);
    lemma_says_more(t6, decimal_of(state.boot_time as nat));
    lemma_says(t5, "\nBoot Time:        "@, decimal_of(state.boot_time as nat));
    let t8 = t7 + "\nProcesses:        "@;
    lemma_says_more(t7, "\nProcesses:        "@);
    let t9 = t8 + decimal_of(state.processes as nat);
    lemma_says_more(t8, decimal_of(state.processes as nat));
    lemma_says(t7, "\nProcesses:        "@, decimal_of(state.processes as nat));
    let t10 = t9 + "\nProcs Running:    "@;
    lemma_says_more(t9, "\nProcs Running:    "@);
    let t11 = t10 + decimal_of(state.procs_running as nat);
    lemma_says_more(t10, decimal_of(state.procs_running as nat));
    lemma_says(t9, "\nProcs Running:    "@, decimal_of(state.procs_running as nat));
    let t12 = t11 + "\nProcs Blocked:    "@;
    lemma_says_more(t11, "\nProcs Blocked:    "@);
    let t13 = t12 + decimal_of(state.procs_blocked as nat);
    lemma_says_more(t12, decimal_of(state.procs_blocked as nat));
    lemma_says(t11, "\nProcs Blocked:    "@, decimal_of(state.procs_blocked as nat));
    assert(state.shown(total, cpus) =~= t13);
}

/// The text about a build gives each thing behind its label; the community edition is called so.
pub proof fn a_build_is_shown_with_all_about_it(info: VersionInfo, edition: Seq<char>)
    requires
        info.name@ == "zerotrace-agent-ce"@ ==> edition == "zerotrace-agent community edition"@,
        info.name@ != "zerotrace-agent-ce"@ ==> edition == "zerotrace-agent enterprise edition"@,
    ensures
        says(info.shown(), "-"@, info.commit_id@),
        says(info.shown(), "\nName: "@, edition),
        says(info.shown(), "\nBranch: "@, info.branch@),
        says(info.shown(), "\nCommitId: "@, info.commit_id@),
        says(info.shown(), "\nRevCount: "@, info.rev_count@),
        says(info.shown(), "\nCompiler: "@, info.compiler@),
        says(info.shown(), "\nCompileTime: "@, info.compile_time@),
{
    let t0 = info.rev_count@;
    let t1 = t0 + "-"@;
    lemma_says_more(t0, "-"@);
    let t2 = t1 + info.commit_id@;
    lemma_says_more(t1, info.commit_id@);
    lemma_says(t0, "-"@, info.commit_id@);
    let t3 = t2 + "\nName: "@;
    lemma_says_more(t2, "\nName: "@);
    let t4 = t3 + edition;
    lemma_says_more(t3, edition);
    lemma_says(t2, "\nName: "@, edition);
    let t5 = t4 + "\nBranch: "@;
    lemma_says_more(t4, "\nBranch: "@);
    let t6 = t5 + info.branch@;
    lemma_says_more(t5, info.branch@);
    lemma_says(t4, "\nBranch: "@, info.branch@);
    let t7 = t6 + "\nCommitId: "@;
    lemma_says_more(t6, "\nCommitId: "@);
    let t8 = t7 + info.commit_id@;
    lemma_says_more(t7, info.commit_id@);
    lemma_says(t6, "\nCommitId: "@, info.commit_id@);
    let t9 = t8 + "\nRevCount: "@;
    lemma_says_more(t8, "\nRevCount: "@);
    let t10 = t9 + info.rev_count@;
    lemma_says_more(t9, info.rev_count@);
    lemma_says(t8, "\nRevCount: "@, info.rev_count@);
    let t11 = t10 + "\nCompiler: "@;
    lemma_says_more(t10, "\nCompiler: "@);
    let t12 = t11 + info.compiler@;
    lemma_says_more(t11, info.compiler@);
    lemma_says(t10, "\nCompiler: "@, info.compiler@);
    let t13 = t12 + "\nCompileTime: "@;
    lemma_says_more(t12, "\nCompileTime: "@);
    let t14 = t13 + info.compile_time@;
    lemma_says_more(t13, info.compile_time@);
    lemma_says(t12, "\nCompileTime: "@, info.compile_time@);
    assert(info.shown() =~= t14);
}

/// The line about a configuration gives each thing behind its label, texts in quotes.
pub proof fn a_configuration_is_shown_with_all_about_it(c: ConfigResp)
    ensures
        says(c.shown(), "ConfigResp { status: "@, signed_decimal_of(c.status as int)),
        says(c.shown(), ", version_platform_data: "@, decimal_of(c.version_platform_data as nat)),
        says(c.shown(), ", version_acls: "@, decimal_of(c.version_acls as nat)),
        says(c.shown(), ", version_groups: "@, decimal_of(c.version_groups as nat)),
        says(c.shown(), ", revision: "@, quoted_of(c.revision@)),
        says(c.shown(), ", config: "@, quoted_of(c.config@)),
        says(c.shown(), ", self_update_url: "@, quoted_of(c.self_update_url@)),
{
    let t0 = "ConfigResp { status: "@;
    let none = Seq::<char>::empty();
    lemma_says(none, "ConfigResp { status: "@, signed_decimal_of(c.status as int));
    assert(none + "ConfigResp { status: "@ + signed_decimal_of(c.status as int) =~= t0 + signed_decimal_of(c.status as int));
    let t1 = t0 + signed_decimal_of(c.status as int);
    lemma_says_more(t0, signed_decimal_of(c.status as int));
    let t2 = t1 + ", version_platform_data: "@;
    lemma_says_more(t1, ", version_platform_data: "@);
    let t3 = t2 + decimal_of(c.version_platform_data as nat);
    lemma_says_more(t2, decimal_of(c.version_platform_data as nat));
    lemma_says(t1, ", version_platform_data: "@, decimal_of(c.version_platform_data as nat));
    let t4 = t3 + ", version_acls: "@;
    lemma_says_more(t3, ", version_acls: "@);
    let t5 = t4 + decimal_of(c.version_acls as nat);
    lemma_says_more(t4, decimal_of(c.version_acls as nat));
    lemma_says(t3, ", version_acls: "@, decimal_of(c.version_acls as nat));
    let t6 = t5 + ", version_groups: "@;
    lemma_says_more(t5, ", version_groups: "@);
    let t7 = t6 + decimal_of(c.version_groups as nat);
    lemma_says_more(t6, decimal_of(c.version_groups as nat));
    lemma_says(t5, ", version_groups: "@, decimal_of(c.version_groups as nat));
    let t8 = t7 + ", revision: "@;
    lemma_says_more(t7, ", revision: "@);
    let t9 = t8 + quoted_of(c.revision@);
    lemma_says_more(t8, quoted_of(c.revision@));
    lemma_says(t7, ", revision: "@, quoted_of(c.revision@));
    let t10 = t9 + ", config: "@;
    lemma_says_more(t9, ", config: "@);
    let t11 = t10 + quoted_of(c.config@);
    lemma_says_more(t10, quoted_of(c.config@));
    lemma_says(t9, ", config: "@, quoted_of(c.config@));
    let t12 = t11 + ", self_update_url: "@;
    lemma_says_more(t11, ", self_update_url: "@);
    let t13 = t12 + quoted_of(c.self_update_url@);
    lemma_says_more(t12, quoted_of(c.self_update_url@));
    lemma_says(t11, ", self_update_url: "@, quoted_of(c.self_update_url@));
    let t14 = t13 + " }"@;
    lemma_says_more(t13, " }"@);
    assert(c.shown() =~= t14);
}

/// The hits on the two paths stand behind their labels.
pub proof fn hits_are_shown_by_path(first: u64, fast: u64)
    ensures
        says(hits_text(first, fast), "FirstPath Hits: "@, decimal_of(first as nat)),
        says(hits_text(first, fast), ", FastPath Hits: "@, decimal_of(fast as nat)),
{
    let t0 = "FirstPath Hits: "@;
    let none = Seq::<char>::empty();
    lemma_says(none, "FirstPath Hits: "@, decimal_of(first as nat));
    assert(none + "FirstPath Hits: "@ + decimal_of(first as nat) =~= t0 + decimal_of(first as nat));
    let t1 = t0 + decimal_of(first as nat);
    lemma_says_more(t0, decimal_of(first as nat));
    let t2 = t1 + ", FastPath Hits: "@;
    lemma_says_more(t1, ", FastPath Hits: "@);
    let t3 = t2 + decimal_of(fast as nat);
    lemma_says_more(t2, decimal_of(fast as nat));
    lemma_says(t1, ", FastPath Hits: "@, decimal_of(fast as nat));
    assert(hits_text(first, fast) =~= t3);
}

/// The text about a rule gives each thing behind its label: the source's groups and ports as the
/// source's, and the destination's as the destination's.
pub proof fn a_rule_is_shown_with_all_about_it(acl: Acl, groups: Seq<Group>, src_ports: Seq<char>, dst_ports: Seq<char>)
    ensures
        says(rule_text(acl, groups, src_ports, dst_ports), "Id: "@, decimal_of(acl.id as nat)),
        says(rule_text(acl, groups, src_ports, dst_ports), "\nCaptureNetworkType: "@, acl.tap_type@),
        says(rule_text(acl, groups, src_ports, dst_ports), "\nIP Src: \n\t"@, joined(group_texts(groups, acl.src_groups@), "\t\n"@)),
        says(rule_text(acl, groups, src_ports, dst_ports), "\nIP Dst: \n\t"@, joined(group_texts(groups, acl.dst_groups@), "\t\n"@)),
        says(rule_text(acl, groups, src_ports, dst_ports), "\nProtocol: "@, decimal_of(acl.proto as nat)),
        says(rule_text(acl, groups, src_ports, dst_ports), "\nPort Src: "@, src_ports),
        says(rule_text(acl, groups, src_ports, dst_ports), "\nPort Dst: "@, dst_ports),
        says(rule_text(acl, groups, src_ports, dst_ports), "\nActions: "@, joined(texts(acl.npb_actions@), ","@)),
{
    let t0 = "Id: "@;
    let none = Seq::<char>::empty();
    lemma_says(none, "Id: "@, decimal_of(acl.id as nat));
    assert(none + "Id: "@ + decimal_of(acl.id as nat) =~= t0 + decimal_of(acl.id as nat));
    let t1 = t0 + decimal_of(acl.id as nat);
    lemma_says_more(t0, decimal_of(acl.id as nat));
    let t2 = t1 + "\nCaptureNetworkType: "@;
    lemma_says_more(t1, "\nCaptureNetworkType: "@);
    let t3 = t2 + acl.tap_type@;
    lemma_says_more(t2, acl.tap_type@);
    lemma_says(t1, "\nCaptureNetworkType: "@, acl.tap_type@);
    let t4 = t3 + "\nIP Src: \n\t"@;
    lemma_says_more(t3, "\nIP Src: \n\t"@);
    let t5 = t4 + joined(group_texts(groups, acl.src_groups@), "\t\n"@);
    lemma_says_more(t4, joined(group_texts(groups, acl.src_groups@), "\t\n"@));
    lemma_says(t3, "\nIP Src: \n\t"@, joined(group_texts(groups, acl.src_groups@), "\t\n"@));
    let t6 = t5 + "\nIP Dst: \n\t"@;
    lemma_says_more(t5, "\nIP Dst: \n\t"@);
    let t7 = t6 + joined(group_texts(groups, acl.dst_groups@), "\t\n"@);
    lemma_says_more(t6, joined(group_texts(groups, acl.dst_groups@), "\t\n"@));
    lemma_says(t5, "\nIP Dst: \n\t"@, joined(group_texts(groups, acl.dst_groups@), "\t\n"@));
    let t8 = t7 + "\nProtocol: "@;
    lemma_says_more(t7, "\nProtocol: "@);
    let t9 = t8 + decimal_of(acl.proto as nat);
    lemma_says_more(t8, decimal_of(acl.proto as nat));
    lemma_says(t7, "\nProtocol: "@, decimal_of(acl.proto as nat));
    let t10 = t9 + "\nPort Src: "@;
    lemma_says_more(t9, "\nPort Src: "@);
    let t11 = t10 + src_ports;
    lemma_says_more(t10, src_ports);
    lemma_says(t9, "\nPort Src: "@, src_ports);
    let t12 = t11 + "\nPort Dst: "@;
    lemma_says_more(t11, "\nPort Dst: "@);
    let t13 = t12 + dst_ports;
    lemma_says_more(t12, dst_ports);
    lemma_says(t11, "\nPort Dst: "@, dst_ports);
    let t14 = t13 + "\nActions: "@;
    lemma_says_more(t13, "\nActions: "@);
    let t15 = t14 + joined(texts(acl.npb_actions@), ","@);
    lemma_says_more(t14, joined(texts(acl.npb_actions@), ","@));
    lemma_says(t13, "\nActions: "@, joined(texts(acl.npb_actions@), ","@));
    let t16 = t15 + "\n"@;
    lemma_says_more(t15, "\n"@);
    assert(rule_text(acl, groups, src_ports, dst_ports) =~= t16);
}

/// A rule is looked for by its number: the first with that number is described, its ports joined
/// and quoted, the source's first; without one the number is said to be invalid.
pub proof fn a_rule_is_found_by_its_number(acls: Seq<Acl>, groups: Seq<Group>, id: u32, i: int)
    requires
        -1 <= i < acls.len(),
        i >= 0 ==> acls[i].id == id,
        forall|j: int| 0 <= j < (if i >= 0 { i } else { acls.len() as int }) ==> (#[trigger] acls[j]).id != id,
    ensures
        i >= 0 ==> acl_of(acls, id) == Some(acls[i]) && analysis(acls, groups, id) == rule_text(
            acls[i],
            groups,
            quoted_of(joined(texts(acls[i].src_port_ranges@), ", "@)),
            quoted_of(joined(texts(acls[i].dst_port_ranges@), ", "@)),
        ),
        i < 0 ==> acl_of(acls, id) is None && analysis(acls, groups, id) == "Invalid acl id "@
            + decimal_of(id as nat) + "."@,
    decreases acls.len(),
{
    if acls.len() > 0 && acls[0].id != id {
        let rest = acls.drop_first();
        let k = if i >= 0 {
            i - 1
        } else {
            -1
        };
        assert forall|j: int| 0 <= j < (if k >= 0 { k } else { rest.len() as int }) implies (
        #[trigger] rest[j]).id != id by {
            assert(rest[j] == acls[j + 1]);
        }
        a_rule_is_found_by_its_number(rest, groups, id, k);
        if i >= 0 {
            assert(rest[k] == acls[i]);
        }
    }
}

/// A group is looked for by its number in 16 bits: the first with that number counts.
pub proof fn a_group_is_found_by_its_number(groups: Seq<Group>, id: u32, i: int)
    requires
        -1 <= i < groups.len(),
        i >= 0 ==> groups[i].id == id % 65536,
        forall|j: int| 0 <= j < (if i >= 0 { i } else { groups.len() as int }) ==> (
        #[trigger] groups[j]).id != id % 65536,
    ensures
        i >= 0 ==> group_of(groups, id) == Some(groups[i]),
        i < 0 ==> group_of(groups, id) is None,
    decreases groups.len(),
{
    if groups.len() > 0 && groups[0].id != id % 65536 {
        let rest = groups.drop_first();
        let k = if i >= 0 {
            i - 1
        } else {
            -1
        };
        assert forall|j: int| 0 <= j < (if k >= 0 { k } else { rest.len() as int }) implies (
        #[trigger] rest[j]).id != id % 65536 by {
            assert(rest[j] == groups[j + 1]);
        }
        a_group_is_found_by_its_number(rest, id, k);
        if i >= 0 {
            assert(rest[k] == groups[i]);
        }
    }
}

/// The groups of a rule are described in order; those that do not exist are passed over.
pub proof fn groups_are_described_in_order(
    groups: Seq<Group>,
    a: Seq<u32>,
    b: Seq<u32>,
    id: u32,
)
    ensures
        group_texts(groups, a + b) == group_texts(groups, a) + group_texts(groups, b),
        group_texts(groups, seq![id]) == (match group_of(groups, id) {
            Some(g) => seq!["EPC: "@ + signed_decimal_of(g.epc_id as int) + " IP: "@ + g.ips@],
            None => seq![],
        }),
    decreases b.len(),
{
    reveal_with_fuel(group_texts, 2);
    assert(seq![id].drop_last() =~= seq![]);
    assert(group_texts(groups, seq![id]) =~= (match group_of(groups, id) {
        Some(g) => seq![group_text(g)],
        None => seq![],
    }));
    if b.len() > 0 {
        groups_are_described_in_order(groups, a, b.drop_last(), id);
        assert((a + b).drop_last() =~= a + b.drop_last());
        assert((a + b).last() == b.last());
    } else {
        assert(a + b =~= a);
    }
    assert(group_texts(groups, a + b) =~= group_texts(groups, a) + group_texts(groups, b));
}

/// Interfaces are shown one by one and in order, each on its own line.
pub proof fn interfaces_are_shown_in_order(a: Seq<NetDevStat>, b: Seq<NetDevStat>, one: NetDevStat)
    ensures
        stat_lines(a + b) == stat_lines(a) + stat_lines(b),
        stat_lines(seq![one]) == one.shown() + "\n"@,
    decreases b.len(),
{
    reveal_with_fuel(stat_lines, 2);
    assert(seq![one].drop_last() =~= seq![]);
    assert(stat_lines(seq![one]) =~= one.shown() + "\n"@);
    if b.len() > 0 {
        interfaces_are_shown_in_order(a, b.drop_last(), one);
        assert((a + b).drop_last() =~= a + b.drop_last());
        assert((a + b).last() == b.last());
    } else {
        assert(a + b =~= a);
    }
    assert(stat_lines(a + b) =~= stat_lines(a) + stat_lines(b));
}

/// A message about the network shows its interfaces, or its error as one.
pub proof fn network_messages_show_what_they_hold(message: NetworkMessage)
    ensures
        message matches NetworkMessage::Context(stats) ==> message.shown() == stat_lines(stats@),
        message matches NetworkMessage::Error(e) ==> message.shown() == "Error: "@ + e@,
        message is Show ==> message.shown().len() == 0,
{
}

/// Without any time all shares are shown as nothing.
pub proof fn no_time_is_shown_as_no_shares(times: CpuTimes, percents: Seq<Seq<char>>)
    requires
        times.user == 0 && times.nice == 0 && times.system == 0 && times.idle == 0 && times.iowait
            == 0 && times.irq == 0 && times.softirq == 0 && times.steal == 0 && times.guest == 0
            && times.guest_nice == 0,
    ensures
        times.line(percents)
            == "user=0.00% nice=0.00% system=0.00% idle=0.00% iowait=0.00% irq=0.00% softirq=0.00% steal=0.00% guest=0.00% guest_nice=0.00%"@,
{
}

/// CPUs are shown one by one and in order, each with its number, counted from 0, on its own line.
pub proof fn cpus_are_shown_in_order(cpus: Seq<Seq<char>>, one: Seq<char>)
    ensures
        CpuState::cpu_lines(cpus.push(one)) == CpuState::cpu_lines(cpus) + "CPU "@ + padded_left(
            decimal_of(cpus.len()),
            5,
        ) + ":  "@ + one + "\n"@,
        CpuState::cpu_lines(Seq::<Seq<char>>::empty()) == Seq::<char>::empty(),
{
    assert(cpus.push(one).drop_last() =~= cpus);
}

/// The identifier of an agent is its two addresses and what it has of team and group.
pub proof fn an_agent_is_shown_with_its_addresses(id: AgentId)
    ensures
        id.team_id@.len() == 0 && id.group_id@.len() == 0 ==> id.shown() == id.ipmac.ip@ + "/"@
            + id.ipmac.mac@,
        id.team_id@.len() > 0 ==> says(id.shown(), "/team="@, id.team_id@),
        id.group_id@.len() > 0 ==> says(id.shown(), "/group="@, id.group_id@),
        says(id.shown(), id.ipmac.ip@ + "/"@, id.ipmac.mac@),
{
    let head = id.ipmac.ip@ + "/"@ + id.ipmac.mac@;
    let none = Seq::<char>::empty();
    lemma_says(none, id.ipmac.ip@ + "/"@, id.ipmac.mac@);
    assert(none + (id.ipmac.ip@ + "/"@) + id.ipmac.mac@ =~= head);
    lemma_says(head, "/team="@, id.team_id@);
    lemma_says_more(head, "/team="@);
    lemma_says_more(head + "/team="@, id.team_id@);
    let team = if id.team_id@.len() > 0 {
        head + "/team="@ + id.team_id@
    } else {
        head
    };
    lemma_says(team, "/group="@, id.group_id@);
    lemma_says_more(team, "/group="@);
    lemma_says_more(team + "/group="@, id.group_id@);
}

/// A row of the table of agents has its columns at fixed places, as far as they fit.
pub proof fn a_row_has_its_columns(
    id: Seq<char>,
    hostname: Seq<char>,
    ip: Seq<char>,
    port: Seq<char>,
)
    requires
        id.len() <= 14,
        hostname.len() <= 28,
        ip.len() <= 45,
    ensures
        row(id, hostname, ip, port).len() == 90 + port.len(),
        row(id, hostname, ip, port).subrange(0, id.len() as int) == id,
        row(id, hostname, ip, port).subrange(15, (15 + hostname.len()) as int) == hostname,
        row(id, hostname, ip, port).subrange(44, (44 + ip.len()) as int) == ip,
        row(id, hostname, ip, port).subrange(90, (90 + port.len()) as int) == port,
        rule().len() == 100,
        forall|i: int| 0 <= i < 100 ==> #[trigger] rule()[i] == '-',
{
    reveal_strlit(" ");
    let r = row(id, hostname, ip, port);
    let a = padded_right(id, 14);
    let b = padded_right(hostname, 28);
    let c = padded_right(ip, 45);
    assert(a.len() == 14 && b.len() == 28 && c.len() == 45);
    assert(r.subrange(0, id.len() as int) =~= id);
    assert(r.subrange(15, (15 + hostname.len()) as int) =~= hostname);
    assert(r.subrange(44, (44 + ip.len()) as int) =~= ip);
    assert(r.subrange(90, (90 + port.len()) as int) =~= port);
}

} // verus!
