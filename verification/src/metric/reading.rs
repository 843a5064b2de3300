//! What is read from the files under /proc: every figure from its own place.
use super::cpu::CpuTimes;
use super::disk::DiskStat;
use super::network::NetDevStat;
use vstd::prelude::*;

verus! {

use super::cpu::{counter, counter_on, cpu_times, field, times_of, total_times};
use super::disk::{are_disk_stats, disk_rows};
use super::memory::{entry_on, mem_info, value_of};
use super::network::{are_net_stats, net_row, net_rows};
use crate::text::{cut_at, decimal_is_read_back, decimal_of, number_of, trimmed, words};

/// Whether word `i` writes down a number.
pub open spec fn writes(ws: Seq<Seq<char>>, i: int, n: u64) -> bool {
    0 <= i < ws.len() && ws[i] == decimal_of(n as nat)
}

proof fn lemma_field(ws: Seq<Seq<char>>, i: int, n: u64)
    requires
        writes(ws, i, n),
    ensures
        field(ws, i) == n,
{
    decimal_is_read_back(n as nat, u64::MAX as nat);
}

/// A missing word and one that is no number count as 0, and a number counts as itself.
pub proof fn a_field_is_its_number_or_nothing(ws: Seq<Seq<char>>, i: int, n: u64)
    ensures
        writes(ws, i, n) ==> field(ws, i) == n,
        !(0 <= i < ws.len()) ==> field(ws, i) == 0,
        0 <= i < ws.len() && number_of(ws[i], u64::MAX as nat) is None ==> field(ws, i) == 0,
{
    if writes(ws, i, n) {
        lemma_field(ws, i, n);
    }
}

/// The ten times of a CPU are read in the order in which the kernel writes them.
pub proof fn cpu_times_are_read_in_order(t: CpuTimes, ws: Seq<Seq<char>>)
    requires
        writes(ws, 0, t.user),
        writes(ws, 1, t.nice),
        writes(ws, 2, t.system),
        writes(ws, 3, t.idle),
        writes(ws, 4, t.iowait),
        writes(ws, 5, t.irq),
        writes(ws, 6, t.softirq),
        writes(ws, 7, t.steal),
        writes(ws, 8, t.guest),
        writes(ws, 9, t.guest_nice),
    ensures
        times_of(ws) == t,
{
    lemma_field(ws, 0, t.user);
    lemma_field(ws, 1, t.nice);
    lemma_field(ws, 2, t.system);
    lemma_field(ws, 3, t.idle);
    lemma_field(ws, 4, t.iowait);
    lemma_field(ws, 5, t.irq);
    lemma_field(ws, 6, t.softirq);
    lemma_field(ws, 7, t.steal);
    lemma_field(ws, 8, t.guest);
    lemma_field(ws, 9, t.guest_nice);
}

/// Whether a line gives the times of all CPUs together.
pub open spec fn speaks_of_all_cpus(line: Seq<char>) -> bool {
    words(line).len() >= 11 && words(line)[0] == seq!['c', 'p', 'u']
}

/// Whether a line gives the times of one CPU.
pub open spec fn speaks_of_one_cpu(line: Seq<char>) -> bool {
    let ws = words(line);
    ws.len() >= 11 && ws[0].len() > 3 && ws[0][0] == 'c' && ws[0][1] == 'p' && ws[0][2] == 'u'
}

/// The times of all CPUs together are those on the last line that gives them; 0 without one.
pub proof fn the_last_total_counts(ls: Seq<Seq<char>>, i: int)
    requires
        -1 <= i < ls.len(),
        i >= 0 ==> speaks_of_all_cpus(ls[i]),
        forall|j: int| i < j < ls.len() ==> !speaks_of_all_cpus(#[trigger] ls[j]),
    ensures
        i >= 0 ==> total_times(ls) == times_of(words(ls[i]).skip(1)),
        i < 0 ==> total_times(ls) == (CpuTimes {
            user: 0,
            nice: 0,
            system: 0,
            idle: 0,
            iowait: 0,
            irq: 0,
            softirq: 0,
            steal: 0,
            guest: 0,
            guest_nice: 0,
        }),
    decreases ls.len(),
{
    reveal_strlit("cpu");
    assert("cpu"@ =~= seq!['c', 'p', 'u']);
    if ls.len() > 0 && i < ls.len() - 1 {
        let init = ls.drop_last();
        assert(ls[ls.len() - 1] == ls.last());
        assert forall|j: int| i < j < init.len() implies !speaks_of_all_cpus(#[trigger] init[j]) by {
            assert(init[j] == ls[j]);
        }
        the_last_total_counts(init, i);
    }
}

/// The single CPUs are read line by line, in order; other lines do not count.
pub proof fn each_cpu_is_read_from_its_line(a: Seq<Seq<char>>, b: Seq<Seq<char>>, line: Seq<char>)
    ensures
        cpu_times(a + b) == cpu_times(a) + cpu_times(b),
        cpu_times(seq![line]) == (if speaks_of_one_cpu(line) {
            seq![times_of(words(line).skip(1))]
        } else {
            seq![]
        }),
    decreases b.len(),
{
    reveal_strlit("cpu");
    let cpu = "cpu"@;
    assert(cpu =~= seq!['c', 'p', 'u']);
    reveal_with_fuel(cpu_times, 2);
    assert(seq![line].drop_last() =~= seq![]);
    let ws = words(line);
    if ws.len() > 0 {
        let w = ws[0];
        if w.len() >= 3 {
            let p = w.subrange(0, 3);
            assert(p[0] == w[0] && p[1] == w[1] && p[2] == w[2]);
            assert(p =~= cpu <==> w[0] == 'c' && w[1] == 'p' && w[2] == 'u');
            if w.len() == 3 {
                assert(p =~= w);
            }
        }
    }
    assert(cpu_times(seq![line]) =~= (if speaks_of_one_cpu(line) {
        seq![times_of(ws.skip(1))]
    } else {
        seq![]
    }));
    if b.len() > 0 {
        each_cpu_is_read_from_its_line(a, b.drop_last(), line);
        assert((a + b).drop_last() =~= a + b.drop_last());
        assert((a + b).last() == b.last());
        assert(cpu_times(a + b) =~= cpu_times(a) + cpu_times(b));
    } else {
        assert(a + b =~= a);
        assert(cpu_times(a + b) =~= cpu_times(a) + cpu_times(b));
    }
}

/// A counter is read from a line that begins with its key and has its number next; the last such
/// line counts, and without one the counter is 0.
pub proof fn the_last_line_of_a_counter_counts(
    ls: Seq<Seq<char>>,
    key: Seq<char>,
    i: int,
    n: u64,
)
    requires
        -1 <= i < ls.len(),
        i >= 0 ==> words(ls[i]).len() >= 2 && words(ls[i])[0] == key && words(ls[i])[1]
            == decimal_of(n as nat),
        forall|j: int|
            i < j < ls.len() ==> (words(#[trigger] ls[j]).len() == 0 || words(ls[j])[0] != key),
    ensures
        i >= 0 ==> counter(ls, key) == n,
        i < 0 ==> counter(ls, key) == 0,
    decreases ls.len(),
{
    decimal_is_read_back(n as nat, u64::MAX as nat);
    if ls.len() > 0 {
        assert(ls[ls.len() - 1] == ls.last());
        if i < ls.len() - 1 {
            let init = ls.drop_last();
            assert forall|j: int| i < j < init.len() implies (words(#[trigger] init[j]).len() == 0
                || words(init[j])[0] != key) by {
                assert(init[j] == ls[j]);
            }
            assert(counter_on(words(ls.last()), key) is None);
            the_last_line_of_a_counter_counts(init, key, i, n);
        } else {
            assert(counter_on(words(ls.last()), key) == Some(n));
        }
    }
}

/// Whether a line has an entry for a key: the key, a colon and a number.
pub open spec fn gives(line: Seq<char>, key: Seq<char>, n: u64) -> bool {
    cut_at(trimmed(line), ':') matches Some((k, rest)) && trimmed(k) == key && words(
        trimmed(rest),
    ).len() > 0 && words(trimmed(rest))[0] == decimal_of(n as nat)
}

/// Whether the text before the first colon of a line is a key.
pub open spec fn is_keyed(line: Seq<char>, key: Seq<char>) -> bool {
    cut_at(trimmed(line), ':') matches Some((k, _)) && trimmed(k) == key
}

/// A memory figure is read from the last line with its key; without one it is 0.
pub proof fn the_last_line_of_a_key_counts(ls: Seq<Seq<char>>, key: Seq<char>, i: int, n: u64)
    requires
        -1 <= i < ls.len(),
        i >= 0 ==> gives(ls[i], key, n),
        forall|j: int| i < j < ls.len() ==> !is_keyed(#[trigger] ls[j], key),
    ensures
        i >= 0 ==> value_of(ls, key) == n,
        i < 0 ==> value_of(ls, key) == 0,
    decreases ls.len(),
{
    decimal_is_read_back(n as nat, u64::MAX as nat);
    if ls.len() > 0 {
        assert(ls[ls.len() - 1] == ls.last());
        if i < ls.len() - 1 {
            let init = ls.drop_last();
            assert forall|j: int| i < j < init.len() implies !is_keyed(#[trigger] init[j], key) by {
                assert(init[j] == ls[j]);
            }
            the_last_line_of_a_key_counts(init, key, i, n);
        } else {
            assert(entry_on(ls.last()) == Some((key, n)));
        }
    }
}

/// Each memory figure is read under its own key.
pub proof fn each_memory_figure_has_its_key(ls: Seq<Seq<char>>)
    ensures
        mem_info(ls).mem_total == value_of(ls, "MemTotal"@),
        mem_info(ls).mem_free == value_of(ls, "MemFree"@),
        mem_info(ls).mem_available == value_of(ls, "MemAvailable"@),
        mem_info(ls).buffers == value_of(ls, "Buffers"@),
        mem_info(ls).cached == value_of(ls, "Cached"@),
        mem_info(ls).swap_cached == value_of(ls, "SwapCached"@),
        mem_info(ls).active == value_of(ls, "Active"@),
        mem_info(ls).inactive == value_of(ls, "Inactive"@),
        mem_info(ls).active_anon == value_of(ls, "Active(anon)"@),
        mem_info(ls).inactive_anon == value_of(ls, "Inactive(anon)"@),
        mem_info(ls).active_file == value_of(ls, "Active(file)"@),
        mem_info(ls).inactive_file == value_of(ls, "Inactive(file)"@),
        mem_info(ls).swap_total == value_of(ls, "SwapTotal"@),
        mem_info(ls).swap_free == value_of(ls, "SwapFree"@),
        mem_info(ls).dirty == value_of(ls, "Dirty"@),
        mem_info(ls).writeback == value_of(ls, "Writeback"@),
        mem_info(ls).anon_pages == value_of(ls, "AnonPages"@),
        mem_info(ls).mapped == value_of(ls, "Mapped"@),
        mem_info(ls).shmem == value_of(ls, "Shmem"@),
        mem_info(ls).kreclaimable == value_of(ls, "KReclaimable"@),
        mem_info(ls).slab == value_of(ls, "Slab"@),
        mem_info(ls).sreclaimable == value_of(ls, "SReclaimable"@),
        mem_info(ls).sunreclaim == value_of(ls, "SUnreclaim"@),
        mem_info(ls).kernel_stack == value_of(ls, "KernelStack"@),
        mem_info(ls).page_tables == value_of(ls, "PageTables"@),
        mem_info(ls).commit_limit == value_of(ls, "CommitLimit"@),
        mem_info(ls).committed_as == value_of(ls, "Committed_AS"@),
        mem_info(ls).vmalloc_total == value_of(ls, "VmallocTotal"@),
        mem_info(ls).vmalloc_used == value_of(ls, "VmallocUsed"@),
        mem_info(ls).vmalloc_chunk == value_of(ls, "VmallocChunk"@),
        mem_info(ls).hugepages_total == value_of(ls, "HugePages_Total"@),
        mem_info(ls).hugepages_free == value_of(ls, "HugePages_Free"@),
        mem_info(ls).hugepagesize == value_of(ls, "Hugepagesize"@),
{
}

/// The figures of a device are read in the order in which the kernel writes them; the name stands
/// third. Figures that older kernels do not write are missing where they are not written.
pub proof fn disk_figures_are_read_in_order(
    stat: DiskStat,
    ws: Seq<Seq<char>>,
    figures: Seq<u64>,
)
    requires
        stat.is_read_from(ws),
        ws.len() >= 14,
        figures.len() == ws.len(),
        forall|i: int| 0 <= i < ws.len() && i != 2 ==> #[trigger] writes(ws, i, figures[i]),
    ensures
        stat.name@ == ws[2],
        stat.major == figures[0],
        stat.minor == figures[1],
        stat.read_completed == figures[3],
        stat.read_merged == figures[4],
        stat.sectors_read == figures[5],
        stat.read_time_ms == figures[6],
        stat.write_completed == figures[7],
        stat.write_merged == figures[8],
        stat.sectors_written == figures[9],
        stat.write_time_ms == figures[10],
        stat.ios_in_progress == figures[11],
        stat.io_time_ms == figures[12],
        stat.weighted_io_time_ms == figures[13],
        ws.len() >= 18 ==> stat.discard_completed == Some(figures[14]),
        ws.len() < 18 ==> stat.discard_completed is None,
        ws.len() >= 18 ==> stat.discard_merged == Some(figures[15]),
        ws.len() < 18 ==> stat.discard_merged is None,
        ws.len() >= 18 ==> stat.sectors_discarded == Some(figures[16]),
        ws.len() < 18 ==> stat.sectors_discarded is None,
        ws.len() >= 18 ==> stat.discard_time_ms == Some(figures[17]),
        ws.len() < 18 ==> stat.discard_time_ms is None,
        ws.len() >= 20 ==> stat.flush_completed == Some(figures[18]),
        ws.len() < 20 ==> stat.flush_completed is None,
        ws.len() >= 20 ==> stat.flush_time_ms == Some(figures[19]),
        ws.len() < 20 ==> stat.flush_time_ms is None,
{
    assert(writes(ws, 0, figures[0]));
    lemma_field(ws, 0, figures[0]);
    assert(writes(ws, 1, figures[1]));
    lemma_field(ws, 1, figures[1]);
    assert(writes(ws, 3, figures[3]));
    lemma_field(ws, 3, figures[3]);
    assert(writes(ws, 4, figures[4]));
    lemma_field(ws, 4, figures[4]);
    assert(writes(ws, 5, figures[5]));
    lemma_field(ws, 5, figures[5]);
    assert(writes(ws, 6, figures[6]));
    lemma_field(ws, 6, figures[6]);
    assert(writes(ws, 7, figures[7]));
    lemma_field(ws, 7, figures[7]);
    assert(writes(ws, 8, figures[8]));
    lemma_field(ws, 8, figures[8]);
    assert(writes(ws, 9, figures[9]));
    lemma_field(ws, 9, figures[9]);
    assert(writes(ws, 10, figures[10]));
    lemma_field(ws, 10, figures[10]);
    assert(writes(ws, 11, figures[11]));
    lemma_field(ws, 11, figures[11]);
    assert(writes(ws, 12, figures[12]));
    lemma_field(ws, 12, figures[12]);
    assert(writes(ws, 13, figures[13]));
    lemma_field(ws, 13, figures[13]);
    if ws.len() >= 18 {
        assert(writes(ws, 14, figures[14]));
        lemma_field(ws, 14, figures[14]);
        assert(writes(ws, 15, figures[15]));
        lemma_field(ws, 15, figures[15]);
        assert(writes(ws, 16, figures[16]));
        lemma_field(ws, 16, figures[16]);
        assert(writes(ws, 17, figures[17]));
        lemma_field(ws, 17, figures[17]);
    }
    if ws.len() >= 20 {
        assert(writes(ws, 18, figures[18]));
        lemma_field(ws, 18, figures[18]);
        assert(writes(ws, 19, figures[19]));
        lemma_field(ws, 19, figures[19]);
    }
}

/// Devices are read line by line, in order; lines with fewer than 14 words do not count.
pub proof fn each_disk_is_read_from_its_line(a: Seq<Seq<char>>, b: Seq<Seq<char>>, line: Seq<char>)
    ensures
        disk_rows(a + b) == disk_rows(a) + disk_rows(b),
        disk_rows(seq![line]) == (if words(line).len() >= 14 {
            seq![words(line)]
        } else {
            seq![]
        }),
    decreases b.len(),
{
    reveal_with_fuel(disk_rows, 2);
    assert(seq![line].drop_last() =~= seq![]);
    assert(disk_rows(seq![line]) =~= (if words(line).len() >= 14 {
        seq![words(line)]
    } else {
        seq![]
    }));
    if b.len() > 0 {
        each_disk_is_read_from_its_line(a, b.drop_last(), line);
        assert((a + b).drop_last() =~= a + b.drop_last());
        assert((a + b).last() == b.last());
        assert(disk_rows(a + b) =~= disk_rows(a) + disk_rows(b));
    } else {
        assert(a + b =~= a);
        assert(disk_rows(a + b) =~= disk_rows(a) + disk_rows(b));
    }
}

/// The statistics read are those of the rows, one for each and in order.
pub proof fn no_disk_is_lost(stats: Seq<DiskStat>, ls: Seq<Seq<char>>, i: int)
    requires
        are_disk_stats(stats, ls),
        0 <= i < disk_rows(ls).len(),
    ensures
        stats.len() == disk_rows(ls).len(),
        stats[i].is_read_from(disk_rows(ls)[i]),
{
}

/// The figures of an interface are read in the order in which the kernel writes them.
pub proof fn network_figures_are_read_in_order(
    stat: NetDevStat,
    name: Seq<char>,
    ws: Seq<Seq<char>>,
    figures: Seq<u64>,
)
    requires
        stat.is_read_from(name, ws),
        ws.len() >= 16,
        figures.len() == ws.len(),
        forall|i: int| 0 <= i < ws.len() ==> #[trigger] writes(ws, i, figures[i]),
    ensures
        stat.name@ == name,
        stat.rx_bytes == figures[0],
        stat.rx_packets == figures[1],
        stat.rx_errors == figures[2],
        stat.rx_dropped == figures[3],
        stat.rx_fifo == figures[4],
        stat.rx_frame == figures[5],
        stat.rx_compressed == figures[6],
        stat.rx_multicast == figures[7],
        stat.tx_bytes == figures[8],
        stat.tx_packets == figures[9],
        stat.tx_errors == figures[10],
        stat.tx_dropped == figures[11],
        stat.tx_fifo == figures[12],
        stat.tx_colls == figures[13],
        stat.tx_carrier == figures[14],
        stat.tx_compressed == figures[15],
{
    assert(writes(ws, 0, figures[0]));
    lemma_field(ws, 0, figures[0]);
    assert(writes(ws, 1, figures[1]));
    lemma_field(ws, 1, figures[1]);
    assert(writes(ws, 2, figures[2]));
    lemma_field(ws, 2, figures[2]);
    assert(writes(ws, 3, figures[3]));
    lemma_field(ws, 3, figures[3]);
    assert(writes(ws, 4, figures[4]));
    lemma_field(ws, 4, figures[4]);
    assert(writes(ws, 5, figures[5]));
    lemma_field(ws, 5, figures[5]);
    assert(writes(ws, 6, figures[6]));
    lemma_field(ws, 6, figures[6]);
    assert(writes(ws, 7, figures[7]));
    lemma_field(ws, 7, figures[7]);
    assert(writes(ws, 8, figures[8]));
    lemma_field(ws, 8, figures[8]);
    assert(writes(ws, 9, figures[9]));
    lemma_field(ws, 9, figures[9]);
    assert(writes(ws, 10, figures[10]));
    lemma_field(ws, 10, figures[10]);
    assert(writes(ws, 11, figures[11]));
    lemma_field(ws, 11, figures[11]);
    assert(writes(ws, 12, figures[12]));
    lemma_field(ws, 12, figures[12]);
    assert(writes(ws, 13, figures[13]));
    lemma_field(ws, 13, figures[13]);
    assert(writes(ws, 14, figures[14]));
    lemma_field(ws, 14, figures[14]);
    assert(writes(ws, 15, figures[15]));
    lemma_field(ws, 15, figures[15]);
}

/// Interfaces are read line by line, in order: the name stands before the first colon, and at
/// least 16 figures behind it. Any other line does not count.
pub proof fn each_interface_is_read_from_its_line(
    a: Seq<Seq<char>>,
    b: Seq<Seq<char>>,
    line: Seq<char>,
)
    ensures
        net_rows(a + b) == net_rows(a) + net_rows(b),
        net_rows(seq![line]) == (match net_row(line) {
            Some(row) => seq![row],
            None => seq![],
        }),
        net_row(line) == (match cut_at(trimmed(line), ':') {
            Some((name, rest)) if words(rest).len() >= 16 => Some((trimmed(name), words(rest))),
            _ => None,
        }),
    decreases b.len(),
{
    reveal_with_fuel(net_rows, 2);
    assert(seq![line].drop_last() =~= seq![]);
    assert(net_rows(seq![line]) =~= (match net_row(line) {
        Some(row) => seq![row],
        None => seq![],
    }));
    if b.len() > 0 {
        each_interface_is_read_from_its_line(a, b.drop_last(), line);
        assert((a + b).drop_last() =~= a + b.drop_last());
        assert((a + b).last() == b.last());
        assert(net_rows(a + b) =~= net_rows(a) + net_rows(b));
    } else {
        assert(a + b =~= a);
        assert(net_rows(a + b) =~= net_rows(a) + net_rows(b));
    }
}

/// The statistics read are those of the rows, one for each and in order.
pub proof fn no_interface_is_lost(stats: Seq<NetDevStat>, ls: Seq<Seq<char>>, i: int)
    requires
        are_net_stats(stats, ls),
        0 <= i < net_rows(ls).len(),
    ensures
        stats.len() == net_rows(ls).len(),
        stats[i].is_read_from(net_rows(ls)[i].0, net_rows(ls)[i].1),
{
}

} // verus!
