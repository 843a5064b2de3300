//! Memory figures from /proc/meminfo.
use super::ratio::Ratio;
use crate::text::{decimal, lines, parse_u64, same, split_once, split_whitespace, trim};
use vstd::prelude::*;

verus! {

use super::cpu::minus;
use crate::text::{cut_at, decimal_of, lines_of, number_of, texts, trimmed, words};

/// Memory information from /proc/meminfo (values in kB).
#[derive(Debug, Clone, Copy, PartialEq, Eq, Structural)]
pub struct MemInfo {
    pub mem_total: u64,
    pub mem_free: u64,
    pub mem_available: u64,
    pub buffers: u64,
    pub cached: u64,
    pub swap_cached: u64,
    pub active: u64,
    pub inactive: u64,
    pub active_anon: u64,
    pub inactive_anon: u64,
    pub active_file: u64,
    pub inactive_file: u64,
    pub swap_total: u64,
    pub swap_free: u64,
    pub dirty: u64,
    pub writeback: u64,
    pub anon_pages: u64,
    pub mapped: u64,
    pub shmem: u64,
    pub kreclaimable: u64,
    pub slab: u64,
    pub sreclaimable: u64,
    pub sunreclaim: u64,
    pub kernel_stack: u64,
    pub page_tables: u64,
    pub commit_limit: u64,
    pub committed_as: u64,
    pub vmalloc_total: u64,
    pub vmalloc_used: u64,
    pub vmalloc_chunk: u64,
    pub hugepages_total: u64,
    pub hugepages_free: u64,
    pub hugepagesize: u64,
}

impl Default for MemInfo {
    fn default() -> (r: Self)
        ensures
            r == mem_info(seq![]),
    {
        MemInfo {
            mem_total: 0,
            mem_free: 0,
            mem_available: 0,
            buffers: 0,
            cached: 0,
            swap_cached: 0,
            active: 0,
            inactive: 0,
            active_anon: 0,
            inactive_anon: 0,
            active_file: 0,
            inactive_file: 0,
            swap_total: 0,
            swap_free: 0,
            dirty: 0,
            writeback: 0,
            anon_pages: 0,
            mapped: 0,
            shmem: 0,
            kreclaimable: 0,
            slab: 0,
            sreclaimable: 0,
            sunreclaim: 0,
            kernel_stack: 0,
            page_tables: 0,
            commit_limit: 0,
            committed_as: 0,
            vmalloc_total: 0,
            vmalloc_used: 0,
            vmalloc_chunk: 0,
            hugepages_total: 0,
            hugepages_free: 0,
            hugepagesize: 0,
        }
    }
}

/// The first number in a text: 0 where it has no word, nothing where the first word is no
/// number.
pub open spec fn leading_number(s: Seq<char>) -> Option<u64> {
    let ws = words(s);
    if ws.len() == 0 {
        Some(0)
    } else {
        match number_of(ws[0], u64::MAX as nat) {
            Some(n) => Some(n as u64),
            None => None,
        }
    }
}

/// The key and the value on a line of the form `Key:     1234 kB`.
pub open spec fn entry_on(line: Seq<char>) -> Option<(Seq<char>, u64)> {
    match cut_at(trimmed(line), ':') {
        Some((key, rest)) => match leading_number(trimmed(rest)) {
            Some(v) => Some((trimmed(key), v)),
            None => None,
        },
        None => None,
    }
}

/// The value on the last line that has one for `key`; 0 if there is none.
pub open spec fn value_of(ls: Seq<Seq<char>>, key: Seq<char>) -> u64
    decreases ls.len(),
{
    if ls.len() == 0 {
        0
    } else {
        match entry_on(ls.last()) {
            Some((k, v)) if k == key => v,
            _ => value_of(ls.drop_last(), key),
        }
    }
}

/// The figures that the lines of /proc/meminfo give.
pub open spec fn mem_info(ls: Seq<Seq<char>>) -> MemInfo {
        MemInfo {
            mem_total: value_of(ls, "MemTotal"@),
            mem_free: value_of(ls, "MemFree"@),
            mem_available: value_of(ls, "MemAvailable"@),
            buffers: value_of(ls, "Buffers"@),
            cached: value_of(ls, "Cached"@),
            swap_cached: value_of(ls, "SwapCached"@),
            active: value_of(ls, "Active"@),
            inactive: value_of(ls, "Inactive"@),
            active_anon: value_of(ls, "Active(anon)"@),
            inactive_anon: value_of(ls, "Inactive(anon)"@),
            active_file: value_of(ls, "Active(file)"@),
            inactive_file: value_of(ls, "Inactive(file)"@),
            swap_total: value_of(ls, "SwapTotal"@),
            swap_free: value_of(ls, "SwapFree"@),
            dirty: value_of(ls, "Dirty"@),
            writeback: value_of(ls, "Writeback"@),
            anon_pages: value_of(ls, "AnonPages"@),
            mapped: value_of(ls, "Mapped"@),
            shmem: value_of(ls, "Shmem"@),
            kreclaimable: value_of(ls, "KReclaimable"@),
            slab: value_of(ls, "Slab"@),
            sreclaimable: value_of(ls, "SReclaimable"@),
            sunreclaim: value_of(ls, "SUnreclaim"@),
            kernel_stack: value_of(ls, "KernelStack"@),
            page_tables: value_of(ls, "PageTables"@),
            commit_limit: value_of(ls, "CommitLimit"@),
            committed_as: value_of(ls, "Committed_AS"@),
            vmalloc_total: value_of(ls, "VmallocTotal"@),
            vmalloc_used: value_of(ls, "VmallocUsed"@),
            vmalloc_chunk: value_of(ls, "VmallocChunk"@),
            hugepages_total: value_of(ls, "HugePages_Total"@),
            hugepages_free: value_of(ls, "HugePages_Free"@),
            hugepagesize: value_of(ls, "Hugepagesize"@),
        }
}

fn read_entry(line: &str) -> (r: Option<(String, u64)>)
    ensures
        match r {
            Some(e) => entry_on(line@) == Some((e.0@, e.1)),
            None => entry_on(line@) is None,
        },
{
    let line = trim(line);
    match split_once(line.as_str(), ':') {
        Some((key, rest)) => {
            let rest = trim(rest.as_str());
            let ws = split_whitespace(rest.as_str());
            let key = trim(key.as_str());
            if ws.len() == 0 {
                return Some((key, 0));
            }
            assert(texts(ws@)[0] == ws@[0]@);
            match parse_u64(ws[0].as_str()) {
                Some(v) => Some((key, v)),
                None => None,
            }
        },
        None => None,
    }
}

/// The value of the last entry for `key`, or 0.
pub open spec fn last_entry(es: Seq<(String, u64)>, key: Seq<char>) -> u64
    decreases es.len(),
{
    if es.len() == 0 {
        0
    } else if es.last().0@ == key {
        es.last().1
    } else {
        last_entry(es.drop_last(), key)
    }
}

fn last_value(entries: &Vec<(String, u64)>, key: &str) -> (r: u64)
    ensures
        r == last_entry(entries@, key@),
{
    let mut i: usize = entries.len();
    assert(entries@.take(i as int) =~= entries@);
    while i > 0
        invariant
            i <= entries.len(),
            last_entry(entries@, key@) == last_entry(entries@.take(i as int), key@),
        decreases i,
    {
        i = i - 1;
        assert(entries@.take(i + 1).drop_last() =~= entries@.take(i as int));
        if same(entries[i].0.as_str(), key) {
            return entries[i].1;
        }
    }
    0
}

/// The entries on the lines that have one, in order.
spec fn entries_agree(es: Seq<(String, u64)>, ls: Seq<Seq<char>>) -> bool {
    forall|key: Seq<char>| last_entry(es, key) == #[trigger] value_of(ls, key)
}

impl MemInfo {
    /// Reads what /proc/meminfo holds.
    pub fn parse(content: &str) -> (r: Result<MemInfo, std::io::Error>)
        ensures
            r matches Ok(info) && info == mem_info(lines_of(content@)),
    {
        let lines = lines(content);
        let ghost ls = lines_of(content@);
        let mut entries: Vec<(String, u64)> = Vec::new();
        let mut i: usize = 0;
        while i < lines.len()
            invariant
                i <= lines.len(),
                texts(lines@) == ls,
                entries_agree(entries@, ls.take(i as int)),
            decreases lines.len() - i,
        {
            let ghost before = entries@;
            let entry = read_entry(lines[i].as_str());
            proof {
                assert(ls[i as int] == lines@[i as int]@);
                assert(ls.take(i + 1).drop_last() =~= ls.take(i as int));
                assert(ls.take(i + 1).last() == ls[i as int]);
            }
            if let Some(e) = entry {
                entries.push(e);
                assert(entries@.drop_last() =~= before);
            }
            proof {
                let longer = ls.take(i + 1);
                assert forall|key: Seq<char>| last_entry(entries@, key) == #[trigger] value_of(
                    longer,
                    key,
                ) by {
                    assert(last_entry(before, key) == value_of(longer.drop_last(), key));
                }
            }
            i = i + 1;
        }
        assert(ls.take(i as int) =~= ls);
        Ok(
            MemInfo {
                mem_total: last_value(&entries, "MemTotal"),
                mem_free: last_value(&entries, "MemFree"),
                mem_available: last_value(&entries, "MemAvailable"),
                buffers: last_value(&entries, "Buffers"),
                cached: last_value(&entries, "Cached"),
                swap_cached: last_value(&entries, "SwapCached"),
                active: last_value(&entries, "Active"),
                inactive: last_value(&entries, "Inactive"),
                active_anon: last_value(&entries, "Active(anon)"),
                inactive_anon: last_value(&entries, "Inactive(anon)"),
                active_file: last_value(&entries, "Active(file)"),
                inactive_file: last_value(&entries, "Inactive(file)"),
                swap_total: last_value(&entries, "SwapTotal"),
                swap_free: last_value(&entries, "SwapFree"),
                dirty: last_value(&entries, "Dirty"),
                writeback: last_value(&entries, "Writeback"),
                anon_pages: last_value(&entries, "AnonPages"),
                mapped: last_value(&entries, "Mapped"),
                shmem: last_value(&entries, "Shmem"),
                kreclaimable: last_value(&entries, "KReclaimable"),
                slab: last_value(&entries, "Slab"),
                sreclaimable: last_value(&entries, "SReclaimable"),
                sunreclaim: last_value(&entries, "SUnreclaim"),
                kernel_stack: last_value(&entries, "KernelStack"),
                page_tables: last_value(&entries, "PageTables"),
                commit_limit: last_value(&entries, "CommitLimit"),
                committed_as: last_value(&entries, "Committed_AS"),
                vmalloc_total: last_value(&entries, "VmallocTotal"),
                vmalloc_used: last_value(&entries, "VmallocUsed"),
                vmalloc_chunk: last_value(&entries, "VmallocChunk"),
                hugepages_total: last_value(&entries, "HugePages_Total"),
                hugepages_free: last_value(&entries, "HugePages_Free"),
                hugepagesize: last_value(&entries, "Hugepagesize"),
            },
        )
    }

    /// The memory that is not available.
    pub fn used_kb(&self) -> (r: u64)
        ensures
            r == minus(self.mem_total, self.mem_available),
    {
        self.mem_total.saturating_sub(self.mem_available)
    }

    /// The used share of the memory.
    pub fn usage_pct(&self) -> (r: Ratio)
        ensures
            r == (Ratio {
                part: minus(self.mem_total, self.mem_available),
                whole: self.mem_total,
            }),
            r.part <= r.whole,
    {
        Ratio { part: self.used_kb(), whole: self.mem_total }
    }

    /// The swap space that is not free.
    pub fn swap_used_kb(&self) -> (r: u64)
        ensures
            r == minus(self.swap_total, self.swap_free),
    {
        self.swap_total.saturating_sub(self.swap_free)
    }

    /// The used share of the swap space.
    pub fn swap_usage_pct(&self) -> (r: Ratio)
        ensures
            r == (Ratio {
                part: minus(self.swap_total, self.swap_free),
                whole: self.swap_total,
            }),
            r.part <= r.whole,
    {
        Ratio { part: self.swap_used_kb(), whole: self.swap_total }
    }

    /// The text of the figures, `usage` and `swap_usage` being the two used shares in percent.
    pub open spec fn shown(&self, usage: Seq<char>, swap_usage: Seq<char>) -> Seq<char> {
        "MemTotal:       "@ + decimal_of(self.mem_total as nat)
            + " kB\nMemFree:        "@ + decimal_of(self.mem_free as nat)
            + " kB\nMemAvailable:   "@ + decimal_of(self.mem_available as nat)
            + " kB\nMemUsed:        "@ + decimal_of(minus(self.mem_total, self.mem_available) as nat)
            + " kB ("@ + usage
            + "%)\nBuffers:        "@ + decimal_of(self.buffers as nat)
            + " kB\nCached:         "@ + decimal_of(self.cached as nat)
            + " kB\nSwapCached:     "@ + decimal_of(self.swap_cached as nat)
            + " kB\nActive:         "@ + decimal_of(self.active as nat)
            + " kB\nInactive:       "@ + decimal_of(self.inactive as nat)
            + " kB\nSwapTotal:      "@ + decimal_of(self.swap_total as nat)
            + " kB\nSwapFree:       "@ + decimal_of(self.swap_free as nat)
            + " kB\nSwapUsed:       "@ + decimal_of(minus(self.swap_total, self.swap_free) as nat)
            + " kB ("@ + swap_usage
            + "%)\nDirty:          "@ + decimal_of(self.dirty as nat)
            + " kB\nSlab:           "@ + decimal_of(self.slab as nat)
            + " kB\nKernelStack:    "@ + decimal_of(self.kernel_stack as nat)
            + " kB\nPageTables:     "@ + decimal_of(self.page_tables as nat)
            + " kB"@
    }

    /// Writes the figures; `usage` and `swap_usage` are the two used shares in percent with one
    /// decimal.
    pub fn display(&self, usage: &str, swap_usage: &str) -> (r: String)
        ensures
            r@ == self.shown(usage@, swap_usage@),
    {
        let mut r = "MemTotal:       ".to_owned();
        r.append(decimal(self.mem_total).as_str());
        r.append(" kB\nMemFree:        ");
        r.append(decimal(self.mem_free).as_str());
        r.append(" kB\nMemAvailable:   ");
        r.append(decimal(self.mem_available).as_str());
        r.append(" kB\nMemUsed:        ");
        r.append(decimal(self.used_kb()).as_str());
        r.append(" kB (");
        r.append(usage);
        r.append("%)\nBuffers:        ");
        r.append(decimal(self.buffers).as_str());
        r.append(" kB\nCached:         ");
        r.append(decimal(self.cached).as_str());
        r.append(" kB\nSwapCached:     ");
        r.append(decimal(self.swap_cached).as_str());
        r.append(" kB\nActive:         ");
        r.append(decimal(self.active).as_str());
        r.append(" kB\nInactive:       ");
        r.append(decimal(self.inactive).as_str());
        r.append(" kB\nSwapTotal:      ");
        r.append(decimal(self.swap_total).as_str());
        r.append(" kB\nSwapFree:       ");
        r.append(decimal(self.swap_free).as_str());
        r.append(" kB\nSwapUsed:       ");
        r.append(decimal(self.swap_used_kb()).as_str());
        r.append(" kB (");
        r.append(swap_usage);
        r.append("%)\nDirty:          ");
        r.append(decimal(self.dirty).as_str());
        r.append(" kB\nSlab:           ");
        r.append(decimal(self.slab).as_str());
        r.append(" kB\nKernelStack:    ");
        r.append(decimal(self.kernel_stack).as_str());
        r.append(" kB\nPageTables:     ");
        r.append(decimal(self.page_tables).as_str());
        r.append(" kB");
        r
    }
}

} // verus!
