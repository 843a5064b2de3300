//! Disk I/O statistics from /proc/diskstats.
use super::cpu::field_at;
use crate::text::{decimal, lines, split_whitespace};
use vstd::prelude::*;

verus! {

use super::cpu::field;
use crate::text::{decimal_of, lines_of, texts, words};

/// Disk I/O statistics of one device.
#[derive(Debug, Clone, PartialEq, Eq)]
pub struct DiskStat {
    pub major: u64,
    pub minor: u64,
    pub name: String,
    pub read_completed: u64,
    pub read_merged: u64,
    pub sectors_read: u64,
    pub read_time_ms: u64,
    pub write_completed: u64,
    pub write_merged: u64,
    pub sectors_written: u64,
    pub write_time_ms: u64,
    pub ios_in_progress: u64,
    pub io_time_ms: u64,
    pub weighted_io_time_ms: u64,
    /// From kernel 4.18 on.
    pub discard_completed: Option<u64>,
    pub discard_merged: Option<u64>,
    pub sectors_discarded: Option<u64>,
    pub discard_time_ms: Option<u64>,
    /// From kernel 5.5 on.
    pub flush_completed: Option<u64>,
    pub flush_time_ms: Option<u64>,
}

impl Default for DiskStat {
    fn default() -> (r: Self)
        ensures
            r.major == 0 && r.minor == 0 && r.name@.len() == 0,
            r.read_completed == 0 && r.read_merged == 0 && r.sectors_read == 0,
            r.read_time_ms == 0 && r.write_completed == 0 && r.write_merged == 0,
            r.sectors_written == 0 && r.write_time_ms == 0 && r.ios_in_progress == 0,
            r.io_time_ms == 0 && r.weighted_io_time_ms == 0,
            r.discard_completed is None && r.discard_merged is None,
            r.sectors_discarded is None && r.discard_time_ms is None,
            r.flush_completed is None && r.flush_time_ms is None,
    {
        DiskStat {
            major: 0,
            minor: 0,
            name: String::new(),
            read_completed: 0,
            read_merged: 0,
            sectors_read: 0,
            read_time_ms: 0,
            write_completed: 0,
            write_merged: 0,
            sectors_written: 0,
            write_time_ms: 0,
            ios_in_progress: 0,
            io_time_ms: 0,
            weighted_io_time_ms: 0,
            discard_completed: None,
            discard_merged: None,
            sectors_discarded: None,
            discard_time_ms: None,
            flush_completed: None,
            flush_time_ms: None,
        }
    }
}

/// The number in word `i` where the line has at least `least` words.
pub open spec fn late_field(ws: Seq<Seq<char>>, least: nat, i: int) -> Option<u64> {
    if ws.len() >= least {
        Some(field(ws, i))
    } else {
        None
    }
}

impl DiskStat {
    /// Whether these are the statistics on a line with the words `ws`.
    pub open spec fn is_read_from(&self, ws: Seq<Seq<char>>) -> bool {
        &&& self.major == field(ws, 0)
        &&& self.minor == field(ws, 1)
        &&& self.name@ == ws[2]
        &&& self.read_completed == field(ws, 3)
        &&& self.read_merged == field(ws, 4)
        &&& self.sectors_read == field(ws, 5)
        &&& self.read_time_ms == field(ws, 6)
        &&& self.write_completed == field(ws, 7)
        &&& self.write_merged == field(ws, 8)
        &&& self.sectors_written == field(ws, 9)
        &&& self.write_time_ms == field(ws, 10)
        &&& self.ios_in_progress == field(ws, 11)
        &&& self.io_time_ms == field(ws, 12)
        &&& self.weighted_io_time_ms == field(ws, 13)
        &&& self.discard_completed == late_field(ws, 18, 14)
        &&& self.discard_merged == late_field(ws, 18, 15)
        &&& self.sectors_discarded == late_field(ws, 18, 16)
        &&& self.discard_time_ms == late_field(ws, 18, 17)
        &&& self.flush_completed == late_field(ws, 20, 18)
        &&& self.flush_time_ms == late_field(ws, 20, 19)
    }

    pub open spec fn shown(&self) -> Seq<char> {
        self.name@ + ": reads="@ + decimal_of(self.read_completed as nat) + " writes="@
            + decimal_of(self.write_completed as nat) + " io_time="@ + decimal_of(
            self.io_time_ms as nat,
        ) + "ms read_bytes="@ + decimal_of((self.sectors_read * 512) as nat) + " write_bytes="@
            + decimal_of((self.sectors_written * 512) as nat)
    }

    /// Writes the statistics on one line.
    pub fn display(&self) -> (r: String)
        requires
            self.sectors_read * 512 <= u64::MAX,
            self.sectors_written * 512 <= u64::MAX,
        ensures
            r@ == self.shown(),
    {
        let mut r = self.name.as_str().to_owned();
        r.append(": reads=");
        r.append(decimal(self.read_completed).as_str());
        r.append(" writes=");
        r.append(decimal(self.write_completed).as_str());
        r.append(" io_time=");
        r.append(decimal(self.io_time_ms).as_str());
        r.append("ms read_bytes=");
        r.append(decimal(self.sectors_read * 512).as_str());
        r.append(" write_bytes=");
        r.append(decimal(self.sectors_written * 512).as_str());
        r
    }
}

/// The words of each line that has at least 14 of them.
pub open spec fn disk_rows(ls: Seq<Seq<char>>) -> Seq<Seq<Seq<char>>>
    decreases ls.len(),
{
    if ls.len() == 0 {
        seq![]
    } else if words(ls.last()).len() >= 14 {
        disk_rows(ls.drop_last()).push(words(ls.last()))
    } else {
        disk_rows(ls.drop_last())
    }
}

fn disk_stat(parts: &Vec<String>) -> (r: DiskStat)
    requires
        parts.len() >= 14,
    ensures
        r.is_read_from(texts(parts@)),
{
    let ws = parts.as_slice();
    assert(texts(parts@)[2] == parts@[2]@);
    let mut stat = DiskStat {
        major: field_at(ws, 0),
        minor: field_at(ws, 1),
        name: parts[2].as_str().to_owned(),
        read_completed: field_at(ws, 3),
        read_merged: field_at(ws, 4),
        sectors_read: field_at(ws, 5),
        read_time_ms: field_at(ws, 6),
        write_completed: field_at(ws, 7),
        write_merged: field_at(ws, 8),
        sectors_written: field_at(ws, 9),
        write_time_ms: field_at(ws, 10),
        ios_in_progress: field_at(ws, 11),
        io_time_ms: field_at(ws, 12),
        weighted_io_time_ms: field_at(ws, 13),
        discard_completed: None,
        discard_merged: None,
        sectors_discarded: None,
        discard_time_ms: None,
        flush_completed: None,
        flush_time_ms: None,
    };
    if parts.len() >= 18 {
        stat.discard_completed = Some(field_at(ws, 14));
        stat.discard_merged = Some(field_at(ws, 15));
        stat.sectors_discarded = Some(field_at(ws, 16));
        stat.discard_time_ms = Some(field_at(ws, 17));
    }
    if parts.len() >= 20 {
        stat.flush_completed = Some(field_at(ws, 18));
        stat.flush_time_ms = Some(field_at(ws, 19));
    }
    stat
}

/// Whether `stats` are the statistics on the lines `ls`, one for each line with at least 14
/// words.
pub open spec fn are_disk_stats(stats: Seq<DiskStat>, ls: Seq<Seq<char>>) -> bool {
    &&& stats.len() == disk_rows(ls).len()
    &&& forall|i: int| 0 <= i < stats.len() ==> (#[trigger] stats[i]).is_read_from(disk_rows(ls)[i])
}

/// Reads what /proc/diskstats holds.
pub fn parse_diskstats(content: &str) -> (r: Result<Vec<DiskStat>, std::io::Error>)
    ensures
        r matches Ok(stats) && are_disk_stats(stats@, lines_of(content@)),
{
    let lines = lines(content);
    let ghost ls = lines_of(content@);
    let mut stats: Vec<DiskStat> = Vec::new();
    let mut i: usize = 0;
    while i < lines.len()
        invariant
            i <= lines.len(),
            texts(lines@) == ls,
            are_disk_stats(stats@, ls.take(i as int)),
        decreases lines.len() - i,
    {
        let parts = split_whitespace(lines[i].as_str());
        proof {
            assert(ls[i as int] == lines@[i as int]@);
            assert(ls.take(i + 1).drop_last() =~= ls.take(i as int));
            assert(ls.take(i + 1).last() == ls[i as int]);
        }
        if parts.len() >= 14 {
            stats.push(disk_stat(&parts));
        }
        i = i + 1;
    }
    assert(ls.take(i as int) =~= ls);
    Ok(stats)
}

} // verus!
