//! Network interface statistics from /proc/net/dev.
use super::cpu::field_at;
use crate::text::{decimal, lines, split_once, split_whitespace, trim};
use vstd::prelude::*;

verus! {

use super::cpu::field;
use crate::text::{cut_at, decimal_of, lines_of, texts, trimmed, words};

/// Statistics of one network interface.
#[derive(Debug, Clone, PartialEq, Eq)]
pub struct NetDevStat {
    pub name: String,
    // Receive
    pub rx_bytes: u64,
    pub rx_packets: u64,
    pub rx_errors: u64,
    pub rx_dropped: u64,
    pub rx_fifo: u64,
    pub rx_frame: u64,
    pub rx_compressed: u64,
    pub rx_multicast: u64,
    // Transmit
    pub tx_bytes: u64,
    pub tx_packets: u64,
    pub tx_errors: u64,
    pub tx_dropped: u64,
    pub tx_fifo: u64,
    pub tx_colls: u64,
    pub tx_carrier: u64,
    pub tx_compressed: u64,
}

impl Default for NetDevStat {
    fn default() -> (r: Self)
        ensures
            r.is_read_from(seq![], seq![]),
    {
        NetDevStat {
            name: String::new(),
            rx_bytes: 0,
            rx_packets: 0,
            rx_errors: 0,
            rx_dropped: 0,
            rx_fifo: 0,
            rx_frame: 0,
            rx_compressed: 0,
            rx_multicast: 0,
            tx_bytes: 0,
            tx_packets: 0,
            tx_errors: 0,
            tx_dropped: 0,
            tx_fifo: 0,
            tx_colls: 0,
            tx_carrier: 0,
            tx_compressed: 0,
        }
    }
}

impl NetDevStat {
    /// Whether these are the statistics of the interface `name` with the figures `ws`.
    pub open spec fn is_read_from(&self, name: Seq<char>, ws: Seq<Seq<char>>) -> bool {
        &&& self.name@ == name
        &&& self.rx_bytes == field(ws, 0)
        &&& self.rx_packets == field(ws, 1)
        &&& self.rx_errors == field(ws, 2)
        &&& self.rx_dropped == field(ws, 3)
        &&& self.rx_fifo == field(ws, 4)
        &&& self.rx_frame == field(ws, 5)
        &&& self.rx_compressed == field(ws, 6)
        &&& self.rx_multicast == field(ws, 7)
        &&& self.tx_bytes == field(ws, 8)
        &&& self.tx_packets == field(ws, 9)
        &&& self.tx_errors == field(ws, 10)
        &&& self.tx_dropped == field(ws, 11)
        &&& self.tx_fifo == field(ws, 12)
        &&& self.tx_colls == field(ws, 13)
        &&& self.tx_carrier == field(ws, 14)
        &&& self.tx_compressed == field(ws, 15)
    }

    pub open spec fn shown(&self) -> Seq<char> {
        self.name@ + ": rx_bytes="@ + decimal_of(self.rx_bytes as nat) + " rx_packets="@
            + decimal_of(self.rx_packets as nat) + " rx_errors="@ + decimal_of(
            self.rx_errors as nat,
        ) + " rx_dropped="@ + decimal_of(self.rx_dropped as nat) + " tx_bytes="@ + decimal_of(
            self.tx_bytes as nat,
        ) + " tx_packets="@ + decimal_of(self.tx_packets as nat) + " tx_errors="@ + decimal_of(
            self.tx_errors as nat,
        ) + " tx_dropped="@ + decimal_of(self.tx_dropped as nat)
    }

    /// Writes the statistics on one line.
    pub fn display(&self) -> (r: String)
        ensures
            r@ == self.shown(),
    {
        let mut r = self.name.as_str().to_owned();
        r.append(": rx_bytes=");
        r.append(decimal(self.rx_bytes).as_str());
        r.append(" rx_packets=");
        r.append(decimal(self.rx_packets).as_str());
        r.append(" rx_errors=");
        r.append(decimal(self.rx_errors).as_str());
        r.append(" rx_dropped=");
        r.append(decimal(self.rx_dropped).as_str());
        r.append(" tx_bytes=");
        r.append(decimal(self.tx_bytes).as_str());
        r.append(" tx_packets=");
        r.append(decimal(self.tx_packets).as_str());
        r.append(" tx_errors=");
        r.append(decimal(self.tx_errors).as_str());
        r.append(" tx_dropped=");
        r.append(decimal(self.tx_dropped).as_str());
        r
    }
}

/// The interface and the figures on a line; nothing on one without a colon, as the header lines
/// are, and on one with fewer than 16 figures.
pub open spec fn net_row(line: Seq<char>) -> Option<(Seq<char>, Seq<Seq<char>>)> {
    match cut_at(trimmed(line), ':') {
        Some((name, rest)) if words(rest).len() >= 16 => Some((trimmed(name), words(rest))),
        _ => None,
    }
}

/// The rows of the lines that hold one.
pub open spec fn net_rows(ls: Seq<Seq<char>>) -> Seq<(Seq<char>, Seq<Seq<char>>)>
    decreases ls.len(),
{
    if ls.len() == 0 {
        seq![]
    } else {
        match net_row(ls.last()) {
            Some(row) => net_rows(ls.drop_last()).push(row),
            None => net_rows(ls.drop_last()),
        }
    }
}

fn net_stat(line: &str) -> (r: Option<NetDevStat>)
    ensures
        match net_row(line@) {
            Some((name, ws)) => r matches Some(stat) && stat.is_read_from(name, ws),
            None => r is None,
        },
{
    let line = trim(line);
    match split_once(line.as_str(), ':') {
        Some((name, rest)) => {
            let parts = split_whitespace(rest.as_str());
            if parts.len() < 16 {
                return None;
            }
            let ws = parts.as_slice();
            Some(
                NetDevStat {
                    name: trim(name.as_str()),
                    rx_bytes: field_at(ws, 0),
                    rx_packets: field_at(ws, 1),
                    rx_errors: field_at(ws, 2),
                    rx_dropped: field_at(ws, 3),
                    rx_fifo: field_at(ws, 4),
                    rx_frame: field_at(ws, 5),
                    rx_compressed: field_at(ws, 6),
                    rx_multicast: field_at(ws, 7),
                    tx_bytes: field_at(ws, 8),
                    tx_packets: field_at(ws, 9),
                    tx_errors: field_at(ws, 10),
                    tx_dropped: field_at(ws, 11),
                    tx_fifo: field_at(ws, 12),
                    tx_colls: field_at(ws, 13),
                    tx_carrier: field_at(ws, 14),
                    tx_compressed: field_at(ws, 15),
                },
            )
        },
        None => None,
    }
}

/// Whether `stats` are the statistics on the lines `ls`, one for each line that holds a row.
pub open spec fn are_net_stats(stats: Seq<NetDevStat>, ls: Seq<Seq<char>>) -> bool {
    &&& stats.len() == net_rows(ls).len()
    &&& forall|i: int|
        0 <= i < stats.len() ==> {
            let row = net_rows(ls)[i];
            (#[trigger] stats[i]).is_read_from(row.0, row.1)
        }
}

/// Reads what /proc/net/dev holds.
pub fn parse_netdev(content: &str) -> (r: Result<Vec<NetDevStat>, std::io::Error>)
    ensures
        r matches Ok(stats) && are_net_stats(stats@, lines_of(content@)),
{
    let lines = lines(content);
    let ghost ls = lines_of(content@);
    let mut stats: Vec<NetDevStat> = Vec::new();
    let mut i: usize = 0;
    while i < lines.len()
        invariant
            i <= lines.len(),
            texts(lines@) == ls,
            are_net_stats(stats@, ls.take(i as int)),
        decreases lines.len() - i,
    {
        proof {
            assert(ls[i as int] == lines@[i as int]@);
            assert(ls.take(i + 1).drop_last() =~= ls.take(i as int));
            assert(ls.take(i + 1).last() == ls[i as int]);
        }
        if let Some(stat) = net_stat(lines[i].as_str()) {
            stats.push(stat);
        }
        i = i + 1;
    }
    assert(ls.take(i as int) =~= ls);
    Ok(stats)
}

} // verus!
