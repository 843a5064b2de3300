//! What can be asked about the host's metrics.
use crate::metric::disk::DiskStat;
use crate::metric::network::NetDevStat;
use vstd::prelude::*;

verus! {

/// Messages about the CPUs.
#[derive(PartialEq, Eq, Debug)]
pub enum CpuMessage {
    Show,
    Context(String),
    Error(String),
}

/// Messages about the memory.
#[derive(PartialEq, Eq, Debug)]
pub enum MemoryMessage {
    Show,
    Context(String),
    Error(String),
}

/// Messages about the disks.
#[derive(PartialEq, Eq, Debug)]
pub enum DiskMessage {
    Show,
    Context(Vec<DiskStat>),
    Error(String),
}

/// Messages about the network.
#[derive(PartialEq, Eq, Debug)]
pub enum NetworkMessage {
    Show,
    Context(Vec<NetDevStat>),
    Error(String),
}

/// The statistics of some interfaces, a line each.
pub open spec fn stat_lines(stats: Seq<NetDevStat>) -> Seq<char>
    decreases stats.len(),
{
    if stats.len() == 0 {
        seq![]
    } else {
        stat_lines(stats.drop_last()) + stats.last().shown() + "\n"@
    }
}

impl NetworkMessage {
    pub open spec fn shown(&self) -> Seq<char> {
        match self {
            NetworkMessage::Context(stats) => stat_lines(stats@),
            NetworkMessage::Error(e) => "Error: "@ + e@,
            NetworkMessage::Show => seq![],
        }
    }

    /// Writes the message.
    pub fn display(&self) -> (r: String)
        ensures
            r@ == self.shown(),
    {
        match self {
            NetworkMessage::Context(stats) => {
                let mut r = String::new();
                let mut i: usize = 0;
                assert(stats@.take(0) =~= seq![]);
                while i < stats.len()
                    invariant
                        i <= stats.len(),
                        r@ == stat_lines(stats@.take(i as int)),
                    decreases stats.len() - i,
                {
                    assert(stats@.take(i + 1).drop_last() =~= stats@.take(i as int));
                    r.append(stats[i].display().as_str());
                    r.append("\n");
                    i = i + 1;
                }
                assert(stats@.take(i as int) =~= stats@);
                r
            },
            NetworkMessage::Error(e) => {
                let mut r = "Error: ".to_owned();
                r.append(e.as_str());
                r
            },
            NetworkMessage::Show => String::new(),
        }
    }
}

/// Answers questions about the network.
pub struct NetworkDebugger;

impl NetworkDebugger {
    pub fn new() -> (r: Self)
        ensures
            r == NetworkDebugger,
    {
        NetworkDebugger
    }

    /// The statistics, or what kept them from being read.
    pub fn show(&self, collected: Result<Vec<NetDevStat>, String>) -> (r: NetworkMessage)
        ensures
            r == (match collected {
                Ok(stats) => NetworkMessage::Context(stats),
                Err(e) => NetworkMessage::Error(e),
            }),
    {
        match collected {
            Ok(stats) => NetworkMessage::Context(stats),
            Err(e) => NetworkMessage::Error(e),
        }
    }
}

} // verus!
