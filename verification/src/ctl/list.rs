//! The table of agents that have made themselves known.
use crate::debug::beacon::Beacon;
use crate::text::{decimal, pad_right};
use vstd::prelude::*;

verus! {

use crate::text::{decimal_of, padded_right};

/// A line of 100 dashes.
pub open spec fn rule() -> Seq<char> {
    Seq::new(100, |i: int| '-')
}

fn dashes() -> (r: String)
    ensures
        r@ == rule(),
{
    let mut r = String::new();
    let mut i: usize = 0;
    while i < 100
        invariant
            i <= 100,
            r@ == Seq::new(i as nat, |j: int| '-'),
        decreases 100 - i,
    {
        r.push('-');
        i = i + 1;
        assert(r@ =~= Seq::new(i as nat, |j: int| '-'));
    }
    r
}

/// A row of the table.
pub open spec fn row(id: Seq<char>, hostname: Seq<char>, ip: Seq<char>, port: Seq<char>) -> Seq<
    char,
> {
    padded_right(id, 14) + " "@ + padded_right(hostname, 28) + " "@ + padded_right(ip, 45) + " "@
        + port
}

fn make_row(id: &str, hostname: &str, ip: &str, port: &str) -> (r: String)
    ensures
        r@ == row(id@, hostname@, ip@, port@),
{
    let mut r = pad_right(id, 14);
    r.append(" ");
    r.append(pad_right(hostname, 28).as_str());
    r.append(" ");
    r.append(pad_right(ip, 45).as_str());
    r.append(" ");
    r.append(port);
    r
}

/// The agents that were listed once another makes itself known.
pub open spec fn noted(seen: Seq<u16>, id: u16) -> Seq<u16> {
    if seen.contains(id) {
        seen
    } else {
        seen.push(id)
    }
}

/// The agents that were listed so far, by number.
pub struct AgentTable {
    seen: Vec<u16>,
}

impl AgentTable {
    pub closed spec fn seen(&self) -> Seq<u16> {
        self.seen@
    }

    pub fn new() -> (r: Self)
        ensures
            r.seen() == Seq::<u16>::empty(),
    {
        AgentTable { seen: Vec::new() }
    }

    /// The lines above the rows.
    pub fn header(port: u16) -> (r: Vec<String>)
        ensures
            r@.len() == 4,
            r@[0]@ == "zerotrace-agent-ctl listening udp port "@ + decimal_of(port as nat)
                + " to find zerotrace-agent\n"@,
            r@[1]@ == rule(),
            r@[2]@ == row("VTAP ID"@, "HOSTNAME"@, "IP"@, "PORT"@),
            r@[3]@ == rule(),
    {
        let mut first = "zerotrace-agent-ctl listening udp port ".to_owned();
        first.append(decimal(port as u64).as_str());
        first.append(" to find zerotrace-agent\n");
        let mut r: Vec<String> = Vec::new();
        r.push(first);
        r.push(dashes());
        r.push(make_row("VTAP ID", "HOSTNAME", "IP", "PORT"));
        r.push(dashes());
        r
    }

    /// The row for a beacon from an address, unless its agent was listed before.
    pub fn list(&mut self, beacon: &Beacon, ip: &str, port: u16) -> (r: Option<String>)
        ensures
            final(self).seen() == noted(old(self).seen(), beacon.agent_id),
            if old(self).seen().contains(beacon.agent_id) {
                r is None
            } else {
                r matches Some(line) && line@ == row(
                    decimal_of(beacon.agent_id as nat),
                    beacon.hostname@,
                    ip@,
                    decimal_of(port as nat),
                )
            },
    {
        let mut i: usize = 0;
        while i < self.seen.len()
            invariant
                i <= self.seen.len(),
                self.seen@ == old(self).seen@,
                forall|j: int| 0 <= j < i ==> self.seen@[j] != beacon.agent_id,
            decreases self.seen.len() - i,
        {
            if self.seen[i] == beacon.agent_id {
                return None;
            }
            i = i + 1;
        }
        let line = make_row(
            decimal(beacon.agent_id as u64).as_str(),
            beacon.hostname.as_str(),
            ip,
            decimal(port as u64).as_str(),
        );
        self.seen.push(beacon.agent_id);
        Some(line)
    }
}

/// The agents that were listed after some made themselves known, in that order.
pub open spec fn noted_all(ids: Seq<u16>) -> Seq<u16>
    decreases ids.len(),
{
    if ids.len() == 0 {
        seq![]
    } else {
        noted(noted_all(ids.drop_last()), ids.last())
    }
}

/// Each agent is listed, and once only, however often it makes itself known.
pub proof fn agents_are_listed_once(ids: Seq<u16>)
    ensures
        noted_all(ids).no_duplicates(),
        forall|id: u16| noted_all(ids).contains(id) <==> ids.contains(id),
    decreases ids.len(),
{
    if ids.len() > 0 {
        let init = ids.drop_last();
        agents_are_listed_once(init);
        let before = noted_all(init);
        assert(init.push(ids.last()) =~= ids);
        assert forall|id: u16| noted_all(ids).contains(id) <==> ids.contains(id) by {
            if before.contains(id) {
                let k = choose|k: int| 0 <= k < before.len() && before[k] == id;
                assert(noted_all(ids)[k] == id);
            }
            if init.contains(id) {
                let k = choose|k: int| 0 <= k < init.len() && init[k] == id;
                assert(ids[k] == id);
            }
            assert(ids[ids.len() - 1] == ids.last());
            if !before.contains(ids.last()) {
                assert(noted_all(ids)[before.len() as int] == ids.last());
            }
        }
    }
}

} // verus!
