//! CPU times from /proc/stat.
use crate::text::{decimal, lines, pad_left, parse_u64, same, split_whitespace, starts_with};
use std::ops::Sub;
use vstd::prelude::*;
use vstd::slice::slice_subrange;

verus! {

use crate::text::{decimal_of, has_prefix, lines_of, number_of, padded_left, texts, words};

/// The number in word `i`; 0 where there is no such word or it is no number.
pub open spec fn field(ws: Seq<Seq<char>>, i: int) -> u64 {
    if 0 <= i < ws.len() && number_of(ws[i], u64::MAX as nat) is Some {
        number_of(ws[i], u64::MAX as nat)->0 as u64
    } else {
        0
    }
}

/// Reads the number in word `i`, or 0.
pub fn field_at(ws: &[String], i: usize) -> (r: u64)
    ensures
        r == field(texts(ws@), i as int),
{
    if i < ws.len() {
        assert(texts(ws@)[i as int] == ws@[i as int]@);
        match parse_u64(ws[i].as_str()) {
            Some(v) => v,
            None => 0,
        }
    } else {
        0
    }
}

/// Time spent by a CPU in each of its states, in jiffies.
#[derive(Debug, Clone, Copy, PartialEq, Eq, Structural)]
pub struct CpuTimes {
    pub user: u64,
    pub nice: u64,
    pub system: u64,
    pub idle: u64,
    pub iowait: u64,
    pub irq: u64,
    pub softirq: u64,
    pub steal: u64,
    pub guest: u64,
    pub guest_nice: u64,
}

/// `a - b`, or 0 where `b` is larger.
pub open spec fn minus(a: u64, b: u64) -> u64 {
    if a >= b {
        (a - b) as u64
    } else {
        0
    }
}

impl Default for CpuTimes {
    fn default() -> (r: Self)
        ensures
            r == CpuTimes::zero(),
    {
        CpuTimes {
            user: 0,
            nice: 0,
            system: 0,
            idle: 0,
            iowait: 0,
            irq: 0,
            softirq: 0,
            steal: 0,
            guest: 0,
            guest_nice: 0,
        }
    }
}

impl CpuTimes {
    pub open spec fn zero() -> CpuTimes {
        CpuTimes {
            user: 0,
            nice: 0,
            system: 0,
            idle: 0,
            iowait: 0,
            irq: 0,
            softirq: 0,
            steal: 0,
            guest: 0,
            guest_nice: 0,
        }
    }

    /// The sum of all ten times.
    pub open spec fn sum(&self) -> int {
        self.user + self.nice + self.system + self.idle + self.iowait + self.irq + self.softirq
            + self.steal + self.guest + self.guest_nice
    }

    /// Field by field difference that stops at 0.
    pub open spec fn since(self, rhs: CpuTimes) -> CpuTimes {
        CpuTimes {
            user: minus(self.user, rhs.user),
            nice: minus(self.nice, rhs.nice),
            system: minus(self.system, rhs.system),
            idle: minus(self.idle, rhs.idle),
            iowait: minus(self.iowait, rhs.iowait),
            irq: minus(self.irq, rhs.irq),
            softirq: minus(self.softirq, rhs.softirq),
            steal: minus(self.steal, rhs.steal),
            guest: minus(self.guest, rhs.guest),
            guest_nice: minus(self.guest_nice, rhs.guest_nice),
        }
    }

    /// The sum of all ten times, if it fits.
    pub fn checked_total(&self) -> (r: Option<u64>)
        ensures
            r == (if self.sum() <= u64::MAX {
                Some(self.sum() as u64)
            } else {
                None
            }),
    {
        let sum: u128 = self.user as u128 + self.nice as u128 + self.system as u128
            + self.idle as u128 + self.iowait as u128 + self.irq as u128 + self.softirq as u128
            + self.steal as u128 + self.guest as u128 + self.guest_nice as u128;
        if sum <= u64::MAX as u128 {
            Some(sum as u64)
        } else {
            None
        }
    }

    /// The sum of all ten times.
    pub fn total(&self) -> (r: u64)
        requires
            self.sum() <= u64::MAX,
        ensures
            r == self.sum(),
    {
        self.user + self.nice + self.system + self.idle + self.iowait + self.irq + self.softirq
            + self.steal + self.guest + self.guest_nice
    }

    /// The time that was neither idle nor spent waiting for I/O.
    pub fn active(&self) -> (r: u64)
        requires
            self.sum() <= u64::MAX,
        ensures
            r == self.sum() - self.idle - self.iowait,
    {
        self.total() - self.idle - self.iowait
    }

    /// The line that shows each state's share, `percents` being the ten shares in percent in
    /// field order, with two decimals.
    pub open spec fn line(&self, percents: Seq<Seq<char>>) -> Seq<char> {
        if self.sum() == 0 {
            "user=0.00% nice=0.00% system=0.00% idle=0.00% iowait=0.00% irq=0.00% softirq=0.00% steal=0.00% guest=0.00% guest_nice=0.00%"@
        } else {
            "user="@ + percents[0] + "% nice="@ + percents[1] + "% system="@ + percents[2]
                + "% idle="@ + percents[3] + "% iowait="@ + percents[4] + "% irq="@ + percents[5]
                + "% softirq="@ + percents[6] + "% steal="@ + percents[7] + "% guest="@
                + percents[8] + "% guest_nice="@ + percents[9] + "%"@
        }
    }

    /// Writes the shares of the ten states, each given in percent with two decimals.
    pub fn display(&self, percents: &Vec<String>) -> (r: String)
        requires
            self.sum() <= u64::MAX,
            percents.len() == 10,
        ensures
            r@ == self.line(texts(percents@)),
    {
        if self.total() == 0 {
            return "user=0.00% nice=0.00% system=0.00% idle=0.00% iowait=0.00% irq=0.00% softirq=0.00% steal=0.00% guest=0.00% guest_nice=0.00%".to_owned();
        }
        let mut r = "user=".to_owned();
        r.append(percents[0].as_str());
        r.append("% nice=");
        r.append(percents[1].as_str());
        r.append("% system=");
        r.append(percents[2].as_str());
        r.append("% idle=");
        r.append(percents[3].as_str());
        r.append("% iowait=");
        r.append(percents[4].as_str());
        r.append("% irq=");
        r.append(percents[5].as_str());
        r.append("% softirq=");
        r.append(percents[6].as_str());
        r.append("% steal=");
        r.append(percents[7].as_str());
        r.append("% guest=");
        r.append(percents[8].as_str());
        r.append("% guest_nice=");
        r.append(percents[9].as_str());
        r.append("%");
        r
    }
}

impl vstd::std_specs::ops::SubSpecImpl for CpuTimes {
    open spec fn obeys_sub_spec() -> bool {
        true
    }

    open spec fn sub_req(self, rhs: CpuTimes) -> bool {
        true
    }

    open spec fn sub_spec(self, rhs: CpuTimes) -> CpuTimes {
        self.since(rhs)
    }
}

impl Sub for CpuTimes {
    type Output = CpuTimes;

    fn sub(self, rhs: CpuTimes) -> (r: CpuTimes) {
        CpuTimes {
            user: self.user.saturating_sub(rhs.user),
            nice: self.nice.saturating_sub(rhs.nice),
            system: self.system.saturating_sub(rhs.system),
            idle: self.idle.saturating_sub(rhs.idle),
            iowait: self.iowait.saturating_sub(rhs.iowait),
            irq: self.irq.saturating_sub(rhs.irq),
            softirq: self.softirq.saturating_sub(rhs.softirq),
            steal: self.steal.saturating_sub(rhs.steal),
            guest: self.guest.saturating_sub(rhs.guest),
            guest_nice: self.guest_nice.saturating_sub(rhs.guest_nice),
        }
    }
}

/// A snapshot of /proc/stat.
#[derive(Debug, Clone)]
pub struct CpuState {
    pub total: CpuTimes,
    pub cpus: Vec<CpuTimes>,
    pub context_switches: u64,
    pub boot_time: u64,
    pub processes: u64,
    pub procs_running: u64,
    pub procs_blocked: u64,
}

/// The ten times that a list of words holds.
pub open spec fn times_of(ws: Seq<Seq<char>>) -> CpuTimes {
    CpuTimes {
        user: field(ws, 0),
        nice: field(ws, 1),
        system: field(ws, 2),
        idle: field(ws, 3),
        iowait: field(ws, 4),
        irq: field(ws, 5),
        softirq: field(ws, 6),
        steal: field(ws, 7),
        guest: field(ws, 8),
        guest_nice: field(ws, 9),
    }
}

pub fn parse_cpu_times(parts: &[String]) -> (r: CpuTimes)
    ensures
        r == times_of(texts(parts@)),
{
    CpuTimes {
        user: field_at(parts, 0),
        nice: field_at(parts, 1),
        system: field_at(parts, 2),
        idle: field_at(parts, 3),
        iowait: field_at(parts, 4),
        irq: field_at(parts, 5),
        softirq: field_at(parts, 6),
        steal: field_at(parts, 7),
        guest: field_at(parts, 8),
        guest_nice: field_at(parts, 9),
    }
}

/// Whether a line gives the times of all CPUs together.
pub open spec fn is_total_line(ws: Seq<Seq<char>>) -> bool {
    ws.len() >= 11 && ws[0] == "cpu"@
}

/// Whether a line gives the times of one CPU.
pub open spec fn is_cpu_line(ws: Seq<Seq<char>>) -> bool {
    ws.len() >= 11 && ws[0] != "cpu"@ && has_prefix(ws[0], "cpu"@)
}

/// The times on the last line that gives them for all CPUs.
pub open spec fn total_times(ls: Seq<Seq<char>>) -> CpuTimes
    decreases ls.len(),
{
    if ls.len() == 0 {
        CpuTimes::zero()
    } else {
        let ws = words(ls.last());
        if is_total_line(ws) {
            times_of(ws.skip(1))
        } else {
            total_times(ls.drop_last())
        }
    }
}

/// The times on each line that gives them for one CPU, in order.
pub open spec fn cpu_times(ls: Seq<Seq<char>>) -> Seq<CpuTimes>
    decreases ls.len(),
{
    if ls.len() == 0 {
        seq![]
    } else {
        let ws = words(ls.last());
        if is_cpu_line(ws) {
            cpu_times(ls.drop_last()).push(times_of(ws.skip(1)))
        } else {
            cpu_times(ls.drop_last())
        }
    }
}

/// What a line says of the counter `key`: the number behind the key, 0 where nothing stands
/// there, and nothing where it is no number.
pub open spec fn counter_on(ws: Seq<Seq<char>>, key: Seq<char>) -> Option<u64> {
    if ws.len() == 0 || ws[0] != key {
        None
    } else if ws.len() == 1 {
        Some(0)
    } else {
        match number_of(ws[1], u64::MAX as nat) {
            Some(n) => Some(n as u64),
            None => None,
        }
    }
}

/// What the last line that says something of the counter `key` says; 0 if there is none.
pub open spec fn counter(ls: Seq<Seq<char>>, key: Seq<char>) -> u64
    decreases ls.len(),
{
    if ls.len() == 0 {
        0
    } else {
        match counter_on(words(ls.last()), key) {
            Some(v) => v,
            None => counter(ls.drop_last(), key),
        }
    }
}

fn read_counter(ws: &Vec<String>, key: &str, old_value: u64) -> (r: u64)
    requires
        ws.len() > 0,
    ensures
        r == (match counter_on(texts(ws@), key@) {
            Some(v) => v,
            None => old_value,
        }),
{
    assert(texts(ws@)[0] == ws@[0]@);
    if !same(ws[0].as_str(), key) {
        return old_value;
    }
    if ws.len() == 1 {
        return 0;
    }
    assert(texts(ws@)[1] == ws@[1]@);
    match parse_u64(ws[1].as_str()) {
        Some(v) => v,
        None => old_value,
    }
}

impl CpuState {
    /// Reads what /proc/stat holds.
    pub fn parse(content: &str) -> (r: Result<CpuState, std::io::Error>)
        ensures
            r matches Ok(state) && {
                let ls = lines_of(content@);
                &&& state.total == total_times(ls)
                &&& state.cpus@ == cpu_times(ls)
                &&& state.context_switches == counter(ls, "ctxt"@)
                &&& state.boot_time == counter(ls, "btime"@)
                &&& state.processes == counter(ls, "processes"@)
                &&& state.procs_running == counter(ls, "procs_running"@)
                &&& state.procs_blocked == counter(ls, "procs_blocked"@)
            },
    {
        proof {
            reveal_strlit("cpu");
            reveal_strlit("ctxt");
            reveal_strlit("btime");
            reveal_strlit("processes");
            reveal_strlit("procs_running");
            reveal_strlit("procs_blocked");
        }
        let mut total = CpuTimes::default();
        let mut cpus: Vec<CpuTimes> = Vec::new();
        let mut context_switches: u64 = 0;
        let mut boot_time: u64 = 0;
        let mut processes: u64 = 0;
        let mut procs_running: u64 = 0;
        let mut procs_blocked: u64 = 0;
        let lines = lines(content);
        let ghost ls = lines_of(content@);
        let mut i: usize = 0;
        while i < lines.len()
            invariant
                i <= lines.len(),
                texts(lines@) == ls,
                total == total_times(ls.take(i as int)),
                cpus@ == cpu_times(ls.take(i as int)),
                context_switches == counter(ls.take(i as int), "ctxt"@),
                boot_time == counter(ls.take(i as int), "btime"@),
                processes == counter(ls.take(i as int), "processes"@),
                procs_running == counter(ls.take(i as int), "procs_running"@),
                procs_blocked == counter(ls.take(i as int), "procs_blocked"@),
                "cpu"@ == seq!['c', 'p', 'u'],
                "ctxt"@.len() > 1 && "ctxt"@[1] == 't',
                "btime"@.len() > 1 && "btime"@[1] == 't',
                "processes"@.len() > 1 && "processes"@[1] == 'r',
                "procs_running"@.len() > 1 && "procs_running"@[1] == 'r',
                "procs_blocked"@.len() > 1 && "procs_blocked"@[1] == 'r',
            decreases lines.len() - i,
        {
            let parts = split_whitespace(lines[i].as_str());
            let ghost ws = texts(parts@);
            proof {
                let longer = ls.take(i + 1);
                assert(longer.drop_last() =~= ls.take(i as int));
                assert(longer.last() == ls[i as int]);
                assert(ls[i as int] == lines@[i as int]@);
                assert(ws == words(ls[i as int]));
                if ws.len() > 0 {
                    assert(ws[0] == parts@[0]@);
                    if has_prefix(ws[0], "cpu"@) {
                        assert(ws[0].subrange(0, 3)[1] == 'p');
                    }
                }
            }
            if parts.len() > 0 {
                if same(parts[0].as_str(), "cpu") {
                    assert(ws[0].subrange(0, 3) =~= "cpu"@);
                    if parts.len() >= 11 {
                        let rest = slice_subrange(parts.as_slice(), 1, parts.len());
                        assert(texts(rest@) =~= ws.skip(1));
                        total = parse_cpu_times(rest);
                    }
                } else if starts_with(parts[0].as_str(), "cpu") {
                    if parts.len() >= 11 {
                        let rest = slice_subrange(parts.as_slice(), 1, parts.len());
                        assert(texts(rest@) =~= ws.skip(1));
                        cpus.push(parse_cpu_times(rest));
                    }
                } else {
                    context_switches = read_counter(&parts, "ctxt", context_switches);
                    boot_time = read_counter(&parts, "btime", boot_time);
                    processes = read_counter(&parts, "processes", processes);
                    procs_running = read_counter(&parts, "procs_running", procs_running);
                    procs_blocked = read_counter(&parts, "procs_blocked", procs_blocked);
                }
            }
            i = i + 1;
        }
        assert(ls.take(i as int) =~= ls);
        Ok(
            CpuState {
                total,
                cpus,
                context_switches,
                boot_time,
                processes,
                procs_running,
                procs_blocked,
            },
        )
    }

    /// The lines for the single CPUs, `cpus` being the text of each.
    pub open spec fn cpu_lines(cpus: Seq<Seq<char>>) -> Seq<char>
        decreases cpus.len(),
    {
        if cpus.len() == 0 {
            seq![]
        } else {
            Self::cpu_lines(cpus.drop_last()) + "CPU "@ + padded_left(
                decimal_of((cpus.len() - 1) as nat),
                5,
            ) + ":  "@ + cpus.last() + "\n"@
        }
    }

    /// The whole text, `total` and `cpus` being those of the times.
    pub open spec fn shown(&self, total: Seq<char>, cpus: Seq<Seq<char>>) -> Seq<char> {
        "CPU Total:  "@ + total + "\n"@ + Self::cpu_lines(cpus) + "Context Switches: "@
            + decimal_of(self.context_switches as nat) + "\nBoot Time:        "@ + decimal_of(
            self.boot_time as nat,
        ) + "\nProcesses:        "@ + decimal_of(self.processes as nat) + "\nProcs Running:    "@
            + decimal_of(self.procs_running as nat) + "\nProcs Blocked:    "@ + decimal_of(
            self.procs_blocked as nat,
        )
    }

    /// Writes the snapshot, `total` and `cpus` being what `CpuTimes::display` gives for the
    /// times in it.
    pub fn display(&self, total: &str, cpus: &Vec<String>) -> (r: String)
        requires
            cpus.len() == self.cpus.len(),
        ensures
            r@ == self.shown(total@, texts(cpus@)),
    {
        let mut r = "CPU Total:  ".to_owned();
        r.append(total);
        r.append("\n");
        let ghost head = r@;
        let mut i: usize = 0;
        assert(Self::cpu_lines(texts(cpus@).take(0)) =~= seq![]);
        assert(r@ =~= head + Self::cpu_lines(texts(cpus@).take(0)));
        while i < cpus.len()
            invariant
                i <= cpus.len(),
                r@ == head + Self::cpu_lines(texts(cpus@).take(i as int)),
            decreases cpus.len() - i,
        {
            let ghost before = r@;
            let number = pad_left(decimal(i as u64).as_str(), 5);
            r.append("CPU ");
            r.append(number.as_str());
            r.append(":  ");
            r.append(cpus[i].as_str());
            r.append("\n");
            proof {
                let longer = texts(cpus@).take(i + 1);
                assert(longer.drop_last() =~= texts(cpus@).take(i as int));
                assert(longer.last() == cpus@[i as int]@);
                assert(r@ =~= head + Self::cpu_lines(longer));
            }
            i = i + 1;
        }
        assert(texts(cpus@).take(i as int) =~= texts(cpus@));
        r.append("Context Switches: ");
        r.append(decimal(self.context_switches).as_str());
        r.append("\nBoot Time:        ");
        r.append(decimal(self.boot_time).as_str());
        r.append("\nProcesses:        ");
        r.append(decimal(self.processes).as_str());
        r.append("\nProcs Running:    ");
        r.append(decimal(self.procs_running).as_str());
        r.append("\nProcs Blocked:    ");
        r.append(decimal(self.procs_blocked).as_str());
        r
    }
}

/// A later snapshot is as far from an earlier one as the sum of the differences: where no
/// counter went back, the total of the difference is the difference of the totals.
pub proof fn totals_of_a_difference(later: CpuTimes, earlier: CpuTimes)
    requires
        later.user >= earlier.user,
        later.nice >= earlier.nice,
        later.system >= earlier.system,
        later.idle >= earlier.idle,
        later.iowait >= earlier.iowait,
        later.irq >= earlier.irq,
        later.softirq >= earlier.softirq,
        later.steal >= earlier.steal,
        later.guest >= earlier.guest,
        later.guest_nice >= earlier.guest_nice,
    ensures
        later.since(earlier).sum() == later.sum() - earlier.sum(),
{
}

/// Where a counter went back its difference is 0, so the difference never exceeds the later
/// snapshot.
pub proof fn difference_is_bounded(later: CpuTimes, earlier: CpuTimes)
    ensures
        0 <= later.since(earlier).sum() <= later.sum(),
        later.since(later) == CpuTimes::zero(),
{
}

} // verus!
