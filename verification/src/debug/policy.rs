//! What can be asked about policies.
use crate::text::{decimal, join, quoted, signed_decimal};
use vstd::prelude::*;

verus! {

use crate::text::{decimal_of, joined, quoted_of, signed_decimal_of, texts};

/// Messages about policies.
#[derive(PartialEq, Eq, Debug)]
pub enum PolicyMessage {
    Unknown,
    /// Pass on what policies are hit.
    On,
    /// Stop passing it on.
    Off,
    Title(String),
    Context(String),
    /// List all access rules.
    Show,
    /// Show one access rule.
    Analyzing(u32),
    Done,
    Error(String),
}

/// For how many seconds hits are passed on.
pub const MONITOR_SECONDS: u64 = 30;

/// How many seconds a hit is waited for at a time.
pub const QUEUE_RECV_TIMEOUT: u64 = 1;

/// What came of waiting for a hit.
pub enum MonitorEvent {
    Hit(String),
    /// Nothing came in time.
    Timeout,
    /// The queue is closed.
    Terminated,
}

/// What is done with it.
pub enum MonitorStep {
    Send(PolicyMessage),
    /// The next hit is waited for.
    Wait,
    /// The message is sent and the monitoring ends.
    End(PolicyMessage),
}

/// An access rule, its parts as text where they are only shown.
pub struct Acl {
    pub id: u32,
    /// The whole rule.
    pub text: String,
    pub tap_type: String,
    pub src_groups: Vec<u32>,
    pub dst_groups: Vec<u32>,
    pub proto: u16,
    pub src_port_ranges: Vec<String>,
    pub dst_port_ranges: Vec<String>,
    pub npb_actions: Vec<String>,
}

/// A group of addresses.
pub struct Group {
    pub id: u16,
    pub epc_id: i32,
    /// The addresses.
    pub ips: String,
}

/// The rules with one more put in its place: behind those with the same or a lower number.
pub open spec fn placed(sorted: Seq<Acl>, acl: Acl) -> Seq<Acl>
    decreases sorted.len(),
{
    if sorted.len() == 0 || sorted.last().id <= acl.id {
        sorted.push(acl)
    } else {
        placed(sorted.drop_last(), acl).push(sorted.last())
    }
}

/// The rules by number; rules with the same number keep their order.
pub open spec fn by_id(acls: Seq<Acl>) -> Seq<Acl>
    decreases acls.len(),
{
    if acls.len() == 0 {
        seq![]
    } else {
        placed(by_id(acls.drop_last()), acls.last())
    }
}

/// Whether numbers never go down.
pub open spec fn ids_ascend(acls: Seq<Acl>) -> bool {
    forall|i: int, j: int| 0 <= i <= j < acls.len() ==> (#[trigger] acls[i]).id <= (#[trigger]
    acls[j]).id
}

proof fn lemma_placed(sorted: Seq<Acl>, acl: Acl)
    requires
        ids_ascend(sorted),
    ensures
        ids_ascend(placed(sorted, acl)),
        placed(sorted, acl).len() == sorted.len() + 1,
        placed(sorted, acl).to_multiset() == sorted.to_multiset().insert(acl),
        forall|i: int|
            0 <= i < placed(sorted, acl).len() ==> (#[trigger] placed(sorted, acl)[i]).id
                <= acl.id || (sorted.len() > 0 && placed(sorted, acl)[i].id <= sorted.last().id),
    decreases sorted.len(),
{
    sorted.to_multiset_ensures();
    if sorted.len() > 0 && sorted.last().id > acl.id {
        let init = sorted.drop_last();
        lemma_placed(init, acl);
        let inner = placed(init, acl);
        inner.to_multiset_ensures();
        init.to_multiset_ensures();
        assert(init.push(sorted.last()) =~= sorted);
        assert(inner.push(sorted.last()).to_multiset() =~= sorted.to_multiset().insert(acl));
        let all = placed(sorted, acl);
        assert forall|i: int, j: int| 0 <= i <= j < all.len() implies (#[trigger] all[i]).id <= (
        #[trigger] all[j]).id by {
            if j < inner.len() {
                assert(all[i] == inner[i] && all[j] == inner[j]);
            } else if i < inner.len() {
                assert(all[i] == inner[i]);
                if init.len() > 0 {
                    assert(sorted[init.len() - 1] == init.last());
                    assert(sorted[sorted.len() - 1] == sorted.last());
                }
            }
        }
        assert forall|i: int| 0 <= i < all.len() implies (#[trigger] all[i]).id <= acl.id || (
        sorted.len() > 0 && all[i].id <= sorted.last().id) by {
            assert(all[all.len() - 1] == sorted.last());
        }
    } else {
        let all = placed(sorted, acl);
        assert forall|i: int, j: int| 0 <= i <= j < all.len() implies (#[trigger] all[i]).id <= (
        #[trigger] all[j]).id by {
            if j < sorted.len() {
                assert(all[i] == sorted[i] && all[j] == sorted[j]);
            } else if i < sorted.len() {
                assert(all[i] == sorted[i]);
                assert(sorted[sorted.len() - 1] == sorted.last());
            }
        }
    }
}

/// The rules are listed by ascending number, and each exactly as often as it occurs.
pub proof fn rules_are_listed_by_number(acls: Seq<Acl>)
    ensures
        ids_ascend(by_id(acls)),
        by_id(acls).len() == acls.len(),
        by_id(acls).to_multiset() == acls.to_multiset(),
    decreases acls.len(),
{
    acls.to_multiset_ensures();
    if acls.len() > 0 {
        rules_are_listed_by_number(acls.drop_last());
        lemma_placed(by_id(acls.drop_last()), acls.last());
        acls.drop_last().to_multiset_ensures();
        assert(acls.drop_last().push(acls.last()) =~= acls);
    } else {
        assert(by_id(acls) =~= acls);
    }
}

fn place(sorted: &mut Vec<Acl>, acl: Acl)
    ensures
        final(sorted)@ == placed(old(sorted)@, acl),
{
    let ghost before = sorted@;
    let ghost item = acl;
    let mut k: usize = sorted.len();
    assert(before.take(k as int) =~= before);
    assert(before.skip(k as int) =~= seq![]);
    assert(placed(before.take(k as int), item) + before.skip(k as int) =~= placed(before, item));
    while k > 0 && sorted[k - 1].id > acl.id
        invariant
            k <= sorted.len(),
            sorted@ == before,
            acl == item,
            placed(before.take(k as int), item) + before.skip(k as int) == placed(before, item),
        decreases k,
    {
        proof {
            let head = before.take(k as int);
            assert(head.drop_last() =~= before.take(k - 1));
            assert(head.last() == before[k - 1]);
            assert(placed(head, item) =~= placed(before.take(k - 1), item).push(before[k - 1]));
            assert(placed(before.take(k - 1), item) + before.skip(k - 1) =~= placed(head, item)
                + before.skip(k as int));
        }
        k = k - 1;
    }
    sorted.insert(k, acl);
    proof {
        let head = before.take(k as int);
        assert(k > 0 ==> head.last() == before[k - 1]);
        assert(placed(head, item) =~= head.push(item));
        assert(sorted@ =~= head.push(item) + before.skip(k as int));
    }
}

/// The group with a number, the first if there are several. A rule's number counts in 16 bits.
pub open spec fn group_of(groups: Seq<Group>, id: u32) -> Option<Group>
    decreases groups.len(),
{
    if groups.len() == 0 {
        None
    } else if groups[0].id == id % 65536 {
        Some(groups[0])
    } else {
        group_of(groups.drop_first(), id)
    }
}

pub open spec fn group_text(group: Group) -> Seq<char> {
    "EPC: "@ + signed_decimal_of(group.epc_id as int) + " IP: "@ + group.ips@
}

/// The texts of the groups that a rule names; those that do not exist are passed over.
pub open spec fn group_texts(groups: Seq<Group>, ids: Seq<u32>) -> Seq<Seq<char>>
    decreases ids.len(),
{
    if ids.len() == 0 {
        seq![]
    } else {
        match group_of(groups, ids.last()) {
            Some(group) => group_texts(groups, ids.drop_last()).push(group_text(group)),
            None => group_texts(groups, ids.drop_last()),
        }
    }
}

fn find_group(groups: &Vec<Group>, id: u32) -> (r: Option<usize>)
    ensures
        match r {
            Some(i) => i < groups.len() && group_of(groups@, id) == Some(groups@[i as int]),
            None => group_of(groups@, id) is None,
        },
{
    let wanted: u32 = id % 65536;
    let mut i: usize = 0;
    assert(groups@.skip(0) =~= groups@);
    while i < groups.len()
        invariant
            i <= groups.len(),
            wanted == id % 65536,
            group_of(groups@, id) == group_of(groups@.skip(i as int), id),
        decreases groups.len() - i,
    {
        assert(groups@.skip(i as int).drop_first() =~= groups@.skip(i + 1));
        if groups[i].id as u32 == wanted {
            return Some(i);
        }
        i = i + 1;
    }
    None
}

fn describe_groups(groups: &Vec<Group>, ids: &Vec<u32>) -> (r: Vec<String>)
    ensures
        texts(r@) == group_texts(groups@, ids@),
{
    let mut r: Vec<String> = Vec::new();
    let mut i: usize = 0;
    assert(texts(r@) =~= seq![]);
    assert(ids@.take(0) =~= seq![]);
    while i < ids.len()
        invariant
            i <= ids.len(),
            texts(r@) == group_texts(groups@, ids@.take(i as int)),
        decreases ids.len() - i,
    {
        proof {
            assert(ids@.take(i + 1).drop_last() =~= ids@.take(i as int));
            assert(ids@.take(i + 1).last() == ids@[i as int]);
        }
        if let Some(k) = find_group(groups, ids[i]) {
            let mut text = "EPC: ".to_owned();
            text.append(signed_decimal(groups[k].epc_id).as_str());
            text.append(" IP: ");
            text.append(groups[k].ips.as_str());
            let ghost before = r@;
            r.push(text);
            assert(texts(r@) =~= texts(before).push(text@));
        }
        i = i + 1;
    }
    assert(ids@.take(i as int) =~= ids@);
    r
}

/// The first rule with a number.
pub open spec fn acl_of(acls: Seq<Acl>, id: u32) -> Option<Acl>
    decreases acls.len(),
{
    if acls.len() == 0 {
        None
    } else if acls[0].id == id {
        Some(acls[0])
    } else {
        acl_of(acls.drop_first(), id)
    }
}

/// The port ranges of a rule as one text.
pub open spec fn ports(ranges: Seq<String>) -> Seq<char> {
    joined(texts(ranges), ", "@)
}

/// All about a rule, the texts of its two port lists as they are given.
pub open spec fn rule_text(
    acl: Acl,
    groups: Seq<Group>,
    src_ports: Seq<char>,
    dst_ports: Seq<char>,
) -> Seq<char> {
    "Id: "@ + decimal_of(acl.id as nat) + "\nCaptureNetworkType: "@ + acl.tap_type@
        + "\nIP Src: \n\t"@ + joined(group_texts(groups, acl.src_groups@), "\t\n"@)
        + "\nIP Dst: \n\t"@ + joined(group_texts(groups, acl.dst_groups@), "\t\n"@)
        + "\nProtocol: "@ + decimal_of(acl.proto as nat) + "\nPort Src: "@ + src_ports
        + "\nPort Dst: "@ + dst_ports + "\nActions: "@ + joined(texts(acl.npb_actions@), ","@)
        + "\n"@
}

/// What is said of the rule with a number.
pub open spec fn analysis(acls: Seq<Acl>, groups: Seq<Group>, id: u32) -> Seq<char> {
    match acl_of(acls, id) {
        Some(acl) => rule_text(
            acl,
            groups,
            quoted_of(ports(acl.src_port_ranges@)),
            quoted_of(ports(acl.dst_port_ranges@)),
        ),
        None => "Invalid acl id "@ + decimal_of(id as nat) + "."@,
    }
}

/// Writes all about a rule, the texts of its two port lists as they are given.
pub fn describe_rule(acl: &Acl, groups: &Vec<Group>, src_ports: &str, dst_ports: &str) -> (r:
    String)
    ensures
        r@ == rule_text(*acl, groups@, src_ports@, dst_ports@),
{
    let mut r = "Id: ".to_owned();
    r.append(decimal(acl.id as u64).as_str());
    r.append("\nCaptureNetworkType: ");
    r.append(acl.tap_type.as_str());
    r.append("\nIP Src: \n\t");
    r.append(join(&describe_groups(groups, &acl.src_groups), "\t\n").as_str());
    r.append("\nIP Dst: \n\t");
    r.append(join(&describe_groups(groups, &acl.dst_groups), "\t\n").as_str());
    r.append("\nProtocol: ");
    r.append(decimal(acl.proto as u64).as_str());
    r.append("\nPort Src: ");
    r.append(src_ports);
    r.append("\nPort Dst: ");
    r.append(dst_ports);
    r.append("\nActions: ");
    r.append(join(&acl.npb_actions, ",").as_str());
    r.append("\n");
    r
}

/// How often policies were hit on the two paths.
pub open spec fn hits_text(first_hits: u64, fast_hits: u64) -> Seq<char> {
    "FirstPath Hits: "@ + decimal_of(first_hits as nat) + ", FastPath Hits: "@ + decimal_of(
        fast_hits as nat,
    )
}

/// Whether messages are a title, the rules, one each, and the end.
pub open spec fn are_rules(messages: Seq<PolicyMessage>, title: Seq<char>, rules: Seq<Acl>) -> bool {
    &&& messages.len() == rules.len() + 2
    &&& messages[0] matches PolicyMessage::Title(text) && text@ == title
    &&& forall|i: int|
        0 <= i < rules.len() ==> (#[trigger] messages[i + 1] matches PolicyMessage::Context(text)
            && text@ == rules[i].text@)
    &&& messages.last() is Done
}

/// Answers questions about policies.
pub struct PolicyDebugger {
    /// Whether hits are passed on.
    pub enabled: bool,
}

impl PolicyDebugger {
    pub fn new() -> (r: Self)
        ensures
            !r.enabled,
    {
        PolicyDebugger { enabled: false }
    }

    pub fn turn_on(&mut self)
        ensures
            final(self).enabled,
    {
        self.enabled = true;
    }

    pub fn turn_off(&mut self)
        ensures
            !final(self).enabled,
    {
        self.enabled = false;
    }

    /// Whether another hit is waited for.
    pub fn goes_on(&self, elapsed_secs: u64) -> (r: bool)
        ensures
            r == (self.enabled && elapsed_secs < MONITOR_SECONDS),
    {
        self.enabled && elapsed_secs < MONITOR_SECONDS
    }

    /// What is done when a wait is over.
    pub fn received(&mut self, event: MonitorEvent) -> (r: MonitorStep)
        ensures
            match event {
                MonitorEvent::Hit(text) => r == MonitorStep::Send(PolicyMessage::Context(text))
                    && final(self).enabled == old(self).enabled,
                MonitorEvent::Timeout => r is Wait && final(self).enabled == old(self).enabled,
                MonitorEvent::Terminated => !final(self).enabled && (
                r matches MonitorStep::End(PolicyMessage::Error(text)) && text@
                    == "policy monitor queue terminated."@),
            },
    {
        match event {
            MonitorEvent::Hit(text) => MonitorStep::Send(PolicyMessage::Context(text)),
            MonitorEvent::Timeout => MonitorStep::Wait,
            MonitorEvent::Terminated => {
                self.turn_off();
                MonitorStep::End(
                    PolicyMessage::Error("policy monitor queue terminated.".to_owned()),
                )
            },
        }
    }

    /// What is sent when hits are no longer passed on.
    pub fn finish(&mut self) -> (r: PolicyMessage)
        ensures
            !final(self).enabled,
            r is Done,
    {
        self.turn_off();
        PolicyMessage::Done
    }

    /// How often policies were hit, the rules by number, and the end.
    pub fn show(&self, acls: Vec<Acl>, first_hits: u64, fast_hits: u64) -> (r: Vec<PolicyMessage>)
        ensures
            are_rules(r@, hits_text(first_hits, fast_hits), by_id(acls@)),
    {
        let mut title = "FirstPath Hits: ".to_owned();
        title.append(decimal(first_hits).as_str());
        title.append(", FastPath Hits: ");
        title.append(decimal(fast_hits).as_str());
        let mut sorted: Vec<Acl> = Vec::new();
        let ghost all = acls@;
        let ghost mut n: int = 0;
        assert(all.take(0) =~= seq![]);
        for acl in it: acls
            invariant
                it.seq() == all,
                n == it.index(),
                sorted@ == by_id(all.take(n)),
        {
            proof {
                assert(all.take(n + 1).drop_last() =~= all.take(n));
                assert(all.take(n + 1).last() == acl);
                n = n + 1;
            }
            place(&mut sorted, acl);
        }
        proof {
            assert(all.take(n) =~= all);
            rules_are_listed_by_number(all);
        }
        let mut r: Vec<PolicyMessage> = Vec::new();
        r.push(PolicyMessage::Title(title));
        let mut i: usize = 0;
        while i < sorted.len()
            invariant
                i <= sorted.len(),
                sorted@ == by_id(all),
                r@.len() == i + 1,
                r@[0] == PolicyMessage::Title(title),
                forall|j: int|
                    0 <= j < i ==> (#[trigger] r@[j + 1] matches PolicyMessage::Context(text)
                        && text@ == by_id(all)[j].text@),
            decreases sorted.len() - i,
        {
            let ghost before = r@;
            r.push(PolicyMessage::Context(sorted[i].text.clone()));
            assert forall|j: int| 0 <= j < i + 1 implies (
            #[trigger] r@[j + 1] matches PolicyMessage::Context(text) && text@ == by_id(
                all,
            )[j].text@) by {
                if j < i {
                    assert(r@[j + 1] == before[j + 1]);
                }
            }
            i = i + 1;
        }
        r.push(PolicyMessage::Done);
        r
    }

    /// All about the rule with a number, or that there is none.
    pub fn analyzing(&self, acls: &Vec<Acl>, groups: &Vec<Group>, id: u32) -> (r: PolicyMessage)
        ensures
            r matches PolicyMessage::Context(text) && text@ == analysis(acls@, groups@, id),
    {
        let mut i: usize = 0;
        assert(acls@.skip(0) =~= acls@);
        while i < acls.len()
            invariant
                i <= acls.len(),
                acl_of(acls@, id) == acl_of(acls@.skip(i as int), id),
            decreases acls.len() - i,
        {
            assert(acls@.skip(i as int).drop_first() =~= acls@.skip(i + 1));
            if acls[i].id == id {
                let acl = &acls[i];
                let src = quoted(join(&acl.src_port_ranges, ", ").as_str());
                let dst = quoted(join(&acl.dst_port_ranges, ", ").as_str());
                return PolicyMessage::Context(
                    describe_rule(acl, groups, src.as_str(), dst.as_str()),
                );
            }
            i = i + 1;
        }
        let mut text = "Invalid acl id ".to_owned();
        text.append(decimal(id as u64).as_str());
        text.append(".");
        PolicyMessage::Context(text)
    }
}

} // verus!
