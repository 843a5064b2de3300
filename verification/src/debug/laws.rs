//! What a question to the agent is answered by.
use super::debugger::{Command, QueueMessage, Request};
use super::ebpf::EbpfMessage;
use super::metrics::{CpuMessage, DiskMessage, MemoryMessage, NetworkMessage};
use super::platform::PlatformMessage;
use super::policy::{Acl, PolicyMessage};
use super::rpc::{DebugError, RpcList, RpcMessage};
use crate::sort::Sortable;
use vstd::prelude::*;

verus! {

use super::debugger::answers;
use super::ebpf::{as_signed, streamed};
use super::platform::{are_entries, are_mappings};
use super::policy::{are_rules, by_id, ids_ascend, placed, rules_are_listed_by_number};
use super::rpc::are_items;
use crate::sort::is_sorted;
use vstd::utf8::{decode_utf8, valid_utf8};

/// Each question about the exchange with the controller makes the agent do its own thing, whatever
/// comes with the question.
pub proof fn questions_about_the_controller_have_their_commands(
    v: Option<String>,
    r: Result<Command, DebugError>,
)
    ensures
        answers(Request::Rpc(RpcMessage::Acls(v)), r) <==> r == Ok::<Command, DebugError>(
            Command::FlowAcls,
        ),
        answers(Request::Rpc(RpcMessage::Cidr(v)), r) <==> r == Ok::<Command, DebugError>(
            Command::Cidrs,
        ),
        answers(Request::Rpc(RpcMessage::Config(v)), r) <==> r == Ok::<Command, DebugError>(
            Command::BasicConfig,
        ),
        answers(Request::Rpc(RpcMessage::Groups(v)), r) <==> r == Ok::<Command, DebugError>(
            Command::IpGroups,
        ),
        answers(Request::Rpc(RpcMessage::Segments(v)), r) <==> r == Ok::<Command, DebugError>(
            Command::LocalSegments,
        ),
        answers(Request::Rpc(RpcMessage::CaptureNetworkTypes(v)), r) <==> r == Ok::<
            Command,
            DebugError,
        >(Command::TapTypes),
        answers(Request::Rpc(RpcMessage::Version(v)), r) <==> r == Ok::<Command, DebugError>(
            Command::CurrentVersion,
        ),
        answers(Request::Rpc(RpcMessage::PlatformData(v)), r) <==> r == Ok::<Command, DebugError>(
            Command::PlatformData,
        ),
        Request::Rpc(RpcMessage::Acls(v)).is_request(),
        Request::Rpc(RpcMessage::Cidr(v)).is_request(),
        Request::Rpc(RpcMessage::Config(v)).is_request(),
        Request::Rpc(RpcMessage::Groups(v)).is_request(),
        Request::Rpc(RpcMessage::Segments(v)).is_request(),
        Request::Rpc(RpcMessage::CaptureNetworkTypes(v)).is_request(),
        Request::Rpc(RpcMessage::Version(v)).is_request(),
        Request::Rpc(RpcMessage::PlatformData(v)).is_request(),
        !Request::Rpc(RpcMessage::Fin).is_request(),
{
}

/// Each question about queues, policies, probes and the platform makes the agent do its own thing,
/// with just what the question says.
pub proof fn questions_about_the_agent_have_their_commands(
    queue: QueueMessage,
    policy: PolicyMessage,
    probes: EbpfMessage,
    platform: PlatformMessage,
    r: Result<Command, DebugError>,
)
    ensures
        queue is Clear ==> (answers(Request::Queue(queue), r) <==> r == Ok::<Command, DebugError>(
            Command::TurnOffAllQueues,
        )),
        queue is Names ==> (answers(Request::Queue(queue), r) <==> r == Ok::<Command, DebugError>(
            Command::QueueNames,
        )),
        queue matches QueueMessage::Off(name) ==> (answers(Request::Queue(queue), r) <==> r == Ok::<
            Command,
            DebugError,
        >(Command::TurnOffQueue(name))),
        queue matches QueueMessage::On(on) ==> (answers(Request::Queue(queue), r) <==> r == Ok::<
            Command,
            DebugError,
        >(Command::TurnOnQueue(on.0, on.1))),
        Request::Queue(queue).is_request() <==> queue is Clear || queue is Names || queue is Off
            || queue is On,
        policy is On ==> (answers(Request::Policy(policy), r) <==> r == Ok::<Command, DebugError>(
            Command::MonitorPolicies,
        )),
        policy is Off ==> (answers(Request::Policy(policy), r) <==> r == Ok::<Command, DebugError>(
            Command::StopPolicyMonitor,
        )),
        policy is Show ==> (answers(Request::Policy(policy), r) <==> r == Ok::<Command, DebugError>(
            Command::ShowPolicies,
        )),
        policy matches PolicyMessage::Analyzing(id) ==> (answers(Request::Policy(policy), r) <==> r
            == Ok::<Command, DebugError>(Command::AnalyzePolicy(id))),
        Request::Policy(policy).is_request() <==> policy is On || policy is Off || policy is Show
            || policy is Analyzing,
        probes matches EbpfMessage::DataDump(d) ==> (answers(Request::Ebpf(probes), r) <==> r
            == Ok::<Command, DebugError>(Command::DataDump(d.0, d.1, d.2, d.3))),
        probes matches EbpfMessage::Cpdbg(secs) ==> (answers(Request::Ebpf(probes), r) <==> r
            == Ok::<Command, DebugError>(Command::Cpdbg(secs))),
        Request::Ebpf(probes).is_request() <==> probes is DataDump || probes is Cpdbg,
        platform is Version ==> (answers(Request::Platform(platform), r) <==> r == Ok::<
            Command,
            DebugError,
        >(Command::PlatformVersion)),
        platform is MacMappings ==> (answers(Request::Platform(platform), r) <==> r == Ok::<
            Command,
            DebugError,
        >(Command::MacMappings)),
        platform matches PlatformMessage::Watcher(bytes) ==> (answers(
            Request::Platform(platform),
            r,
        ) ==> if valid_utf8(bytes@) {
            r matches Ok(Command::Watcher(name)) && name@ == decode_utf8(bytes@)
        } else {
            r matches Err(DebugError::FromUtf8(_))
        }),
        Request::Platform(platform).is_request() <==> platform is Version || platform is MacMappings
            || platform is Watcher,
        answers(Request::Other, r) <==> r == Ok::<Command, DebugError>(Command::Skip),
{
}

/// The four host modules answer a question for what they show, and nothing else.
pub proof fn host_modules_answer_one_question(
    cpu: CpuMessage,
    memory: MemoryMessage,
    disk: DiskMessage,
    network: NetworkMessage,
    r: Result<Command, DebugError>,
)
    ensures
        answers(Request::Cpu(cpu), r) ==> if cpu is Show {
            r == Ok::<Command, DebugError>(Command::ShowCpu)
        } else {
            r matches Err(DebugError::InvalidMessage(t)) && t@ == "Invalid CpuMessage"@
        },
        answers(Request::Memory(memory), r) ==> if memory is Show {
            r == Ok::<Command, DebugError>(Command::ShowMemory)
        } else {
            r matches Err(DebugError::InvalidMessage(t)) && t@ == "Invalid MemoryMessage"@
        },
        answers(Request::Disk(disk), r) ==> if disk is Show {
            r == Ok::<Command, DebugError>(Command::ShowDisk)
        } else {
            r matches Err(DebugError::InvalidMessage(t)) && t@ == "Invalid DiskMessage"@
        },
        answers(Request::Network(network), r) ==> if network is Show {
            r == Ok::<Command, DebugError>(Command::ShowNetwork)
        } else {
            r matches Err(DebugError::InvalidMessage(t)) && t@ == "Invalid NetworkMessage"@
        },
{
}

/// The text that a message about the controller carries.
pub open spec fn carried(m: RpcMessage) -> Option<Seq<char>> {
    match m {
        RpcMessage::Config(Some(s))
        | RpcMessage::PlatformData(Some(s))
        | RpcMessage::CaptureNetworkTypes(Some(s))
        | RpcMessage::Cidr(Some(s))
        | RpcMessage::Groups(Some(s))
        | RpcMessage::Acls(Some(s))
        | RpcMessage::Segments(Some(s))
        | RpcMessage::Version(Some(s)) => Some(s@),
        _ => None,
    }
}

/// A list is sent item by item, in order and each once, as messages of its own kind; then comes the
/// end.
pub proof fn a_list_is_sent_item_by_item(
    list: RpcList,
    items: Seq<Seq<char>>,
    messages: Seq<RpcMessage>,
    i: int,
)
    requires
        are_items(list, items, messages),
        0 <= i < items.len(),
    ensures
        messages.len() == items.len() + 1,
        carried(messages[i]) == Some(items[i]),
        messages.last() == RpcMessage::Fin,
        list == RpcList::PlatformData ==> messages[i] is PlatformData,
        list == RpcList::CaptureNetworkTypes ==> messages[i] is CaptureNetworkTypes,
        list == RpcList::Cidr ==> messages[i] is Cidr,
        list == RpcList::Groups ==> messages[i] is Groups,
        list == RpcList::Acls ==> messages[i] is Acls,
        list == RpcList::Segments ==> messages[i] is Segments,
{
}

/// The entries of a watched resource are sent one by one, in order, and then the end.
pub proof fn watched_entries_are_sent_in_order(
    messages: Seq<PlatformMessage>,
    entries: Seq<Vec<u8>>,
    i: int,
)
    requires
        are_entries(messages, entries),
        0 <= i < entries.len(),
    ensures
        messages.len() == entries.len() + 1,
        messages[i] matches PlatformMessage::Watcher(bytes) && bytes@ == entries[i]@,
        messages.last() == PlatformMessage::Fin,
{
}

/// Hardware addresses are sent together, sorted by interface and then by address, each as often as
/// it is known, and then the end.
pub proof fn hardware_addresses_are_sent_sorted(
    messages: Seq<PlatformMessage>,
    mappings: Seq<(u32, String)>,
    i: int,
    j: int,
)
    requires
        are_mappings(messages, mappings),
    ensures
        messages.len() == 2,
        messages[1] == PlatformMessage::Fin,
        messages[0] matches PlatformMessage::MacMappings(Some(m)) && m@.to_multiset()
            == mappings.to_multiset() && (0 <= i < j < m@.len() ==> m@[i].0 <= m@[j].0),
{
    if let PlatformMessage::MacMappings(Some(m)) = messages[0] {
        if 0 <= i < j < m@.len() {
            assert(is_sorted(m@));
            assert(<(u32, String) as Sortable>::leq(m@[i].model(), m@[j].model()));
        }
    }
}

/// The rules with a number, in order.
pub open spec fn with_number(acls: Seq<Acl>, id: u32) -> Seq<Acl>
    decreases acls.len(),
{
    if acls.len() == 0 {
        seq![]
    } else if acls.last().id == id {
        with_number(acls.drop_last(), id).push(acls.last())
    } else {
        with_number(acls.drop_last(), id)
    }
}

proof fn lemma_placed_behind(sorted: Seq<Acl>, acl: Acl, id: u32)
    requires
        ids_ascend(sorted),
    ensures
        with_number(placed(sorted, acl), id) == (if acl.id == id {
            with_number(sorted, id).push(acl)
        } else {
            with_number(sorted, id)
        }),
    decreases sorted.len(),
{
    let all = placed(sorted, acl);
    if sorted.len() > 0 && sorted.last().id > acl.id {
        let init = sorted.drop_last();
        assert forall|i: int, j: int| 0 <= i <= j < init.len() implies (#[trigger] init[i]).id <= (
        #[trigger] init[j]).id by {
            assert(init[i] == sorted[i] && init[j] == sorted[j]);
        }
        lemma_placed_behind(init, acl, id);
        assert(all.drop_last() =~= placed(init, acl));
        assert(all.last() == sorted.last());
    } else {
        assert(all.drop_last() =~= sorted);
        assert(all.last() == acl);
    }
}

/// Rules are listed by their numbers, and those with the same number in the order in which they
/// were given.
pub proof fn rules_with_the_same_number_keep_their_order(acls: Seq<Acl>, id: u32)
    ensures
        with_number(by_id(acls), id) == with_number(acls, id),
    decreases acls.len(),
{
    if acls.len() > 0 {
        let init = acls.drop_last();
        rules_with_the_same_number_keep_their_order(init, id);
        rules_are_listed_by_number(init);
        lemma_placed_behind(by_id(init), acls.last(), id);
    }
}

/// The list of rules begins with its title, has a message with the text of each rule, in order, and
/// ends.
pub proof fn each_rule_is_sent_in_order(
    messages: Seq<PolicyMessage>,
    title: Seq<char>,
    rules: Seq<Acl>,
    i: int,
)
    requires
        are_rules(messages, title, rules),
        0 <= i < rules.len(),
    ensures
        messages.len() == rules.len() + 2,
        messages[0] matches PolicyMessage::Title(t) && t@ == title,
        messages[i + 1] matches PolicyMessage::Context(t) && t@ == rules[i].text@,
        messages.last() == PolicyMessage::Done,
{
}

/// The data among what was received.
pub open spec fn data_in(received: Seq<Option<Vec<u8>>>) -> Seq<Vec<u8>>
    decreases received.len(),
{
    if received.len() == 0 {
        seq![]
    } else {
        match received.last() {
            Some(bytes) => data_in(received.drop_last()).push(bytes),
            None => data_in(received.drop_last()),
        }
    }
}

/// A stream passes on all data that was received, in order and each piece once.
pub proof fn a_stream_passes_on_all_data(timeout: u16, received: Seq<Option<Vec<u8>>>, i: int)
    requires
        received.len() < u64::MAX,
    ensures
        streamed(timeout, received).1.len() == data_in(received).len(),
        0 <= i < data_in(received).len() ==> (streamed(timeout, received).1[i]
            matches EbpfMessage::Context(c) && c.1 == data_in(received)[i]),
        streamed(timeout, received).0.timeout == timeout,
    decreases received.len(),
{
    if received.len() > 0 {
        a_stream_passes_on_all_data(timeout, received.drop_last(), i);
    }
}

/// A number read as a signed one is the same as far as 32 bits go.
pub proof fn signed_numbers_have_the_same_bits(n: u32)
    ensures
        i32::MIN <= as_signed(n) <= i32::MAX,
        as_signed(n) == n || as_signed(n) + 4294967296 == n,
        n <= i32::MAX ==> as_signed(n) == n,
{
}

} // verus!
