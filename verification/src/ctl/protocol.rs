//! The two sides of the debug protocol fit: what the controller asks an agent answers, and what
//! an agent answers the controller prints.
use super::session::{PlatformTask, PolicyTask, QueueCmd, QueueTask, Reaction, RpcData};
use crate::debug::debugger::{Command, QueueMessage, Request};
use crate::debug::platform::PlatformMessage;
use crate::debug::policy::{Acl, PolicyMessage};
use crate::debug::rpc::{DebugError, RpcList, RpcMessage};
use vstd::prelude::*;

verus! {

use super::session::{are_mac_lines, queue_task};
use crate::debug::debugger::answers;
use crate::debug::platform::are_mappings;
use crate::debug::policy::are_rules;
use crate::debug::rpc::are_items;
use crate::text::decimal_of;
use vstd::utf8::{encode_utf8_decode_utf8, encode_utf8_valid_utf8};

/// Whatever the controller asks about the exchange with its agents is a request that they take,
/// and each question has its own answer.
pub proof fn rpc_questions_are_requests(what: RpcData, r: Result<Command, DebugError>)
    requires
        answers(Request::Rpc(what.asks()), r),
    ensures
        Request::Rpc(what.asks()).is_request(),
        r == Ok::<Command, DebugError>(
            match what {
                RpcData::Config => Command::BasicConfig,
                RpcData::Platform => Command::PlatformData,
                RpcData::CaptureNetworkTypes => Command::TapTypes,
                RpcData::Cidr => Command::Cidrs,
                RpcData::Groups => Command::IpGroups,
                RpcData::Acls => Command::FlowAcls,
                RpcData::Segments => Command::LocalSegments,
                RpcData::Version => Command::CurrentVersion,
            },
        ),
{
}

/// Whatever the controller asks about queues is a request that agents take.
pub proof fn queue_questions_are_requests(cmd: QueueCmd, task: QueueTask, message: QueueMessage)
    requires
        queue_task(cmd, Ok((task, Some(message)))),
    ensures
        Request::Queue(message).is_request(),
{
}

/// Whatever the controller asks about policies is a request that agents take.
pub proof fn policy_questions_are_requests(task: PolicyTask)
    ensures
        Request::Policy(task.asks()).is_request(),
{
}

/// Whatever the controller asks about the platform is a request that agents take, and they look
/// for the resource that it names.
pub proof fn platform_questions_are_requests(
    task: PlatformTask,
    message: PlatformMessage,
    r: Result<Command, DebugError>,
)
    requires
        task.asks(Some(message)),
        answers(Request::Platform(message), r),
    ensures
        Request::Platform(message).is_request(),
        match task {
            PlatformTask::Version => r == Ok::<Command, DebugError>(Command::PlatformVersion),
            PlatformTask::MacMappings => r == Ok::<Command, DebugError>(Command::MacMappings),
            PlatformTask::Watch(resource) => r matches Ok(Command::Watcher(name)) && name@
                == resource.name(),
            PlatformTask::Nothing => false,
        },
{
    if let PlatformTask::Watch(resource) = task {
        encode_utf8_valid_utf8(resource.name());
        encode_utf8_decode_utf8(resource.name());
    }
}

/// An agent's list is printed item by item, in order, and ends the command.
pub proof fn listed_items_are_printed(
    what: RpcData,
    list: RpcList,
    items: Seq<Seq<char>>,
    messages: Seq<RpcMessage>,
    i: int,
    r: Reaction,
)
    requires
        are_items(list, items, messages),
        0 <= i < messages.len(),
        what.reacts(Some(messages[i]), r),
    ensures
        i < items.len() ==> r.prints(items[i]) && r.next is Wait,
        i == items.len() ==> r.is_done(),
{
    if i < items.len() {
        assert(list.holds(messages[i], items[i]));
    }
}

/// Interfaces and their hardware addresses are printed, and end the command.
pub proof fn mappings_are_printed(
    mappings: Seq<(u32, String)>,
    messages: Seq<PlatformMessage>,
    first: Reaction,
    second: Reaction,
)
    requires
        are_mappings(messages, mappings),
        PlatformTask::MacMappings.reacts(Some(messages[0]), first),
        PlatformTask::MacMappings.reacts(Some(messages[1]), second),
    ensures
        first.next is Wait,
        exists|sorted: Seq<(u32, String)>|
            sorted.to_multiset() == mappings.to_multiset() && #[trigger] are_mac_lines(
                first.lines@,
                sorted,
            ),
        second.is_done(),
{
    if let PlatformMessage::MacMappings(Some(m)) = messages[0] {
        assert(are_mac_lines(first.lines@, m@));
    }
}

/// The version of the API server is printed, or its absence fails the command.
pub proof fn the_version_is_printed(version: Option<String>, first: Reaction, second: Reaction)
    requires
        PlatformTask::Version.reacts(Some(PlatformMessage::Version(version)), first),
        PlatformTask::Version.reacts(Some(PlatformMessage::Fin), second),
    ensures
        match version {
            Some(text) => first.prints(text@) && first.next is Wait,
            None => first.fails("server version is empty"@),
        },
        second.is_done(),
{
}

/// The task of listing rules when it gets the message at a place: the title does not count.
pub open spec fn listing_at(i: int) -> PolicyTask {
    PolicyTask::Show(
        if i == 0 {
            1
        } else {
            i as i32
        },
    )
}

/// An agent's rules are printed in order under its title, numbered from 1, and end the command.
pub proof fn rules_are_numbered(
    title: Seq<char>,
    rules: Seq<Acl>,
    messages: Seq<PolicyMessage>,
    i: int,
    r: Reaction,
    after: PolicyTask,
)
    requires
        are_rules(messages, title, rules),
        rules.len() + 1 < i32::MAX,
        0 <= i < messages.len(),
        listing_at(i).reacts(Some(messages[i]), r, after),
    ensures
        i == 0 ==> r.prints(title),
        0 < i <= rules.len() ==> r.prints(
            "\t"@ + decimal_of(i as nat) + ": "@ + rules[i - 1].text@,
        ),
        i <= rules.len() ==> r.next is Wait && after == listing_at(i + 1),
        i == rules.len() + 1 ==> r.is_done(),
{
    if 0 < i <= rules.len() {
        assert(messages[(i - 1) + 1] is Context);
    }
}

} // verus!
